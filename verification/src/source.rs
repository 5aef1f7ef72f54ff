//! Where the sources of a package come from and where they stand.

use vstd::prelude::*;
use crate::failure::{failure, outcome, Failure, Messages};
use crate::model::{FetchSpec, FetchSpecView, PackageSpec, PackageSpecView, Text};
use crate::paths;
use crate::paths::{join_path, join_path3, path_starts_with, HostPlatform};
use crate::records::{SourceProvenance, SourceProvenanceView};
use crate::text;
use crate::text::{cat2, cat3, cat4, cat6, split, Dup};

verus! {

/// Where the sources of a package come from and where they are kept.
#[derive(Clone, Debug, PartialEq, Eq)]
pub enum SourcePlan {
    Git {
        url: String,
        reference: String,
        submodules_recursive: bool,
        download_root: String,
        source_root: String,
    },
    Url {
        url: String,
        sha256: Option<String>,
        download_root: String,
        archive_path: String,
        source_root: String,
    },
}

/// The model of [`SourcePlan`].
pub enum SourcePlanView {
    Git {
        url: Text,
        reference: Text,
        submodules_recursive: bool,
        download_root: Text,
        source_root: Text,
    },
    Url {
        url: Text,
        sha256: Option<Text>,
        download_root: Text,
        archive_path: Text,
        source_root: Text,
    },
}

impl DeepView for SourcePlan {
    type V = SourcePlanView;

    open spec fn deep_view(&self) -> SourcePlanView {
        match self {
            SourcePlan::Git {
                url,
                reference,
                submodules_recursive,
                download_root,
                source_root,
            } => SourcePlanView::Git {
                url: url@,
                reference: reference@,
                submodules_recursive: *submodules_recursive,
                download_root: download_root@,
                source_root: source_root@,
            },
            SourcePlan::Url { url, sha256, download_root, archive_path, source_root } =>
            SourcePlanView::Url {
                url: url@,
                sha256: sha256.deep_view(),
                download_root: download_root@,
                archive_path: archive_path@,
                source_root: source_root@,
            },
        }
    }
}

/// What the archive of a URL is called: what stands behind its last slash.
pub open spec fn archive_name(url: Text) -> Text {
    let name = text::pieces(url, '/').last();
    if name.len() == 0 {
        "source.tar"@
    } else {
        name
    }
}

fn url_archive_name(url: &str) -> (name: String)
    ensures
        name@ == archive_name(url@),
{
    let parts = split(url, '/');
    let name: &str = parts[parts.len() - 1].as_str();
    assert(parts.deep_view()[parts.len() - 1] == name@);
    if name.is_empty() {
        "source.tar".to_owned()
    } else {
        name.to_owned()
    }
}

/// Where the sources of a package are to come from; a package has to declare it.
pub open spec fn source_plan(
    platform: HostPlatform,
    depos_root: Text,
    spec: PackageSpecView,
) -> Result<
    SourcePlanView,
    Messages,
> {
    let download_root = paths::joined_path(
        platform,
        paths::joined_path(
            platform,
            paths::joined_path(
                platform,
                paths::joined_path(platform, depos_root, "downloads"@),
                spec.name,
            ),
            spec.namespace,
        ),
        spec.version,
    );
    let source_root = paths::joined_path(platform, download_root, "src"@);
    match spec.fetch {
        None => Err(seq!["package '"@ + spec.id() + "' has no SOURCE directive"@]),
        Some(FetchSpecView::Git { url, reference }) => Ok(
            SourcePlanView::Git {
                url,
                reference,
                submodules_recursive: spec.git_submodules_recursive,
                download_root,
                source_root,
            },
        ),
        Some(FetchSpecView::Url { url, sha256 }) => Ok(
            SourcePlanView::Url {
                url,
                sha256,
                download_root,
                archive_path: paths::joined_path(platform, download_root, archive_name(url)),
                source_root,
            },
        ),
    }
}

pub fn resolve_package_source(
    platform: HostPlatform,
    depos_root: &str,
    spec: &PackageSpec,
) -> (result: Result<
    SourcePlan,
    Failure,
>)
    ensures
        outcome(result) == source_plan(platform, depos_root@, spec.deep_view()),
{
    let download_root = join_path3(
        platform,
        &join_path(platform, depos_root, "downloads"),
        &spec.name,
        &spec.namespace,
        &spec.version,
    );
    let source_root = join_path(platform, &download_root, "src");
    match &spec.fetch {
        None => Err(
            failure(cat3("package '", &spec.package_id(), "' has no SOURCE directive")),
        ),
        Some(FetchSpec::Git { url, reference }) => Ok(
            SourcePlan::Git {
                url: url.dup(),
                reference: reference.dup(),
                submodules_recursive: spec.git_submodules_recursive,
                download_root,
                source_root,
            },
        ),
        Some(FetchSpec::Url { url, sha256 }) => {
            let archive_path = join_path(platform, &download_root, &url_archive_name(url));
            Ok(
                SourcePlan::Url {
                    url: url.dup(),
                    sha256: sha256.dup(),
                    download_root,
                    archive_path,
                    source_root,
                },
            )
        },
    }
}

/// Where the sources came from, once the commit or the digest is known.
pub open spec fn provenance_of(plan: SourcePlanView, resolved: Text) -> SourceProvenanceView {
    match plan {
        SourcePlanView::Git { reference, .. } => SourceProvenanceView {
            source_ref: Some(reference),
            source_commit: Some(resolved),
            source_digest: None,
        },
        SourcePlanView::Url { url, .. } => SourceProvenanceView {
            source_ref: Some(url),
            source_commit: None,
            source_digest: Some(resolved),
        },
    }
}

impl SourcePlan {
    pub fn provenance(&self, resolved: &str) -> (provenance: SourceProvenance)
        ensures
            provenance.deep_view() == provenance_of(self.deep_view(), resolved@),
    {
        match self {
            SourcePlan::Git { reference, .. } => SourceProvenance {
                source_ref: Some(reference.dup()),
                source_commit: Some(resolved.to_owned()),
                source_digest: None,
            },
            SourcePlan::Url { url, .. } => SourceProvenance {
                source_ref: Some(url.dup()),
                source_commit: None,
                source_digest: Some(resolved.to_owned()),
            },
        }
    }
}

/// Whether a path, resolved, stays below a root, resolved.
pub open spec fn root_check(
    platform: HostPlatform,
    path: Text,
    root: Text,
    context: Text,
    resolved_path: Text,
    resolved_root: Text,
) -> Result<(), Messages> {
    if paths::below(platform, resolved_path, resolved_root) {
        Ok(())
    } else {
        Err(
            seq![
                context + " resolves outside its allowed root '"@ + root + "': '"@ + path + "'"@,
            ],
        )
    }
}

/// Checks that a path stays below a root. Both come with what they are once links are followed.
pub fn ensure_resolved_path_within_root(
    platform: HostPlatform,
    path: &str,
    root: &str,
    context: &str,
    resolved_path: &str,
    resolved_root: &str,
) -> (result: Result<(), Failure>)
    ensures
        outcome(result) == root_check(
            platform,
            path@,
            root@,
            context@,
            resolved_path@,
            resolved_root@,
        ),
{
    if path_starts_with(platform, resolved_path, resolved_root) {
        Ok(())
    } else {
        Err(
            failure(
                cat6(
                    context,
                    " resolves outside its allowed root '",
                    root,
                    "': '",
                    path,
                    "'",
                ),
            ),
        )
    }
}

/// The declared part of the fetched sources, or all of them. `resolved` holds what the part and
/// the whole are once links are followed, where the part is there.
pub open spec fn source_root_of(
    platform: HostPlatform,
    fetched: Text,
    spec: PackageSpecView,
    resolved: Option<(Text, Text)>,
) -> Result<Text, Messages> {
    match spec.source_subdir {
        None => Ok(fetched),
        Some(subdir) => {
            let path = paths::joined_path(platform, fetched, subdir);
            let package = "package '"@ + spec.id();
            match resolved {
                None => Err(
                    seq![
                        package + "' declares SOURCE_SUBDIR '"@ + subdir + "', but '"@ + path
                            + "' does not exist"@,
                    ],
                ),
                Some((resolved_path, resolved_root)) => match root_check(
                    platform,
                    path,
                    fetched,
                    package + "' SOURCE_SUBDIR '"@ + subdir + "'"@,
                    resolved_path,
                    resolved_root,
                ) {
                    Err(messages) => Err(messages),
                    Ok(_) => Ok(resolved_path),
                },
            }
        },
    }
}

pub fn resolve_source_root(
    platform: HostPlatform,
    fetched_source_root: &str,
    spec: &PackageSpec,
    resolved: &Option<(String, String)>,
) -> (result: Result<String, Failure>)
    ensures
        outcome(result) == source_root_of(
            platform,
            fetched_source_root@,
            spec.deep_view(),
            resolved.deep_view(),
        ),
{
    let subdir = match &spec.source_subdir {
        None => {
            return Ok(fetched_source_root.to_owned());
        },
        Some(subdir) => subdir,
    };
    let path = join_path(platform, fetched_source_root, subdir);
    let package = cat2("package '", &spec.package_id());
    match resolved {
        None => Err(
            failure(
                cat6(
                    &package,
                    "' declares SOURCE_SUBDIR '",
                    subdir,
                    "', but '",
                    &path,
                    "' does not exist",
                ),
            ),
        ),
        Some((resolved_path, resolved_root)) => {
            ensure_resolved_path_within_root(
                platform,
                &path,
                fetched_source_root,
                &cat4(&package, "' SOURCE_SUBDIR '", subdir, "'"),
                resolved_path,
                resolved_root,
            )?;
            Ok(resolved_path.dup())
        },
    }
}

} // verus!
