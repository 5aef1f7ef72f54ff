//! Registries: what a manifest selects and the files that hand it to CMake.

use vstd::prelude::*;
use crate::digest;

use crate::failure::{failure, outcome, Failure, Messages};
use crate::layout;
use crate::layout::{package_store_root, registry_dir};
use crate::manifest;
use crate::manifest::parse_manifest;
use crate::model::{PackageSpec, PackageSpecView, Text};
use crate::paths;
use crate::paths::{join_path, HostPlatform};
use crate::records::{SourceProvenance, SourceProvenanceView};
use crate::render;
use crate::render::{render_lock_cmake, render_targets_cmake, render_validate_cmake};
use crate::resolve;
use crate::resolve::{
    resolve_requests, variant_for_selected_packages, ResolvedPackage, ResolvedPackageView,
};
use crate::text::{cat7, put};

verus! {

/// What to synchronize: a manifest, and the executable to start build steps with.
#[derive(Clone, Debug, PartialEq, Eq)]
pub struct SyncOptions {
    pub depos_root: String,
    pub manifest: String,
    pub executable: Option<String>,
}

/// What to materialize from sources that are already prepared.
#[derive(Clone, Debug, PartialEq, Eq)]
pub struct InternalMaterializePreparedOptions {
    pub depos_root: String,
    pub name: String,
    pub namespace: String,
    pub version: String,
    pub source_root: String,
    pub store_root: String,
    pub executable: String,
}

/// A registry: its directory, its files and the packages that it holds.
#[derive(Clone, Debug, PartialEq, Eq)]
pub struct RegistryOutput {
    pub registry_dir: String,
    pub lock_file: String,
    pub validate_file: String,
    pub targets_file: String,
    pub selected: Vec<ResolvedPackage>,
}

/// The model of [`RegistryOutput`].
pub struct RegistryOutputView {
    pub registry_dir: Text,
    pub lock_file: Text,
    pub validate_file: Text,
    pub targets_file: Text,
    pub selected: Seq<ResolvedPackageView>,
}

impl DeepView for RegistryOutput {
    type V = RegistryOutputView;

    open spec fn deep_view(&self) -> RegistryOutputView {
        RegistryOutputView {
            registry_dir: self.registry_dir@,
            lock_file: self.lock_file@,
            validate_file: self.validate_file@,
            targets_file: self.targets_file@,
            selected: self.selected.deep_view(),
        }
    }
}

/// What a manifest selects, and where its registry is kept.
#[derive(Clone, Debug, PartialEq, Eq)]
pub struct RegistryPlan {
    pub variant: String,
    pub profile: String,
    pub registry_dir: String,
    pub selected: Vec<ResolvedPackage>,
}

/// The model of [`RegistryPlan`].
pub struct RegistryPlanView {
    pub variant: Text,
    pub profile: Text,
    pub registry_dir: Text,
    pub selected: Seq<ResolvedPackageView>,
}

impl DeepView for RegistryPlan {
    type V = RegistryPlanView;

    open spec fn deep_view(&self) -> RegistryPlanView {
        RegistryPlanView {
            variant: self.variant@,
            profile: self.profile@,
            registry_dir: self.registry_dir@,
            selected: self.selected.deep_view(),
        }
    }
}

/// What a manifest selects from a catalog; `digest` is the digest of the manifest.
pub open spec fn plan_for(
    platform: HostPlatform,
    depos_root: Text,
    path: Text,
    source: Text,
    digest: Text,
    catalog: Seq<PackageSpecView>,
    host: Text,
) -> Result<RegistryPlanView, Messages> {
    match manifest::manifest_requests(path, source) {
        Err(messages) => Err(messages),
        Ok(requests) => match resolve::resolution(catalog, requests) {
            Err(messages) => Err(messages),
            Ok(selected) => match resolve::selected_variant(selected, host) {
                Err(messages) => Err(messages),
                Ok(variant) => {
                    let profile = digest::profile_named(digest);
                    Ok(
                        RegistryPlanView {
                            variant,
                            profile,
                            registry_dir: layout::registry_dir_of(
                                platform,
                                depos_root,
                                variant,
                                profile,
                            ),
                            selected,
                        },
                    )
                },
            },
        },
    }
}

/// Decides what a manifest selects, given its digest.
pub fn plan_with_digest(
    platform: HostPlatform,
    depos_root: &str,
    manifest: &str,
    source: &str,
    digest: &str,
    catalog: &Vec<PackageSpec>,
    host: &str,
) -> (result: Result<RegistryPlan, Failure>)
    requires
        digest@.len() >= 16,
    ensures
        outcome(result) == plan_for(
            platform,
            depos_root@,
            manifest@,
            source@,
            digest@,
            catalog.deep_view(),
            host@,
        ),
{
    let requests = parse_manifest(manifest, source)?;
    let selected = resolve_requests(catalog, &requests)?;
    let variant = variant_for_selected_packages(&selected, host)?;
    let profile = digest::profile_from_digest(digest);
    let registry_dir = registry_dir(platform, depos_root, &variant, &profile);
    Ok(RegistryPlan { variant, profile, registry_dir, selected })
}

/// Decides what the manifest at `manifest`, whose contents are `source`, selects.
pub fn plan_registry(
    platform: HostPlatform,
    depos_root: &str,
    manifest: &str,
    source: &str,
    catalog: &Vec<PackageSpec>,
    host: &str,
) -> (result: Result<RegistryPlan, Failure>)
    ensures
        outcome(result) == plan_for(
            platform,
            depos_root@,
            manifest@,
            source@,
            digest::sha256_hex(vstd::utf8::encode_utf8(source@)),
            catalog.deep_view(),
            host@,
        ),
{
    let digest = digest::hash_file_sha256(source.as_bytes());
    plan_with_digest(platform, depos_root, manifest, source, &digest, catalog, host)
}

/// The directory of the registry for a manifest.
pub fn registry_dir_from_manifest(
    platform: HostPlatform,
    depos_root: &str,
    manifest: &str,
    source: &str,
    catalog: &Vec<PackageSpec>,
    host: &str,
) -> (result: Result<String, Failure>)
    ensures
        outcome(result) == match plan_for(
            platform,
            depos_root@,
            manifest@,
            source@,
            digest::sha256_hex(vstd::utf8::encode_utf8(source@)),
            catalog.deep_view(),
            host@,
        ) {
            Err(messages) => Err(messages),
            Ok(plan) => Ok(plan.registry_dir),
        },
{
    let plan = plan_registry(platform, depos_root, manifest, source, catalog, host)?;
    Ok(plan.registry_dir)
}

/// A path that a selected package must have in the store.
#[derive(Clone, Debug, PartialEq, Eq)]
pub struct RequiredPath {
    pub package_id: String,
    pub relative_path: String,
    pub store_root: String,
}

/// The model of [`RequiredPath`].
pub struct RequiredPathView {
    pub package_id: Text,
    pub relative_path: Text,
    pub store_root: Text,
}

impl DeepView for RequiredPath {
    type V = RequiredPathView;

    open spec fn deep_view(&self) -> RequiredPathView {
        RequiredPathView {
            package_id: self.package_id@,
            relative_path: self.relative_path@,
            store_root: self.store_root@,
        }
    }
}

/// The required paths of one package.
pub open spec fn required_of(
    platform: HostPlatform,
    depos_root: Text,
    variant: Text,
    spec: PackageSpecView,
) -> Seq<
    RequiredPathView,
> {
    spec.required(platform).map_values(
        |path: Text|
            RequiredPathView {
                package_id: spec.id(),
                relative_path: path,
                store_root: layout::store_root_of(platform, depos_root, variant, spec),
            },
    )
}

/// The required paths of the first `count` packages.
pub open spec fn required_among(
    platform: HostPlatform,
    depos_root: Text,
    variant: Text,
    selected: Seq<ResolvedPackageView>,
    count: int,
) -> Seq<RequiredPathView>
    decreases count,
{
    if count <= 0 {
        Seq::empty()
    } else {
        required_among(platform, depos_root, variant, selected, count - 1) + required_of(
            platform,
            depos_root,
            variant,
            selected[count - 1].spec,
        )
    }
}

/// Lists every path that the selected packages must have in the store.
pub fn required_paths_of_selected(
    platform: HostPlatform,
    depos_root: &str,
    variant: &str,
    selected: &Vec<ResolvedPackage>,
) -> (result: Vec<RequiredPath>)
    ensures
        result.deep_view() == required_among(
            platform,
            depos_root@,
            variant@,
            selected.deep_view(),
            selected.len() as int,
        ),
{
    let mut result: Vec<RequiredPath> = Vec::new();
    let mut count: usize = 0;
    assert(result.deep_view() == Seq::<RequiredPathView>::empty());
    while count < selected.len()
        invariant
            count <= selected.len(),
            result.deep_view() == required_among(
                platform,
                depos_root@,
                variant@,
                selected.deep_view(),
                count as int,
            ),
        decreases selected.len() - count,
    {
        let spec = &selected[count].spec;
        assert(selected.deep_view()[count as int].spec == spec.deep_view());
        let store_root = package_store_root(platform, depos_root, variant, spec);
        let required = spec.required_paths(platform);
        let ghost before = result.deep_view();
        let ghost all = required_of(platform, depos_root@, variant@, spec.deep_view());
        let mut next: usize = 0;
        assert(result.deep_view() == before + all.take(0));
        while next < required.len()
            invariant
                next <= required.len(),
                required.deep_view() == spec.deep_view().required(platform),
                store_root@ == layout::store_root_of(
                    platform,
                    depos_root@,
                    variant@,
                    spec.deep_view(),
                ),
                all == required_of(platform, depos_root@, variant@, spec.deep_view()),
                result.deep_view() == before + all.take(next as int),
            decreases required.len() - next,
        {
            let item = RequiredPath {
                package_id: spec.package_id(),
                relative_path: required[next].clone(),
                store_root: store_root.clone(),
            };
            assert(required.deep_view()[next as int] == required[next as int]@);
            assert(item.deep_view() == all[next as int]);
            put(&mut result, item);
            next = next + 1;
            assert(result.deep_view() == before + all.take(next as int));
        }
        assert(all.take(next as int) == all);
        count = count + 1;
    }
    result
}

/// What is said of a required path that is missing.
pub open spec fn missing_message(required: RequiredPathView) -> Text {
    "package '"@ + required.package_id + "' is selected but required path '"@
        + required.relative_path + "' is missing under '"@ + required.store_root + "'"@
}

/// The outcome of checking the required paths from position `from` on; `present` tells of each
/// whether it is in the store.
pub open spec fn presence_check(
    required: Seq<RequiredPathView>,
    present: Seq<bool>,
    from: int,
) -> Result<
    (),
    Messages,
>
    decreases required.len() - from,
{
    if from >= required.len() {
        Ok(())
    } else if !present[from] {
        Err(seq![missing_message(required[from])])
    } else {
        presence_check(required, present, from + 1)
    }
}

pub fn validate_materialized_packages(
    required: &Vec<RequiredPath>,
    present: &Vec<bool>,
) -> (result: Result<
    (),
    Failure,
>)
    requires
        required.len() == present.len(),
    ensures
        outcome(result) == presence_check(required.deep_view(), present@, 0),
{
    let mut index: usize = 0;
    while index < required.len()
        invariant
            required.len() == present.len(),
            index <= required.len(),
            presence_check(required.deep_view(), present@, 0) == presence_check(
                required.deep_view(),
                present@,
                index as int,
            ),
        decreases required.len() - index,
    {
        assert(required.deep_view()[index as int] == required[index as int].deep_view());
        if !present[index] {
            return Err(
                failure(
                    cat7(
                        "package '",
                        &required[index].package_id,
                        "' is selected but required path '",
                        &required[index].relative_path,
                        "' is missing under '",
                        &required[index].store_root,
                        "'",
                    ),
                ),
            );
        }
        index = index + 1;
    }
    Ok(())
}

/// The registry together with what its files hold.
#[derive(Clone, Debug, PartialEq, Eq)]
pub struct RegistryFiles {
    pub output: RegistryOutput,
    pub validate: String,
    pub targets: String,
    pub lock: String,
}

/// The model of [`RegistryFiles`].
pub struct RegistryFilesView {
    pub output: RegistryOutputView,
    pub validate: Text,
    pub targets: Text,
    pub lock: Text,
}

impl DeepView for RegistryFiles {
    type V = RegistryFilesView;

    open spec fn deep_view(&self) -> RegistryFilesView {
        RegistryFilesView {
            output: self.output.deep_view(),
            validate: self.validate@,
            targets: self.targets@,
            lock: self.lock@,
        }
    }
}

/// The files of a registry.
pub open spec fn registry_files(
    platform: HostPlatform,
    depos_root: Text,
    manifest: Text,
    plan: RegistryPlanView,
    provenances: Seq<SourceProvenanceView>,
) -> Result<RegistryFilesView, Messages> {
    let validate_file = paths::joined_path(platform, plan.registry_dir, "validate.cmake"@);
    match render::targets_file(platform, depos_root, plan.variant, validate_file, plan.selected) {
        Err(messages) => Err(messages),
        Ok(targets) => Ok(
            RegistryFilesView {
                output: RegistryOutputView {
                    registry_dir: plan.registry_dir,
                    lock_file: paths::joined_path(platform, plan.registry_dir, "lock.cmake"@),
                    validate_file,
                    targets_file: paths::joined_path(platform, plan.registry_dir, "targets.cmake"@),
                    selected: plan.selected,
                },
                validate: render::validate_head(platform, depos_root, plan.variant)
                    + render::validate_lines(
                    platform,
                    depos_root,
                    plan.variant,
                    plan.selected,
                    plan.selected.len() as int,
                ),
                targets,
                lock: render::lock_file(
                    platform,
                    depos_root,
                    manifest,
                    plan.variant,
                    plan.profile,
                    plan.registry_dir,
                    plan.selected,
                    provenances,
                ),
            },
        ),
    }
}

/// The paths that the packages of a plan must have in the store.
pub open spec fn required_by(
    platform: HostPlatform,
    depos_root: Text,
    plan: RegistryPlanView,
) -> Seq<RequiredPathView> {
    required_among(
        platform,
        depos_root,
        plan.variant,
        plan.selected,
        plan.selected.len() as int,
    )
}

/// The outcome of writing the registry for a plan: it is refused where a required path is not in
/// the store.
pub open spec fn synced(
    platform: HostPlatform,
    depos_root: Text,
    manifest: Text,
    plan: RegistryPlanView,
    present: Seq<bool>,
    provenances: Seq<SourceProvenanceView>,
) -> Result<RegistryFilesView, Messages> {
    match presence_check(required_by(platform, depos_root, plan), present, 0) {
        Err(messages) => Err(messages),
        Ok(_) => registry_files(platform, depos_root, manifest, plan, provenances),
    }
}

/// Renders the registry for a plan once its packages are materialized; `present` tells of each
/// required path whether it is in the store, and `provenances` holds where the sources of each
/// selected package came from.
pub fn sync_registry(
    platform: HostPlatform,
    depos_root: &str,
    manifest: &str,
    plan: RegistryPlan,
    present: &Vec<bool>,
    provenances: &Vec<SourceProvenance>,
) -> (result: Result<RegistryFiles, Failure>)
    requires
        plan.selected.len() == provenances.len(),
        present.len() == required_by(platform, depos_root@, plan.deep_view()).len(),
    ensures
        outcome(result) == synced(
            platform,
            depos_root@,
            manifest@,
            plan.deep_view(),
            present@,
            provenances.deep_view(),
        ),
{
    let required = required_paths_of_selected(platform, depos_root, &plan.variant, &plan.selected);
    assert(required.deep_view().len() == required.len());
    validate_materialized_packages(&required, present)?;
    let validate_file = join_path(platform, &plan.registry_dir, "validate.cmake");
    let targets_file = join_path(platform, &plan.registry_dir, "targets.cmake");
    let lock_file = join_path(platform, &plan.registry_dir, "lock.cmake");
    let validate = render_validate_cmake(platform, depos_root, &plan.variant, &plan.selected);
    let targets = render_targets_cmake(
        platform,
        depos_root,
        &plan.variant,
        &validate_file,
        &plan.selected,
    )?;
    let lock = render_lock_cmake(
        platform,
        depos_root,
        manifest,
        &plan.variant,
        &plan.profile,
        &plan.registry_dir,
        &plan.selected,
        provenances,
    );
    Ok(
        RegistryFiles {
            output: RegistryOutput {
                registry_dir: plan.registry_dir,
                lock_file,
                validate_file,
                targets_file,
                selected: plan.selected,
            },
            validate,
            targets,
            lock,
        },
    )
}

} // verus!
