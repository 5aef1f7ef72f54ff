//! Builds inside a local Linux that macOS and Windows provide.

use vstd::prelude::*;
use crate::arch;
use crate::arch::variant_for_target_arch;
use crate::digest;
use crate::digest::sha256_digest_hex;
use crate::failure::{failure, outcome, Failure, Messages};
use crate::model::{PackageSpec, PackageSpecView, Text};
use crate::names;
use crate::paths;
use crate::paths::{components, is_absolute, HostPlatform};
use crate::text;
use crate::text::{
    cat2, cat3, cat4, cat5, cat6, cat7, chars_of, put, replace, same, slice, trim, words2, Dup,
};

verus! {

/// The provider that a user asks for.
#[derive(Clone, Copy, Debug, PartialEq, Eq, Structural)]
pub enum ProviderSelection {
    Auto,
    Wsl2,
    MacLocal,
}

impl DeepView for ProviderSelection {
    type V = ProviderSelection;

    open spec fn deep_view(&self) -> ProviderSelection {
        *self
    }
}

/// The provider that a word stands for, white space around it left aside.
pub open spec fn selection_named(value: Text) -> Option<ProviderSelection> {
    let word = text::trimmed(value);
    if word == ""@ || word == "auto"@ {
        Some(ProviderSelection::Auto)
    } else if word == "wsl2"@ {
        Some(ProviderSelection::Wsl2)
    } else if word == "mac-local"@ {
        Some(ProviderSelection::MacLocal)
    } else {
        None
    }
}

/// `metalor::runtime::linux_provider::LocalLinuxProviderSelection::from_str` trims the text and
/// knows the words `auto`, `wsl2` and `mac-local`; the empty text is `auto`, and any other is an
/// error.
#[verifier::external_body]
fn provider_selection(value: &str) -> (selection: Option<ProviderSelection>)
    ensures
        selection == selection_named(value@),
{
    match value.parse::<metalor::runtime::linux_provider::LocalLinuxProviderSelection>() {
        Ok(metalor::runtime::linux_provider::LocalLinuxProviderSelection::Auto) => Some(
            ProviderSelection::Auto,
        ),
        Ok(metalor::runtime::linux_provider::LocalLinuxProviderSelection::Wsl2) => Some(
            ProviderSelection::Wsl2,
        ),
        Ok(metalor::runtime::linux_provider::LocalLinuxProviderSelection::MacLocal) => Some(
            ProviderSelection::MacLocal,
        ),
        Err(_) => None,
    }
}

/// The provider that `DEPOS_LINUX_PROVIDER` asks for.
pub open spec fn selection_of(value: Option<Text>) -> Result<ProviderSelection, Messages> {
    match value {
        None => Ok(ProviderSelection::Auto),
        Some(value) => match selection_named(value) {
            Some(selection) => Ok(selection),
            None => Err(
                seq![
                    "unsupported DEPOS_LINUX_PROVIDER '"@ + text::trimmed(value)
                        + "'; expected one of: auto, wsl2, mac-local"@,
                ],
            ),
        },
    }
}

pub fn configured_provider_selection(value: &Option<String>) -> (result: Result<
    ProviderSelection,
    Failure,
>)
    ensures
        outcome(result) == selection_of(value.deep_view()),
{
    match value {
        None => Ok(ProviderSelection::Auto),
        Some(value) => match provider_selection(value) {
            Some(selection) => Ok(selection),
            None => Err(
                failure(
                    cat3(
                        "unsupported DEPOS_LINUX_PROVIDER '",
                        &trim(value),
                        "'; expected one of: auto, wsl2, mac-local",
                    ),
                ),
            ),
        },
    }
}

/// What is wrong with a provider on a host: each belongs to one system.
pub open spec fn selection_check(platform: HostPlatform, selection: ProviderSelection) -> Result<
    (),
    Messages,
> {
    if platform == HostPlatform::Windows && selection == ProviderSelection::MacLocal {
        Err(
            seq![
                "DEPOS_LINUX_PROVIDER=mac-local is not supported on Windows; use auto or wsl2"@,
            ],
        )
    } else if platform == HostPlatform::Macos && selection == ProviderSelection::Wsl2 {
        Err(
            seq!["DEPOS_LINUX_PROVIDER=wsl2 is not supported on macOS; use auto or mac-local"@],
        )
    } else {
        Ok(())
    }
}

pub fn ensure_provider_selection_supported(
    platform: HostPlatform,
    selection: ProviderSelection,
) -> (result: Result<(), Failure>)
    ensures
        outcome(result) == selection_check(platform, selection),
{
    if platform == HostPlatform::Windows && selection == ProviderSelection::MacLocal {
        Err(
            failure(
                "DEPOS_LINUX_PROVIDER=mac-local is not supported on Windows; use auto or wsl2".to_owned(),
            ),
        )
    } else if platform == HostPlatform::Macos && selection == ProviderSelection::Wsl2 {
        Err(
            failure(
                "DEPOS_LINUX_PROVIDER=wsl2 is not supported on macOS; use auto or mac-local".to_owned(),
            ),
        )
    } else {
        Ok(())
    }
}

/// The program that runs Linux on macOS: it has to be named, by an absolute path.
pub open spec fn helper_of(value: Option<Text>) -> Result<Text, Messages> {
    match value {
        None => Err(
            seq![
                "BUILD_ROOT OCI on macOS requires a direct Apple Virtualization helper; set DEPOS_APPLE_VIRTUALIZATION_HELPER to the helper executable"@,
            ],
        ),
        Some(helper) => if paths::absolute(helper) {
            Ok(helper)
        } else {
            Err(
                seq!["DEPOS_APPLE_VIRTUALIZATION_HELPER must be an absolute path: "@ + helper],
            )
        },
    }
}

pub fn configured_apple_helper(value: &Option<String>) -> (result: Result<String, Failure>)
    ensures
        outcome(result) == helper_of(value.deep_view()),
{
    match value {
        None => Err(
            failure(
                "BUILD_ROOT OCI on macOS requires a direct Apple Virtualization helper; set DEPOS_APPLE_VIRTUALIZATION_HELPER to the helper executable".to_owned(),
            ),
        ),
        Some(helper) => if is_absolute(helper) {
            Ok(helper.dup())
        } else {
            Err(
                failure(
                    cat2("DEPOS_APPLE_VIRTUALIZATION_HELPER must be an absolute path: ", helper),
                ),
            )
        },
    }
}

/// `s` without the slashes at its end.
pub open spec fn without_slashes(s: Text) -> Text
    decreases s.len(),
{
    if s.len() > 0 && s.last() == '/' {
        without_slashes(s.drop_last())
    } else {
        s
    }
}

/// A root inside Linux: an absolute path with slashes and without `.` and `..`, trimmed, and
/// without slashes at its end.
pub open spec fn linux_root(value: Text) -> Result<Text, Messages> {
    let root = text::trimmed(value);
    let parts = text::pieces(root, '/');
    if root.len() == 0 {
        Err(seq!["provider runtime root must not be empty"@])
    } else if root[0] != '/' {
        Err(seq!["provider runtime root must be an absolute Linux path: "@ + root])
    } else if root.contains('\\') {
        Err(seq!["provider runtime root must use '/' separators: "@ + root])
    } else if parts.contains("."@) || parts.contains(".."@) {
        Err(seq!["provider runtime root must not contain '.' or '..': "@ + root])
    } else if root == "/"@ {
        Ok(root)
    } else {
        Ok(without_slashes(root))
    }
}

/// `metalor::runtime::linux_provider::ProviderRuntimeLayout::new` checks and cleans the root of a
/// runtime, which `root` then returns. Each of the four complaints is an error of one message.
#[verifier::external_body]
fn provider_runtime_root(value: &str) -> (result: Result<String, Failure>)
    ensures
        outcome(result) == linux_root(value@),
{
    match metalor::runtime::linux_provider::ProviderRuntimeLayout::new(value) {
        Ok(layout) => Ok(layout.root().to_string()),
        Err(error) => Err(
            Failure { messages: error.chain().map(|cause| cause.to_string()).collect() },
        ),
    }
}

/// A path below a root inside Linux.
pub open spec fn provider_path(root: Text, name: Text) -> Text {
    if root == "/"@ {
        "/"@ + name
    } else {
        root + "/"@ + name
    }
}

/// `metalor::runtime::linux_provider::PROVIDER_RUNTIME_LAYOUT_VERSION`, which is `v1`.
#[verifier::external_body]
fn runtime_layout_version() -> (version: &'static str)
    ensures
        version@ == "v1"@,
{
    metalor::runtime::linux_provider::PROVIDER_RUNTIME_LAYOUT_VERSION
}

/// What is wrong with a part of the name of a stamp: it is empty, or holds another character than
/// ASCII letters, digits, `-`, `_` and `.`.
pub open spec fn stamp_part_check(value: Text, context: Text) -> Result<(), Messages> {
    if value.len() == 0 {
        Err(seq![context + " must not be empty"@])
    } else if forall|i: int| 0 <= i < value.len() ==> names::is_namespace_char(#[trigger] value[i]) {
        Ok(())
    } else {
        Err(
            seq![
                context + " must contain only ASCII letters, digits, '-', '_', and '.': "@ + value,
            ],
        )
    }
}

/// The stamp below a runtime root that tells that `label` was done in `version`.
pub open spec fn stamp_of(value: Text, label: Text, version: Text) -> Result<Text, Messages> {
    match linux_root(value) {
        Err(messages) => Err(messages),
        Ok(root) => match stamp_part_check(label, "provider stamp label"@) {
            Err(messages) => Err(messages),
            Ok(_) => match stamp_part_check(version, "provider stamp version"@) {
                Err(messages) => Err(messages),
                Ok(_) => Ok(provider_path(root, label + "-"@ + version + ".stamp"@)),
            },
        },
    }
}

/// `metalor::runtime::linux_provider::ProviderRuntimeLayout::stamp_path` names the file
/// `<label>-<version>.stamp` below the root that `new` has checked and cleaned. It refuses a label
/// or a version that is empty or holds another character than ASCII letters, digits, `-`, `_` and
/// `.`, with one message.
#[verifier::external_body]
fn runtime_stamp_path(root: &str, label: &str, version: &str) -> (result: Result<String, Failure>)
    ensures
        outcome(result) == stamp_of(root@, label@, version@),
{
    match metalor::runtime::linux_provider::ProviderRuntimeLayout::new(root).and_then(
        |layout| layout.stamp_path(label, version),
    ) {
        Ok(path) => Ok(path),
        Err(error) => Err(
            Failure { messages: error.chain().map(|cause| cause.to_string()).collect() },
        ),
    }
}

/// The stamp that tells that the sources with a given fingerprint are at the provider.
pub fn source_sync_stamp(root: &str, fingerprint: &str) -> (result: Result<String, Failure>)
    ensures
        outcome(result) == stamp_of(root@, "repo-sync"@, fingerprint@),
{
    runtime_stamp_path(root, "repo-sync", fingerprint)
}

/// The provider that a build runs in.
#[derive(Clone, Copy, Debug, PartialEq, Eq, Structural)]
pub enum ProviderKind {
    Wsl2,
    MacLocal,
}

/// What a provider keeps about itself below its root.
#[derive(Clone, Debug, PartialEq, Eq)]
pub struct ProviderMetadata {
    pub kind: ProviderKind,
    pub identity: String,
    pub runtime_root: String,
    pub runtime_layout_version: String,
    pub bootstrap_version: String,
    pub bootstrap_stamp: String,
}

/// The model of [`ProviderMetadata`].
pub struct ProviderMetadataView {
    pub kind: ProviderKind,
    pub identity: Text,
    pub runtime_root: Text,
    pub runtime_layout_version: Text,
    pub bootstrap_version: Text,
    pub bootstrap_stamp: Text,
}

impl DeepView for ProviderMetadata {
    type V = ProviderMetadataView;

    open spec fn deep_view(&self) -> ProviderMetadataView {
        ProviderMetadataView {
            kind: self.kind,
            identity: self.identity@,
            runtime_root: self.runtime_root@,
            runtime_layout_version: self.runtime_layout_version@,
            bootstrap_version: self.bootstrap_version@,
            bootstrap_stamp: self.bootstrap_stamp@,
        }
    }
}

/// What a provider with a given name keeps about itself.
pub open spec fn metadata_of(
    value: Text,
    kind: ProviderKind,
    identity: Text,
    bootstrap_version: Text,
) -> Result<ProviderMetadataView, Messages> {
    match stamp_of(value, "bootstrap"@, bootstrap_version) {
        Err(messages) => Err(messages),
        Ok(bootstrap_stamp) => {
            let runtime_root = linux_root(value)->Ok_0;
            if text::trimmed(identity).len() == 0 {
                Err(seq!["provider_identity must not be empty"@])
            } else if runtime_root.len() == 0 {
                Err(seq!["runtime_root must not be empty"@])
            } else {
                Ok(
                    ProviderMetadataView {
                        kind,
                        identity,
                        runtime_root,
                        runtime_layout_version: "v1"@,
                        bootstrap_version,
                        bootstrap_stamp,
                    },
                )
            }
        },
    }
}

/// `metalor::runtime::linux_provider::ProviderRuntimeLayout::metadata` puts together what it is
/// given with the root that `new` has checked and cleaned, the version of the layout, which is
/// `v1`, and the stamp of the bootstrap. It refuses a name that is blank and a root of which
/// nothing but slashes was given, with one message.
#[verifier::external_body]
fn runtime_metadata(
    root: &str,
    kind: ProviderKind,
    identity: &str,
    bootstrap_version: &str,
) -> (result: Result<ProviderMetadata, Failure>)
    ensures
        outcome(result) == metadata_of(root@, kind, identity@, bootstrap_version@),
{
    let named = match kind {
        ProviderKind::Wsl2 => metalor::runtime::linux_provider::LocalLinuxProviderKind::Wsl2,
        ProviderKind::MacLocal => metalor::runtime::linux_provider::LocalLinuxProviderKind::MacLocal,
    };
    metalor::runtime::linux_provider::ProviderRuntimeLayout::new(root).and_then(
        |layout| layout.metadata(named, identity, bootstrap_version),
    ).map(|known| ProviderMetadata {
        kind, identity: known.identity, runtime_root: known.runtime_root,
        runtime_layout_version: known.runtime_layout_version,
        bootstrap_version: known.bootstrap_version, bootstrap_stamp: known.bootstrap_stamp,
    }).map_err(|error| Failure {
        messages: error.chain().map(|cause| cause.to_string()).collect(),
    })
}

/// Tells what a provider keeps about itself.
pub fn provider_metadata(root: &str, kind: ProviderKind, identity: &str) -> (result: Result<
    ProviderMetadata,
    Failure,
>)
    ensures
        outcome(result) == metadata_of(root@, kind, identity@, "v1"@),
{
    runtime_metadata(root, kind, identity, "v1")
}

/// The first sixteen digits of the digest of a text.
pub open spec fn short_digest(value: Text) -> Text {
    digest::sha256_hex(vstd::utf8::encode_utf8(value)).subrange(0, 16)
}

pub fn runtime_hash_string(path: &str) -> (hash: String)
    ensures
        hash@ == short_digest(path@),
{
    slice(&sha256_digest_hex(path.as_bytes()), 0, 16)
}

/// Where a provider keeps what it needs: where `DEPOS_LINUX_PROVIDER_ROOT` says, which has to be
/// absolute, else a place of its own for each checkout of the sources, whose digest is `hash`.
pub open spec fn runtime_root_of(value: Option<Text>, hash: Text) -> Result<Text, Messages> {
    match value {
        Some(value) => {
            let root = text::trimmed(value);
            if root.len() > 0 && root[0] != '/' {
                Err(seq!["DEPOS_LINUX_PROVIDER_ROOT must be an absolute Linux path: "@ + root])
            } else {
                linux_root(root)
            }
        },
        None => linux_root("/var/tmp/depos-provider/"@ + "v1"@ + "/"@ + hash),
    }
}

/// Names the runtime root, from the digest of the checkout.
pub fn provider_runtime_root_for(value: &Option<String>, hash: &str) -> (result: Result<
    String,
    Failure,
>)
    ensures
        outcome(result) == runtime_root_of(value.deep_view(), hash@),
{
    match value {
        Some(value) => {
            let root = trim(value);
            let chars = chars_of(&root);
            if chars.len() > 0 && chars[0] != '/' {
                return Err(
                    failure(
                        cat2("DEPOS_LINUX_PROVIDER_ROOT must be an absolute Linux path: ", &root),
                    ),
                );
            }
            provider_runtime_root(&root)
        },
        None => provider_runtime_root(
            &cat4("/var/tmp/depos-provider/", runtime_layout_version(), "/", hash),
        ),
    }
}

pub fn configured_provider_runtime_root(
    value: &Option<String>,
    source_repo: &str,
) -> (result: Result<
    String,
    Failure,
>)
    ensures
        outcome(result) == runtime_root_of(value.deep_view(), short_digest(source_repo@)),
{
    provider_runtime_root_for(value, &runtime_hash_string(source_repo))
}

fn join_provider_path(root: &str, name: &str) -> (path: String)
    ensures
        path@ == provider_path(root@, name@),
{
    if same(root, "/") {
        cat2("/", name)
    } else {
        cat3(root, "/", name)
    }
}

/// What a path is called: its last component, unless that is the root, `.` or `..`.
pub open spec fn file_name_of(platform: HostPlatform, path: Text) -> Result<Text, Messages> {
    let parts = paths::components_of(platform, path);
    if parts.len() == 0 || parts.last() == "/"@ || parts.last() == "."@ || parts.last() == ".."@ {
        Err(seq!["path must have a normal file name: "@ + path])
    } else {
        Ok(parts.last())
    }
}

pub fn file_name_string(platform: HostPlatform, path: &str) -> (result: Result<String, Failure>)
    ensures
        outcome(result) == file_name_of(platform, path@),
{
    let parts = components(platform, path);
    assert(parts.deep_view().len() == parts.len());
    if parts.len() > 0 {
        let last: &str = parts[parts.len() - 1].as_str();
        assert(parts.deep_view()[parts.len() - 1] == last@);
        if !same(last, "/") && !same(last, ".") && !same(last, "..") {
            return Ok(last.to_owned());
        }
    }
    Err(failure(cat2("path must have a normal file name: ", path)))
}

/// Where a provider keeps what.
#[derive(Clone, Debug, PartialEq, Eq)]
pub struct ProviderLayout {
    pub root: String,
    pub cache_root: String,
    pub repo_parent: String,
    pub repo_root: String,
    pub target_root: String,
    pub binary_path: String,
}

/// The model of [`ProviderLayout`].
pub struct ProviderLayoutView {
    pub root: Text,
    pub cache_root: Text,
    pub repo_parent: Text,
    pub repo_root: Text,
    pub target_root: Text,
    pub binary_path: Text,
}

impl DeepView for ProviderLayout {
    type V = ProviderLayoutView;

    open spec fn deep_view(&self) -> ProviderLayoutView {
        ProviderLayoutView {
            root: self.root@,
            cache_root: self.cache_root@,
            repo_parent: self.repo_parent@,
            repo_root: self.repo_root@,
            target_root: self.target_root@,
            binary_path: self.binary_path@,
        }
    }
}

/// The places below a runtime root, for a checkout of the sources.
pub open spec fn layout_of(
    platform: HostPlatform,
    root: Text,
    source_repo: Text,
) -> Result<ProviderLayoutView, Messages> {
    match file_name_of(platform, source_repo) {
        Err(messages) => Err(messages),
        Ok(name) => Ok(
            ProviderLayoutView {
                root,
                cache_root: provider_path(root, "toolchain-cache"@),
                repo_parent: provider_path(root, "repo-source"@),
                repo_root: provider_path(root, "repo-source"@) + "/"@ + name,
                target_root: provider_path(root, "cargo-target"@),
                binary_path: provider_path(root, "cargo-target"@) + "/release/depos"@,
            },
        ),
    }
}

pub fn provider_layout(
    platform: HostPlatform,
    root: &str,
    source_repo: &str,
) -> (result: Result<ProviderLayout, Failure>)
    ensures
        outcome(result) == layout_of(platform, root@, source_repo@),
{
    let name = file_name_string(platform, source_repo)?;
    let repo_parent = join_provider_path(root, "repo-source");
    let repo_root = cat3(&repo_parent, "/", &name);
    let target_root = join_provider_path(root, "cargo-target");
    let binary_path = cat2(&target_root, "/release/depos");
    Ok(
        ProviderLayout {
            root: root.to_owned(),
            cache_root: join_provider_path(root, "toolchain-cache"),
            repo_parent,
            repo_root,
            target_root,
            binary_path,
        },
    )
}

/// Where the DepoFile of a package stands inside Linux.
pub open spec fn depofile_parent(depos_root: Text, spec: PackageSpecView) -> Text {
    depos_root + "/depofiles/local/"@ + spec.name + "/"@ + spec.namespace + "/"@ + spec.version
}

pub fn remote_depofile_parent(provider_depos_root: &str, spec: &PackageSpec) -> (path: String)
    ensures
        path@ == depofile_parent(provider_depos_root@, spec.deep_view()),
{
    cat7(
        provider_depos_root,
        "/depofiles/local/",
        &spec.name,
        "/",
        &spec.namespace,
        "/",
        &spec.version,
    )
}

/// Where the versions of a package stand inside Linux.
pub open spec fn store_parent(variant_root: Text, spec: PackageSpecView) -> Text {
    variant_root + "/"@ + spec.name + "/"@ + spec.namespace
}

pub fn remote_store_parent(variant_root: &str, spec: &PackageSpec) -> (path: String)
    ensures
        path@ == store_parent(variant_root@, spec.deep_view()),
{
    cat5(variant_root, "/", &spec.name, "/", &spec.namespace)
}

/// Where the files of a package stand inside Linux.
pub open spec fn store_of(variant_root: Text, spec: PackageSpecView) -> Text {
    variant_root + "/"@ + spec.name + "/"@ + spec.namespace + "/"@ + spec.version
}

pub fn remote_store_root(variant_root: &str, spec: &PackageSpec) -> (path: String)
    ensures
        path@ == store_of(variant_root@, spec.deep_view()),
{
    cat7(variant_root, "/", &spec.name, "/", &spec.namespace, "/", &spec.version)
}

/// A build inside Linux and where its files stand.
#[derive(Clone, Debug, PartialEq, Eq)]
pub struct ProviderJob {
    pub root: String,
    pub depos_root: String,
    pub variant: String,
    pub variant_root: String,
    pub store_root: String,
}

/// The model of [`ProviderJob`].
pub struct ProviderJobView {
    pub root: Text,
    pub depos_root: Text,
    pub variant: Text,
    pub variant_root: Text,
    pub store_root: Text,
}

impl DeepView for ProviderJob {
    type V = ProviderJobView;

    open spec fn deep_view(&self) -> ProviderJobView {
        ProviderJobView {
            root: self.root@,
            depos_root: self.depos_root@,
            variant: self.variant@,
            variant_root: self.variant_root@,
            store_root: self.store_root@,
        }
    }
}

/// The build of a package below `root`.
pub open spec fn job_of(root: Text, spec: PackageSpecView) -> Result<ProviderJobView, Messages> {
    match arch::target_variant(spec.target_arch) {
        Err(messages) => Err(messages),
        Ok(variant) => {
            let variant_root = root + "/depos-root"@ + "/store/"@ + variant;
            Ok(
                ProviderJobView {
                    root,
                    depos_root: root + "/depos-root"@,
                    variant,
                    variant_root,
                    store_root: store_of(variant_root, spec),
                },
            )
        },
    }
}

pub fn provider_job(root: &str, spec: &PackageSpec) -> (result: Result<ProviderJob, Failure>)
    ensures
        outcome(result) == job_of(root@, spec.deep_view()),
{
    let variant = variant_for_target_arch(&spec.target_arch)?;
    let depos_root = cat2(root, "/depos-root");
    let variant_root = cat3(&depos_root, "/store/", &variant);
    let store_root = remote_store_root(&variant_root, spec);
    Ok(ProviderJob { root: root.to_owned(), depos_root, variant, variant_root, store_root })
}

/// A text as one word for the shell of a provider.
pub open spec fn word_of(value: Text) -> Text {
    "'"@ + text::replaced(value, '\'', "'\"'\"'"@) + "'"@
}

pub fn provider_shell_quote(value: &str) -> (word: String)
    ensures
        word@ == word_of(value@),
{
    cat3("'", &replace(value, '\'', "'\"'\"'"), "'")
}

/// What makes the place for the files of a build.
pub open spec fn job_script(job: ProviderJobView) -> Text {
    "mkdir -p "@ + word_of(job.variant_root)
}

pub fn job_prepare_script(job: &ProviderJob) -> (script: String)
    ensures
        script@ == job_script(job.deep_view()),
{
    cat2("mkdir -p ", &provider_shell_quote(&job.variant_root))
}

/// What makes the places that outlive the builds.
pub open spec fn layout_script(layout: ProviderLayoutView) -> Text {
    "mkdir -p "@ + word_of(layout.root) + " "@ + word_of(layout.cache_root) + " "@ + word_of(
        layout.repo_parent,
    )
}

pub fn layout_prepare_script(layout: &ProviderLayout) -> (script: String)
    ensures
        script@ == layout_script(layout.deep_view()),
{
    cat6(
        "mkdir -p ",
        &provider_shell_quote(&layout.root),
        " ",
        &provider_shell_quote(&layout.cache_root),
        " ",
        &provider_shell_quote(&layout.repo_parent),
    )
}

/// What builds a package inside Linux.
pub open spec fn materialize_script(
    layout: ProviderLayoutView,
    job: ProviderJobView,
    spec: PackageSpecView,
    source_root: Text,
) -> Text {
    let binary = word_of(layout.binary_path);
    "DEPOS_INTERNAL_LINUX_PROVIDER=1 DEPOS_PROVIDER_CACHE_ROOT="@ + word_of(layout.cache_root)
        + " exec "@ + binary + " internal-materialize-prepared --depos-root "@ + word_of(
        job.depos_root,
    ) + " --name "@ + word_of(spec.name) + " --namespace "@ + word_of(spec.namespace)
        + " --version "@ + word_of(spec.version) + " --source-root "@ + word_of(source_root)
        + " --store-root "@ + word_of(job.store_root) + " --executable "@ + binary
}

pub fn provider_materialize_script(
    layout: &ProviderLayout,
    job: &ProviderJob,
    spec: &PackageSpec,
    remote_source_root: &str,
) -> (script: String)
    ensures
        script@ == materialize_script(
            layout.deep_view(),
            job.deep_view(),
            spec.deep_view(),
            remote_source_root@,
        ),
{
    let binary = provider_shell_quote(&layout.binary_path);
    let mut script = cat6(
        "DEPOS_INTERNAL_LINUX_PROVIDER=1 DEPOS_PROVIDER_CACHE_ROOT=",
        &provider_shell_quote(&layout.cache_root),
        " exec ",
        &binary,
        " internal-materialize-prepared --depos-root ",
        &provider_shell_quote(&job.depos_root),
    );
    script.append(" --name ");
    script.append(&provider_shell_quote(&spec.name));
    script.append(" --namespace ");
    script.append(&provider_shell_quote(&spec.namespace));
    script.append(" --version ");
    script.append(&provider_shell_quote(&spec.version));
    script.append(" --source-root ");
    script.append(&provider_shell_quote(remote_source_root));
    script.append(" --store-root ");
    script.append(&provider_shell_quote(&job.store_root));
    script.append(" --executable ");
    script.append(&binary);
    script
}

/// What installs the tools of a provider and builds this program inside Linux, each once for the
/// stamp that marks it.
pub open spec fn bootstrap_of(layout: ProviderLayoutView, fingerprint: Text) -> Text {
    let bootstrap_stamp = word_of(layout.root + "/bootstrap-v1.stamp"@);
    let binary_stamp = word_of(layout.root + "/binary-build-"@ + fingerprint + ".stamp"@);
    "\nset -eu\nSUDO=\nif [ \"$(id -u)\" -ne 0 ]; then\n  SUDO=sudo\nfi\n$SUDO mkdir -p /proc/sys/fs/binfmt_misc\nif [ ! -e /proc/sys/fs/binfmt_misc/register ]; then\n  $SUDO mount -t binfmt_misc binfmt_misc /proc/sys/fs/binfmt_misc || true\nfi\n$SUDO mkdir -p "@
        + word_of(layout.root) + "\nif [ ! -f "@ + bootstrap_stamp
        + " ]; then\n  echo \"provider bootstrap: cold\"\n  $SUDO apt-get update\n  $SUDO DEBIAN_FRONTEND=noninteractive apt-get install -y build-essential clang cmake curl git pkg-config tar umoci skopeo qemu-user-static ca-certificates\n  $SUDO touch "@
        + bootstrap_stamp
        + "\nelse\n  echo \"provider bootstrap: warm\"\nfi\nif ! command -v cargo >/dev/null 2>&1; then\n  curl --fail --location --silent --show-error https://sh.rustup.rs | sh -s -- -y --profile minimal\nfi\nexport PATH=\"$HOME/.cargo/bin:$PATH\"\nif [ ! -f "@
        + binary_stamp + " ] || [ ! -x "@ + word_of(layout.binary_path)
        + " ]; then\n  echo \"provider binary build: cold\"\n  cargo build --release --locked --manifest-path "@
        + word_of(layout.repo_root + "/cli/Cargo.toml"@) + " --target-dir "@ + word_of(
        layout.target_root,
    ) + "\n  touch "@ + binary_stamp + "\nelse\n  echo \"provider binary build: warm\"\nfi\n"@
}

pub fn bootstrap_script(layout: &ProviderLayout, source_fingerprint: &str) -> (script: String)
    ensures
        script@ == bootstrap_of(layout.deep_view(), source_fingerprint@),
{
    let bootstrap_stamp = provider_shell_quote(&cat2(&layout.root, "/bootstrap-v1.stamp"));
    let binary_stamp = provider_shell_quote(
        &cat4(&layout.root, "/binary-build-", source_fingerprint, ".stamp"),
    );
    let mut script = cat6(
        "\nset -eu\nSUDO=\nif [ \"$(id -u)\" -ne 0 ]; then\n  SUDO=sudo\nfi\n$SUDO mkdir -p /proc/sys/fs/binfmt_misc\nif [ ! -e /proc/sys/fs/binfmt_misc/register ]; then\n  $SUDO mount -t binfmt_misc binfmt_misc /proc/sys/fs/binfmt_misc || true\nfi\n$SUDO mkdir -p ",
        &provider_shell_quote(&layout.root),
        "\nif [ ! -f ",
        &bootstrap_stamp,
        " ]; then\n  echo \"provider bootstrap: cold\"\n  $SUDO apt-get update\n  $SUDO DEBIAN_FRONTEND=noninteractive apt-get install -y build-essential clang cmake curl git pkg-config tar umoci skopeo qemu-user-static ca-certificates\n  $SUDO touch ",
        &bootstrap_stamp,
    );
    script.append(
        "\nelse\n  echo \"provider bootstrap: warm\"\nfi\nif ! command -v cargo >/dev/null 2>&1; then\n  curl --fail --location --silent --show-error https://sh.rustup.rs | sh -s -- -y --profile minimal\nfi\nexport PATH=\"$HOME/.cargo/bin:$PATH\"\nif [ ! -f ",
    );
    script.append(&binary_stamp);
    script.append(" ] || [ ! -x ");
    script.append(&provider_shell_quote(&layout.binary_path));
    script.append(
        " ]; then\n  echo \"provider binary build: cold\"\n  cargo build --release --locked --manifest-path ",
    );
    script.append(&provider_shell_quote(&cat2(&layout.repo_root, "/cli/Cargo.toml")));
    script.append(" --target-dir ");
    script.append(&provider_shell_quote(&layout.target_root));
    script.append("\n  touch ");
    script.append(&binary_stamp);
    script.append("\nelse\n  echo \"provider binary build: warm\"\nfi\n");
    script
}

/// What a provider needs of the sources of this program.
pub open spec fn bundle_names(has_cargo_dir: bool) -> Seq<Text> {
    if has_cargo_dir {
        seq!["Cargo.toml"@, "Cargo.lock"@, ".cargo"@, "cli/Cargo.toml"@, "cli/src"@]
    } else {
        seq!["Cargo.toml"@, "Cargo.lock"@, "cli/Cargo.toml"@, "cli/src"@]
    }
}

pub fn provider_bundle_entries(has_cargo_dir: bool) -> (names: Vec<String>)
    ensures
        names.deep_view() == bundle_names(has_cargo_dir),
{
    let mut names = words2("Cargo.toml", "Cargo.lock");
    if has_cargo_dir {
        put(&mut names, ".cargo".to_owned());
    }
    put(&mut names, "cli/Cargo.toml".to_owned());
    put(&mut names, "cli/src".to_owned());
    assert(names.deep_view() == bundle_names(has_cargo_dir));
    names
}

/// A directory or a file among the sources of this program.
#[derive(Clone, Debug, PartialEq, Eq)]
pub struct BundleEntry {
    pub relative: String,
    /// What the file holds; none for a directory.
    pub contents: Option<Vec<u8>>,
}

/// The model of [`BundleEntry`].
pub struct BundleEntryView {
    pub relative: Text,
    pub contents: Option<Seq<u8>>,
}

impl DeepView for BundleEntry {
    type V = BundleEntryView;

    open spec fn deep_view(&self) -> BundleEntryView {
        BundleEntryView {
            relative: self.relative@,
            contents: match self.contents {
                Some(contents) => Some(contents@),
                None => None,
            },
        }
    }
}

/// What an entry adds to the fingerprint: its kind, its name, and what it holds.
pub open spec fn entry_bytes(entry: BundleEntryView) -> Seq<u8> {
    match entry.contents {
        None => vstd::utf8::encode_utf8("dir\0"@) + vstd::utf8::encode_utf8(entry.relative) + seq![
            0u8,
        ],
        Some(contents) => vstd::utf8::encode_utf8("file\0"@) + vstd::utf8::encode_utf8(
            entry.relative,
        ) + seq![0u8] + contents,
    }
}

/// What the first `count` entries add to the fingerprint.
pub open spec fn bundle_bytes(entries: Seq<BundleEntryView>, count: int) -> Seq<u8>
    decreases count,
{
    if count <= 0 {
        Seq::empty()
    } else {
        bundle_bytes(entries, count - 1) + entry_bytes(entries[count - 1])
    }
}

fn put_bytes(bytes: &mut Vec<u8>, more: &[u8])
    ensures
        final(bytes)@ == old(bytes)@ + more@,
{
    let mut index: usize = 0;
    let ghost start = bytes@;
    assert(bytes@ == start + more@.take(0));
    while index < more.len()
        invariant
            index <= more.len(),
            bytes@ == start + more@.take(index as int),
        decreases more.len() - index,
    {
        bytes.push(more[index]);
        index = index + 1;
        assert(bytes@ == start + more@.take(index as int));
    }
    assert(more@.take(index as int) == more@);
}

/// The bytes of the entries, one after the other.
pub fn render_bundle(entries: &Vec<BundleEntry>) -> (bytes: Vec<u8>)
    ensures
        bytes@ == bundle_bytes(entries.deep_view(), entries.len() as int),
{
    let mut bytes: Vec<u8> = Vec::new();
    let mut count: usize = 0;
    while count < entries.len()
        invariant
            count <= entries.len(),
            bytes@ == bundle_bytes(entries.deep_view(), count as int),
        decreases entries.len() - count,
    {
        let entry = &entries[count];
        let ghost before = bytes@;
        assert(entries.deep_view()[count as int] == entry.deep_view());
        match &entry.contents {
            None => {
                put_bytes(&mut bytes, "dir\0".as_bytes());
                put_bytes(&mut bytes, entry.relative.as_str().as_bytes());
                bytes.push(0);
            },
            Some(contents) => {
                put_bytes(&mut bytes, "file\0".as_bytes());
                put_bytes(&mut bytes, entry.relative.as_str().as_bytes());
                bytes.push(0);
                put_bytes(&mut bytes, contents.as_slice());
            },
        }
        assert(bytes@ == before + entry_bytes(entry.deep_view()));
        count = count + 1;
    }
    bytes
}

/// Tells one state of the sources from another: sixteen digits of a digest.
pub fn provider_source_bundle_fingerprint(entries: &Vec<BundleEntry>) -> (fingerprint: String)
    ensures
        fingerprint@ == digest::sha256_hex(
            bundle_bytes(entries.deep_view(), entries.len() as int),
        ).subrange(0, 16),
{
    slice(&sha256_digest_hex(render_bundle(entries).as_slice()), 0, 16)
}

/// What is wrong with a checkout of the sources.
pub open spec fn source_repo_check(path: Text, has_manifest: bool) -> Result<(), Messages> {
    if has_manifest {
        Ok(())
    } else {
        Err(
            seq![
                "expected a depos source checkout at "@ + path
                    + ", but cli/Cargo.toml was missing"@,
            ],
        )
    }
}

pub fn validate_source_repo(path: &str, has_manifest: bool) -> (result: Result<(), Failure>)
    ensures
        outcome(result) == source_repo_check(path@, has_manifest),
{
    if has_manifest {
        Ok(())
    } else {
        Err(
            failure(
                cat3(
                    "expected a depos source checkout at ",
                    path,
                    ", but cli/Cargo.toml was missing",
                ),
            ),
        )
    }
}

} // verus!
