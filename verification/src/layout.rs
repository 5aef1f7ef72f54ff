//! Where things are kept below the depos root.

use vstd::prelude::*;
use crate::model::{PackageSpec, PackageSpecView, Text};
use crate::paths;
use crate::paths::{join_path, join_path2, join_path3, HostPlatform};
use crate::text::cat2;

verus! {

/// What is kept about a package besides its files.
#[derive(Clone, Copy, Debug, PartialEq, Eq, Structural)]
pub enum RecordKind {
    Status,
    Log,
    Exports,
    Provenance,
    Materialization,
}

impl RecordKind {
    /// The directory that holds the records of this kind.
    pub open spec fn directory(self) -> Text {
        match self {
            RecordKind::Status => "status"@,
            RecordKind::Log => "logs"@,
            RecordKind::Exports => "exports"@,
            RecordKind::Provenance => "provenance"@,
            RecordKind::Materialization => "materialization"@,
        }
    }

    /// How the names of such records end.
    pub open spec fn extension(self) -> Text {
        match self {
            RecordKind::Status => ".status"@,
            RecordKind::Log => ".log"@,
            RecordKind::Exports => ".exports"@,
            RecordKind::Provenance => ".source"@,
            RecordKind::Materialization => ".state"@,
        }
    }

    fn directory_name(self) -> (name: &'static str)
        ensures
            name@ == self.directory(),
    {
        match self {
            RecordKind::Status => "status",
            RecordKind::Log => "logs",
            RecordKind::Exports => "exports",
            RecordKind::Provenance => "provenance",
            RecordKind::Materialization => "materialization",
        }
    }

    fn extension_name(self) -> (name: &'static str)
        ensures
            name@ == self.extension(),
    {
        match self {
            RecordKind::Status => ".status",
            RecordKind::Log => ".log",
            RecordKind::Exports => ".exports",
            RecordKind::Provenance => ".source",
            RecordKind::Materialization => ".state",
        }
    }
}

/// `base` with a directory for each of a name, a namespace and a version below it.
pub open spec fn below_identity(
    platform: HostPlatform,
    base: Text,
    name: Text,
    namespace: Text,
    version: Text,
) -> Text {
    paths::joined_path(
        platform,
        paths::joined_path(platform, paths::joined_path(platform, base, name), namespace),
        version,
    )
}

/// The directory that holds the records of a kind.
pub open spec fn record_root_of(
    platform: HostPlatform,
    depos_root: Text,
    kind: RecordKind,
) -> Text {
    paths::joined_path(
        platform,
        paths::joined_path(platform, depos_root, ".run"@),
        kind.directory(),
    )
}

/// The record of a kind that is kept for a package.
pub open spec fn record_of(
    platform: HostPlatform,
    depos_root: Text,
    kind: RecordKind,
    name: Text,
    namespace: Text,
    version: Text,
) -> Text {
    below_identity(
        platform,
        record_root_of(platform, depos_root, kind),
        name,
        namespace,
        version + kind.extension(),
    )
}

pub fn record_root(platform: HostPlatform, depos_root: &str, kind: RecordKind) -> (path: String)
    ensures
        path@ == record_root_of(platform, depos_root@, kind),
{
    join_path2(platform, depos_root, ".run", kind.directory_name())
}

fn record_path(
    platform: HostPlatform,
    depos_root: &str,
    kind: RecordKind,
    name: &str,
    namespace: &str,
    version: &str,
) -> (path: String)
    ensures
        path@ == record_of(platform, depos_root@, kind, name@, namespace@, version@),
{
    join_path3(
        platform,
        &record_root(platform, depos_root, kind),
        name,
        namespace,
        &cat2(version, kind.extension_name()),
    )
}

pub fn status_file_path(
    platform: HostPlatform,
    depos_root: &str,
    name: &str,
    namespace: &str,
    version: &str,
) -> (path: String)
    ensures
        path@ == record_of(platform, depos_root@, RecordKind::Status, name@, namespace@, version@),
{
    record_path(platform, depos_root, RecordKind::Status, name, namespace, version)
}

pub fn log_file_path(
    platform: HostPlatform,
    depos_root: &str,
    name: &str,
    namespace: &str,
    version: &str,
) -> (path: String)
    ensures
        path@ == record_of(platform, depos_root@, RecordKind::Log, name@, namespace@, version@),
{
    record_path(platform, depos_root, RecordKind::Log, name, namespace, version)
}

pub fn export_manifest_path(
    platform: HostPlatform,
    depos_root: &str,
    name: &str,
    namespace: &str,
    version: &str,
) -> (path: String)
    ensures
        path@ == record_of(platform, depos_root@, RecordKind::Exports, name@, namespace@, version@),
{
    record_path(platform, depos_root, RecordKind::Exports, name, namespace, version)
}

pub fn provenance_file_path(
    platform: HostPlatform,
    depos_root: &str,
    name: &str,
    namespace: &str,
    version: &str,
) -> (path: String)
    ensures
        path@ == record_of(
            platform,
            depos_root@,
            RecordKind::Provenance,
            name@,
            namespace@,
            version@,
        ),
{
    record_path(platform, depos_root, RecordKind::Provenance, name, namespace, version)
}

pub fn materialization_state_path(
    platform: HostPlatform,
    depos_root: &str,
    name: &str,
    namespace: &str,
    version: &str,
) -> (path: String)
    ensures
        path@ == record_of(
            platform,
            depos_root@,
            RecordKind::Materialization,
            name@,
            namespace@,
            version@,
        ),
{
    record_path(platform, depos_root, RecordKind::Materialization, name, namespace, version)
}

/// The directory of the DepoFiles that are registered by hand.
pub open spec fn local_root_of(platform: HostPlatform, depos_root: Text) -> Text {
    paths::joined_path(platform, paths::joined_path(platform, depos_root, "depofiles"@), "local"@)
}

/// The directory of the DepoFiles that were found in fetched sources.
pub open spec fn embedded_root_of(platform: HostPlatform, depos_root: Text) -> Text {
    paths::joined_path(
        platform,
        paths::joined_path(platform, depos_root, "depofiles"@),
        ".embedded"@,
    )
}

/// The DepoFile of a package below a catalog directory.
pub open spec fn depofile_below(
    platform: HostPlatform,
    root: Text,
    name: Text,
    namespace: Text,
    version: Text,
) -> Text {
    paths::joined_path(
        platform,
        below_identity(platform, root, name, namespace, version),
        "main.DepoFile"@,
    )
}

pub fn local_depofiles_root(platform: HostPlatform, depos_root: &str) -> (path: String)
    ensures
        path@ == local_root_of(platform, depos_root@),
{
    join_path2(platform, depos_root, "depofiles", "local")
}

pub fn embedded_depofiles_root(platform: HostPlatform, depos_root: &str) -> (path: String)
    ensures
        path@ == embedded_root_of(platform, depos_root@),
{
    join_path2(platform, depos_root, "depofiles", ".embedded")
}

fn depofile_path_below(
    platform: HostPlatform,
    root: &str,
    name: &str,
    namespace: &str,
    version: &str,
) -> (path: String)
    ensures
        path@ == depofile_below(platform, root@, name@, namespace@, version@),
{
    join_path(platform, &join_path3(platform, root, name, namespace, version), "main.DepoFile")
}

pub fn registered_depofile_path(
    platform: HostPlatform,
    depos_root: &str,
    name: &str,
    namespace: &str,
    version: &str,
) -> (path: String)
    ensures
        path@ == depofile_below(
            platform,
            local_root_of(platform, depos_root@),
            name@,
            namespace@,
            version@,
        ),
{
    depofile_path_below(
        platform,
        &local_depofiles_root(platform, depos_root),
        name,
        namespace,
        version,
    )
}

pub fn embedded_registered_depofile_path(
    platform: HostPlatform,
    depos_root: &str,
    name: &str,
    namespace: &str,
    version: &str,
) -> (path: String)
    ensures
        path@ == depofile_below(
            platform,
            embedded_root_of(platform, depos_root@),
            name@,
            namespace@,
            version@,
        ),
{
    depofile_path_below(
        platform,
        &embedded_depofiles_root(platform, depos_root),
        name,
        namespace,
        version,
    )
}

/// The store of a variant.
pub open spec fn variant_root_of(platform: HostPlatform, depos_root: Text, variant: Text) -> Text {
    paths::joined_path(platform, paths::joined_path(platform, depos_root, "store"@), variant)
}

pub fn variant_root(platform: HostPlatform, depos_root: &str, variant: &str) -> (path: String)
    ensures
        path@ == variant_root_of(platform, depos_root@, variant@),
{
    join_path2(platform, depos_root, "store", variant)
}

/// Where a package lies within the store of a variant.
pub open spec fn relative_store_root(platform: HostPlatform, spec: PackageSpecView) -> Text {
    paths::joined_path(
        platform,
        paths::joined_path(platform, spec.name, spec.namespace),
        spec.version,
    )
}

pub fn package_relative_store_root(platform: HostPlatform, spec: &PackageSpec) -> (path: String)
    ensures
        path@ == relative_store_root(platform, spec.deep_view()),
{
    join_path2(platform, &spec.name, &spec.namespace, &spec.version)
}

/// Where the files of a package lie.
pub open spec fn store_root_of(
    platform: HostPlatform,
    depos_root: Text,
    variant: Text,
    spec: PackageSpecView,
) -> Text {
    paths::joined_path(
        platform,
        variant_root_of(platform, depos_root, variant),
        relative_store_root(platform, spec),
    )
}

pub fn package_store_root(
    platform: HostPlatform,
    depos_root: &str,
    variant: &str,
    spec: &PackageSpec,
) -> (path: String)
    ensures
        path@ == store_root_of(platform, depos_root@, variant@, spec.deep_view()),
{
    join_path(
        platform,
        &variant_root(platform, depos_root, variant),
        &package_relative_store_root(platform, spec),
    )
}

/// The directory of a registry: one for each variant and profile.
pub open spec fn registry_dir_of(
    platform: HostPlatform,
    depos_root: Text,
    variant: Text,
    profile: Text,
) -> Text {
    paths::joined_path(
        platform,
        paths::joined_path(
            platform,
            paths::joined_path(platform, depos_root, "registry"@),
            variant,
        ),
        profile,
    )
}

pub fn registry_dir(
    platform: HostPlatform,
    depos_root: &str,
    variant: &str,
    profile: &str,
) -> (path: String)
    ensures
        path@ == registry_dir_of(platform, depos_root@, variant@, profile@),
{
    join_path3(platform, depos_root, "registry", variant, profile)
}

/// What the host says of the home directory.
#[derive(Clone, Debug, PartialEq, Eq)]
pub struct HostHome {
    pub home: Option<String>,
    pub user_profile: Option<String>,
    pub home_drive: Option<String>,
    pub home_path: Option<String>,
}

/// `HOMEPATH` on `HOMEDRIVE`, where both are set.
pub open spec fn drive_home(platform: HostPlatform, host: HostHome) -> Option<Text> {
    match (host.home_drive, host.home_path) {
        (Some(drive), Some(path)) => Some(paths::joined_path(platform, drive@, path@)),
        _ => None,
    }
}

/// The home directory: `USERPROFILE` before `HOME` on Windows and behind it elsewhere, and
/// `HOMEPATH` on `HOMEDRIVE` where neither is set.
pub open spec fn home_of(platform: HostPlatform, host: HostHome) -> Option<Text> {
    match (host.home, host.user_profile) {
        (Some(home), Some(profile)) => Some(
            if platform == HostPlatform::Windows {
                profile@
            } else {
                home@
            },
        ),
        (Some(home), None) => Some(home@),
        (None, Some(profile)) => Some(profile@),
        (None, None) => drive_home(platform, host),
    }
}

pub fn host_home_dir(platform: HostPlatform, host: &HostHome) -> (home: Option<String>)
    ensures
        home.deep_view() == home_of(platform, *host),
{
    match (&host.home, &host.user_profile) {
        (Some(home), Some(profile)) => Some(
            if platform == HostPlatform::Windows {
                profile.clone()
            } else {
                home.clone()
            },
        ),
        (Some(home), None) => Some(home.clone()),
        (None, Some(profile)) => Some(profile.clone()),
        (None, None) => match (&host.home_drive, &host.home_path) {
            (Some(drive), Some(path)) => Some(join_path(platform, drive, path)),
            _ => None,
        },
    }
}

/// The default depos root: `.depos` in the home directory, or in the current one where no home
/// is known.
pub fn default_depos_root_path(platform: HostPlatform, host: &HostHome) -> (path: String)
    ensures
        path@ == paths::joined_path(
            platform,
            match home_of(platform, *host) {
                Some(home) => home,
                None => "."@,
            },
            ".depos"@,
        ),
{
    let home = match host_home_dir(platform, host) {
        Some(home) => home,
        None => ".".to_owned(),
    };
    join_path(platform, &home, ".depos")
}

} // verus!
