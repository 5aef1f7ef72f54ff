//! Registering packages, taking them out again, and the status that they are in.

use vstd::prelude::*;
use crate::arch;
use crate::arch::variant_for_target_arch;
use crate::catalog;
use crate::catalog::{missing_dependencies, parse_registered_depofile};
use crate::depofile;
use crate::depofile::parse_depofile;
use crate::failure::{failure, outcome, Failure, Messages};
use crate::layout;
use crate::layout::{
    embedded_registered_depofile_path, export_manifest_path, local_depofiles_root, log_file_path,
    materialization_state_path, package_store_root, provenance_file_path, record_root,
    registered_depofile_path, status_file_path, RecordKind,
};
use crate::model::{PackageSpec, PackageSpecView, PackageState, Text, DEFAULT_NAMESPACE};
use crate::names;
use crate::names::ensure_namespace_name;
use crate::paths;
use crate::paths::{join_path, join_path3, paths_equal, HostPlatform};
use crate::records;
use crate::records::{
    parse_source_provenance, parse_status, ExportManifest, ExportManifestView, PackageStatus,
    PackageStatusView, SourceProvenance, SourceProvenanceView,
};
use crate::text;
use crate::text::{cat2, cat7, join, order_texts, put, Dup, Order};

verus! {

/// What to register: a DepoFile, and the namespace to register it in.
#[derive(Clone, Debug, PartialEq, Eq)]
pub struct RegisterOptions {
    pub depos_root: String,
    pub file: String,
    pub namespace: String,
}

/// What to take out of the registry.
#[derive(Clone, Debug, PartialEq, Eq)]
pub struct UnregisterOptions {
    pub depos_root: String,
    pub name: String,
    pub namespace: String,
    pub version: String,
}

/// Whose status to report: that of one package or of all.
#[derive(Clone, Debug, PartialEq, Eq)]
pub struct StatusOptions {
    pub depos_root: String,
    pub name: Option<String>,
    pub namespace: Option<String>,
    pub version: Option<String>,
    pub refresh: bool,
}

/// A DepoFile to be registered, with the place that it is copied to.
#[derive(Clone, Debug, PartialEq, Eq)]
pub struct Registration {
    pub spec: PackageSpec,
    pub registered_path: String,
}

/// The model of [`Registration`].
pub struct RegistrationView {
    pub spec: PackageSpecView,
    pub registered_path: Text,
}

impl DeepView for Registration {
    type V = RegistrationView;

    open spec fn deep_view(&self) -> RegistrationView {
        RegistrationView {
            spec: self.spec.deep_view(),
            registered_path: self.registered_path@,
        }
    }
}

/// Where a DepoFile is registered, or why it cannot be.
pub open spec fn registration(
    platform: HostPlatform,
    depos_root: Text,
    file: Text,
    namespace: Text,
    source: Text,
    host: Text,
) -> Result<RegistrationView, Messages> {
    match names::namespace_check(namespace) {
        Err(messages) => Err(messages),
        Ok(_) => match depofile::depofile_spec(platform, file, source, host) {
            Err(messages) => Err(messages),
            Ok(spec) => Ok(
                RegistrationView {
                    spec,
                    registered_path: layout::depofile_below(
                        platform,
                        layout::local_root_of(platform, depos_root),
                        spec.name,
                        namespace,
                        spec.version,
                    ),
                },
            ),
        },
    }
}

/// Decides where the DepoFile that `options` name is registered; `source` is what it holds.
pub fn register_depofile(
    platform: HostPlatform,
    options: &RegisterOptions,
    source: &str,
    host: &str,
) -> (result: Result<Registration, Failure>)
    requires
        arch::supported_arch(host@),
    ensures
        outcome(result) == registration(
            platform,
            options.depos_root@,
            options.file@,
            options.namespace@,
            source@,
            host@,
        ),
{
    ensure_namespace_name(&options.namespace)?;
    let spec = parse_depofile(platform, &options.file, source, host)?;
    let registered_path = registered_depofile_path(
        platform,
        &options.depos_root,
        &spec.name,
        &options.namespace,
        &spec.version,
    );
    Ok(Registration { spec, registered_path })
}

/// What is removed.
#[derive(Clone, Copy, Debug, PartialEq, Eq, Structural)]
pub enum CleanupKind {
    File,
    /// A directory with all that it holds.
    Directory,
    /// A file, a link, or a directory with all that it holds, whichever is found.
    AsFound,
}

/// Something to remove, with the directories above it that are removed where they are empty.
#[derive(Clone, Debug, PartialEq, Eq)]
pub struct Cleanup {
    /// What to remove, where it is there.
    pub path: String,
    pub kind: CleanupKind,
    /// The directory at which removing empty directories stops.
    pub stop_at: String,
    /// Whether empty directories are removed even where `path` is not there.
    pub prune_always: bool,
}

/// The model of [`Cleanup`].
pub struct CleanupView {
    pub path: Text,
    pub kind: CleanupKind,
    pub stop_at: Text,
    pub prune_always: bool,
}

impl DeepView for Cleanup {
    type V = CleanupView;

    open spec fn deep_view(&self) -> CleanupView {
        CleanupView {
            path: self.path@,
            kind: self.kind,
            stop_at: self.stop_at@,
            prune_always: self.prune_always,
        }
    }
}

/// The removal of a record.
pub open spec fn record_cleanup(
    platform: HostPlatform,
    depos_root: Text,
    kind: RecordKind,
    name: Text,
    namespace: Text,
    version: Text,
    prune_always: bool,
) -> CleanupView {
    CleanupView {
        path: layout::record_of(platform, depos_root, kind, name, namespace, version),
        kind: CleanupKind::File,
        stop_at: layout::record_root_of(platform, depos_root, kind),
        prune_always,
    }
}

/// The removal of an exported file or directory.
pub open spec fn export_cleanup(
    platform: HostPlatform,
    store_root: Text,
    path: Text,
) -> CleanupView {
    CleanupView {
        path: paths::joined_path(platform, store_root, path),
        kind: CleanupKind::AsFound,
        stop_at: store_root,
        prune_always: false,
    }
}

/// The removal of all that a package exports.
pub open spec fn export_cleanups(
    platform: HostPlatform,
    manifest: Option<ExportManifestView>,
) -> Seq<CleanupView> {
    match manifest {
        None => Seq::empty(),
        Some(manifest) => manifest.paths.map_values(
            |path: Text| export_cleanup(platform, manifest.store_root, path),
        ),
    }
}

/// The removal of the records of a package and of its DepoFile, in order.
pub open spec fn registration_cleanups(
    platform: HostPlatform,
    depos_root: Text,
    name: Text,
    namespace: Text,
    version: Text,
) -> Seq<CleanupView> {
    seq![
        record_cleanup(platform, depos_root, RecordKind::Exports, name, namespace, version, false),
        CleanupView {
            path: layout::below_identity(
                platform,
                layout::local_root_of(platform, depos_root),
                name,
                namespace,
                version,
            ),
            kind: CleanupKind::Directory,
            stop_at: layout::local_root_of(platform, depos_root),
            prune_always: true,
        },
        record_cleanup(platform, depos_root, RecordKind::Status, name, namespace, version, true),
        record_cleanup(platform, depos_root, RecordKind::Log, name, namespace, version, false),
        record_cleanup(
            platform,
            depos_root,
            RecordKind::Provenance,
            name,
            namespace,
            version,
            false,
        ),
        record_cleanup(
            platform,
            depos_root,
            RecordKind::Materialization,
            name,
            namespace,
            version,
            false,
        ),
    ]
}

/// Everything that is removed when a package is taken out of the registry, in order: what its
/// export record lists, that record, its DepoFile, and its other records.
pub open spec fn cleanups(
    platform: HostPlatform,
    depos_root: Text,
    name: Text,
    namespace: Text,
    version: Text,
    manifest: Option<ExportManifestView>,
) -> Seq<CleanupView> {
    export_cleanups(platform, manifest) + registration_cleanups(
        platform,
        depos_root,
        name,
        namespace,
        version,
    )
}

fn list_export_cleanups(
    platform: HostPlatform,
    manifest: &Option<ExportManifest>,
) -> (steps: Vec<Cleanup>)
    ensures
        steps.deep_view() == export_cleanups(platform, manifest.deep_view()),
{
    let mut steps: Vec<Cleanup> = Vec::new();
    assert(steps.deep_view() == Seq::<CleanupView>::empty());
    if let Some(manifest) = manifest {
        let ghost all = export_cleanups(platform, Some(manifest.deep_view()));
        let mut index: usize = 0;
        assert(steps.deep_view() == all.take(0));
        while index < manifest.paths.len()
            invariant
                index <= manifest.paths.len(),
                all == export_cleanups(platform, Some(manifest.deep_view())),
                steps.deep_view() == all.take(index as int),
            decreases manifest.paths.len() - index,
        {
            assert(manifest.paths.deep_view()[index as int] == manifest.paths[index as int]@);
            put(
                &mut steps,
                Cleanup {
                    path: join_path(platform, &manifest.store_root, &manifest.paths[index]),
                    kind: CleanupKind::AsFound,
                    stop_at: manifest.store_root.dup(),
                    prune_always: false,
                },
            );
            index = index + 1;
            assert(steps.deep_view() == all.take(index as int));
        }
        assert(all.take(index as int) == all);
    }
    steps
}

/// Lists what is removed when a package is taken out of the registry.
pub fn unregister_depofile(
    platform: HostPlatform,
    options: &UnregisterOptions,
    manifest: &Option<ExportManifest>,
) -> (steps: Vec<Cleanup>)
    ensures
        steps.deep_view() == cleanups(
            platform,
            options.depos_root@,
            options.name@,
            options.namespace@,
            options.version@,
            manifest.deep_view(),
        ),
{
    let root: &str = options.depos_root.as_str();
    let name: &str = options.name.as_str();
    let namespace: &str = options.namespace.as_str();
    let version: &str = options.version.as_str();
    let mut own = vec![
        Cleanup {
            path: export_manifest_path(platform, root, name, namespace, version),
            kind: CleanupKind::File,
            stop_at: record_root(platform, root, RecordKind::Exports),
            prune_always: false,
        },
        Cleanup {
            path: join_path3(
                platform,
                &local_depofiles_root(platform, root),
                name,
                namespace,
                version,
            ),
            kind: CleanupKind::Directory,
            stop_at: local_depofiles_root(platform, root),
            prune_always: true,
        },
        Cleanup {
            path: status_file_path(platform, root, name, namespace, version),
            kind: CleanupKind::File,
            stop_at: record_root(platform, root, RecordKind::Status),
            prune_always: true,
        },
        Cleanup {
            path: log_file_path(platform, root, name, namespace, version),
            kind: CleanupKind::File,
            stop_at: record_root(platform, root, RecordKind::Log),
            prune_always: false,
        },
        Cleanup {
            path: provenance_file_path(platform, root, name, namespace, version),
            kind: CleanupKind::File,
            stop_at: record_root(platform, root, RecordKind::Provenance),
            prune_always: false,
        },
        Cleanup {
            path: materialization_state_path(platform, root, name, namespace, version),
            kind: CleanupKind::File,
            stop_at: record_root(platform, root, RecordKind::Materialization),
            prune_always: false,
        },
    ];
    assert(own.deep_view() == registration_cleanups(platform, root@, name@, namespace@, version@));
    let mut steps = list_export_cleanups(platform, manifest);
    let ghost all = cleanups(platform, root@, name@, namespace@, version@, manifest.deep_view());
    steps.append(&mut own);
    assert(steps.deep_view() == all);
    steps
}

/// What to do at a directory while empty directories are removed upwards.
#[derive(Clone, Copy, Debug, PartialEq, Eq, Structural)]
pub enum PruneStep {
    Stop,
    Ascend,
    RemoveAndAscend,
}

/// What to do at `current`: directories are removed as long as they are empty, up to but not
/// including `stop_at`; one that is not there is passed over.
pub open spec fn prune_decision(
    platform: HostPlatform,
    current: Text,
    stop_at: Text,
    exists: bool,
    empty: bool,
) -> PruneStep {
    if paths::same_path(platform, current, stop_at) {
        PruneStep::Stop
    } else if !exists {
        PruneStep::Ascend
    } else if !empty {
        PruneStep::Stop
    } else {
        PruneStep::RemoveAndAscend
    }
}

pub fn prune_empty_ancestors(
    platform: HostPlatform,
    current: &str,
    stop_at: &str,
    exists: bool,
    empty: bool,
) -> (step: PruneStep)
    ensures
        step == prune_decision(platform, current@, stop_at@, exists, empty),
{
    if paths_equal(platform, current, stop_at) {
        PruneStep::Stop
    } else if !exists {
        PruneStep::Ascend
    } else if !empty {
        PruneStep::Stop
    } else {
        PruneStep::RemoveAndAscend
    }
}

/// The DepoFile of a registered package: the one registered by hand, else the one found in the
/// sources of another package.
pub open spec fn depofile_place(
    platform: HostPlatform,
    depos_root: Text,
    name: Text,
    namespace: Text,
    version: Text,
    local_exists: bool,
    embedded_exists: bool,
) -> Result<Text, Messages> {
    let local = layout::depofile_below(
        platform,
        layout::local_root_of(platform, depos_root),
        name,
        namespace,
        version,
    );
    let embedded = layout::depofile_below(
        platform,
        layout::embedded_root_of(platform, depos_root),
        name,
        namespace,
        version,
    );
    if local_exists {
        Ok(local)
    } else if embedded_exists {
        Ok(embedded)
    } else {
        Err(
            seq![
                "registered DepoFile is missing for '"@ + name + "["@ + namespace + "]@"@ + version
                    + "': checked "@ + local + " and "@ + embedded,
            ],
        )
    }
}

pub fn resolve_registered_depofile_path(
    platform: HostPlatform,
    depos_root: &str,
    name: &str,
    namespace: &str,
    version: &str,
    local_exists: bool,
    embedded_exists: bool,
) -> (result: Result<String, Failure>)
    ensures
        outcome(result) == depofile_place(
            platform,
            depos_root@,
            name@,
            namespace@,
            version@,
            local_exists,
            embedded_exists,
        ),
{
    let local = registered_depofile_path(platform, depos_root, name, namespace, version);
    if local_exists {
        return Ok(local);
    }
    let embedded = embedded_registered_depofile_path(
        platform,
        depos_root,
        name,
        namespace,
        version,
    );
    if embedded_exists {
        return Ok(embedded);
    }
    let mut message = cat7(
        "registered DepoFile is missing for '",
        name,
        "[",
        namespace,
        "]@",
        version,
        "': checked ",
    );
    message.append(&local);
    message.append(" and ");
    message.append(&embedded);
    Err(failure(message))
}

/// The status of a package: quarantined where a dependency cannot be met, green where all that
/// it exports is in the store, and else registered only.
pub open spec fn assessed(
    platform: HostPlatform,
    depos_root: Text,
    depofile: Text,
    spec: PackageSpecView,
    catalog: Seq<PackageSpecView>,
    exports_present: bool,
    provenance: SourceProvenanceView,
) -> Result<PackageStatusView, Messages> {
    let missing = catalog::missing_reasons(catalog, spec.depends, spec.depends.len() as int);
    match arch::target_variant(spec.target_arch) {
        Err(messages) => Err(messages),
        Ok(variant) => {
            let store_root = layout::store_root_of(platform, depos_root, variant, spec);
            let (state, message) = if missing.len() > 0 {
                (
                    PackageState::Quarantined,
                    "missing Depo dependencies: "@ + text::joined(missing, ", "@),
                )
            } else if exports_present {
                (
                    PackageState::Green,
                    "all declared exports are present under "@ + store_root,
                )
            } else {
                (
                    PackageState::NeverRun,
                    "registered, but declared exports are not present under "@ + store_root,
                )
            };
            Ok(
                PackageStatusView {
                    name: spec.name,
                    namespace: spec.namespace,
                    version: spec.version,
                    lazy: spec.lazy,
                    system_libs: spec.system_libs,
                    state,
                    depofile,
                    message,
                    source_ref: provenance.source_ref,
                    source_commit: provenance.source_commit,
                },
            )
        },
    }
}

pub fn refresh_status(
    platform: HostPlatform,
    depos_root: &str,
    depofile: &str,
    spec: &PackageSpec,
    catalog: &Vec<PackageSpec>,
    exports_present: bool,
    provenance: &SourceProvenance,
) -> (result: Result<PackageStatus, Failure>)
    ensures
        outcome(result) == assessed(
            platform,
            depos_root@,
            depofile@,
            spec.deep_view(),
            catalog.deep_view(),
            exports_present,
            provenance.deep_view(),
        ),
{
    let missing = missing_dependencies(catalog, &spec.depends);
    let variant = variant_for_target_arch(&spec.target_arch)?;
    let store_root = package_store_root(platform, depos_root, &variant, spec);
    assert(missing.deep_view().len() == missing.len());
    let (state, message) = if missing.len() > 0 {
        (
            PackageState::Quarantined,
            cat2("missing Depo dependencies: ", &join(&missing, ", ")),
        )
    } else if exports_present {
        (PackageState::Green, cat2("all declared exports are present under ", &store_root))
    } else {
        (
            PackageState::NeverRun,
            cat2("registered, but declared exports are not present under ", &store_root),
        )
    };
    Ok(
        PackageStatus {
            name: spec.name.clone(),
            namespace: spec.namespace.clone(),
            version: spec.version.clone(),
            lazy: spec.lazy,
            system_libs: spec.system_libs,
            state,
            depofile: depofile.to_owned(),
            message,
            source_ref: provenance.source_ref.dup(),
            source_commit: provenance.source_commit.dup(),
        },
    )
}

/// A package that has a name, a namespace and a version.
#[derive(Clone, Debug, PartialEq, Eq)]
pub struct PackageIdentity {
    pub name: String,
    pub namespace: String,
    pub version: String,
}

/// The model of [`PackageIdentity`].
pub struct PackageIdentityView {
    pub name: Text,
    pub namespace: Text,
    pub version: Text,
}

impl DeepView for PackageIdentity {
    type V = PackageIdentityView;

    open spec fn deep_view(&self) -> PackageIdentityView {
        PackageIdentityView {
            name: self.name@,
            namespace: self.namespace@,
            version: self.version@,
        }
    }
}

impl Dup for PackageIdentity {
    fn dup(&self) -> (copy: Self) {
        PackageIdentity {
            name: self.name.clone(),
            namespace: self.namespace.clone(),
            version: self.version.clone(),
        }
    }
}

/// The packages whose status is asked for: one that is named with its version, or all that are
/// registered.
pub open spec fn queried(
    name: Option<Text>,
    namespace: Option<Text>,
    version: Option<Text>,
    registered: Seq<PackageIdentityView>,
) -> Result<Seq<PackageIdentityView>, Messages> {
    match (name, namespace, version) {
        (Some(name), namespace, Some(version)) => Ok(
            seq![
                PackageIdentityView {
                    name,
                    namespace: match namespace {
                        Some(namespace) => namespace,
                        None => DEFAULT_NAMESPACE@,
                    },
                    version,
                },
            ],
        ),
        (None, None, None) => Ok(registered),
        _ => Err(
            seq![
                "status requires --name with --version and optional --namespace, or none of them"@,
            ],
        ),
    }
}

pub fn status_queries(
    options: &StatusOptions,
    registered: &Vec<PackageIdentity>,
) -> (result: Result<
    Vec<PackageIdentity>,
    Failure,
>)
    ensures
        outcome(result) == queried(
            options.name.deep_view(),
            options.namespace.deep_view(),
            options.version.deep_view(),
            registered.deep_view(),
        ),
{
    match (&options.name, &options.namespace, &options.version) {
        (Some(name), namespace, Some(version)) => {
            let namespace = match namespace {
                Some(namespace) => namespace.clone(),
                None => DEFAULT_NAMESPACE.to_owned(),
            };
            let queries = vec![
                PackageIdentity { name: name.clone(), namespace, version: version.clone() },
            ];
            assert(queries.deep_view() == seq![queries[0].deep_view()]);
            Ok(queries)
        },
        (None, None, None) => Ok(registered.dup()),
        _ => Err(
            failure(
                "status requires --name with --version and optional --namespace, or none of them".to_owned(),
            ),
        ),
    }
}

/// Where the status of a package is taken from.
#[derive(Clone, Copy, Debug, PartialEq, Eq, Structural)]
pub enum StatusSource {
    /// The status record is read.
    Record,
    /// The package is looked at anew.
    Observation,
}

/// The record is read where it is there, unless the status is to be refreshed.
pub open spec fn source_of_status(refresh: bool, recorded: bool) -> StatusSource {
    if recorded && !refresh {
        StatusSource::Record
    } else {
        StatusSource::Observation
    }
}

/// Decides where the status of a package is taken from.
pub fn status_source(options: &StatusOptions, recorded: bool) -> (source: StatusSource)
    ensures
        source == source_of_status(options.refresh, recorded),
{
    if recorded && !options.refresh {
        StatusSource::Record
    } else {
        StatusSource::Observation
    }
}

/// What the status of a package is told from.
#[derive(Clone, Debug, PartialEq, Eq)]
pub enum StatusEvidence {
    /// The status record.
    Recorded { contents: String },
    /// The DepoFile, whether all that the package exports is in the store, and the provenance
    /// record, empty where there is none.
    Observed {
        identity: PackageIdentity,
        depofile: String,
        source: String,
        exports_present: bool,
        provenance_path: String,
        provenance: String,
    },
}

/// The model of [`StatusEvidence`].
pub enum StatusEvidenceView {
    Recorded { contents: Text },
    Observed {
        identity: PackageIdentityView,
        depofile: Text,
        source: Text,
        exports_present: bool,
        provenance_path: Text,
        provenance: Text,
    },
}

impl DeepView for StatusEvidence {
    type V = StatusEvidenceView;

    open spec fn deep_view(&self) -> StatusEvidenceView {
        match self {
            StatusEvidence::Recorded { contents } => StatusEvidenceView::Recorded {
                contents: contents@,
            },
            StatusEvidence::Observed {
                identity,
                depofile,
                source,
                exports_present,
                provenance_path,
                provenance,
            } => StatusEvidenceView::Observed {
                identity: identity.deep_view(),
                depofile: depofile@,
                source: source@,
                exports_present: *exports_present,
                provenance_path: provenance_path@,
                provenance: provenance@,
            },
        }
    }
}

/// The status that evidence shows.
pub open spec fn shown_status(
    platform: HostPlatform,
    depos_root: Text,
    host: Text,
    catalog: Seq<PackageSpecView>,
    evidence: StatusEvidenceView,
) -> Result<PackageStatusView, Messages> {
    match evidence {
        StatusEvidenceView::Recorded { contents } => records::status_read(contents),
        StatusEvidenceView::Observed {
            identity,
            depofile,
            source,
            exports_present,
            provenance_path,
            provenance,
        } => match catalog::registered_spec(
            platform,
            depofile,
            source,
            host,
            identity.name,
            identity.namespace,
            identity.version,
        ) {
            Err(messages) => Err(messages),
            Ok(spec) => match records::provenance_read(provenance_path, provenance) {
                Err(messages) => Err(messages),
                Ok(known) => assessed(
                    platform,
                    depos_root,
                    depofile,
                    spec,
                    catalog,
                    exports_present,
                    known,
                ),
            },
        },
    }
}

pub fn read_or_refresh_status(
    platform: HostPlatform,
    depos_root: &str,
    host: &str,
    catalog: &Vec<PackageSpec>,
    evidence: &StatusEvidence,
) -> (result: Result<PackageStatus, Failure>)
    requires
        arch::supported_arch(host@),
    ensures
        outcome(result) == shown_status(
            platform,
            depos_root@,
            host@,
            catalog.deep_view(),
            evidence.deep_view(),
        ),
{
    match evidence {
        StatusEvidence::Recorded { contents } => parse_status(contents),
        StatusEvidence::Observed {
            identity,
            depofile,
            source,
            exports_present,
            provenance_path,
            provenance,
        } => {
            let spec = parse_registered_depofile(
                platform,
                depofile,
                source,
                host,
                &identity.name,
                &identity.namespace,
                &identity.version,
            )?;
            let known = parse_source_provenance(provenance_path, provenance)?;
            refresh_status(platform, depos_root, depofile, &spec, catalog, *exports_present, &known)
        },
    }
}

/// How two statuses stand to each other: by name, then namespace, then version.
pub open spec fn status_order(a: PackageStatusView, b: PackageStatusView) -> Order {
    match text::text_order(a.name, b.name) {
        Order::Equal => match text::text_order(a.namespace, b.namespace) {
            Order::Equal => text::text_order(a.version, b.version),
            order => order,
        },
        order => order,
    }
}

fn order_statuses(a: &PackageStatus, b: &PackageStatus) -> (order: Order)
    ensures
        order == status_order(a.deep_view(), b.deep_view()),
{
    match order_texts(&a.name, &b.name) {
        Order::Equal => match order_texts(&a.namespace, &b.namespace) {
            Order::Equal => order_texts(&a.version, &b.version),
            order => order,
        },
        order => order,
    }
}

/// The position behind the last of the first `count` statuses that is not greater.
pub open spec fn status_slot(
    sorted: Seq<PackageStatusView>,
    status: PackageStatusView,
    count: int,
) -> int
    decreases count,
{
    if count <= 0 {
        0
    } else if status_order(sorted[count - 1], status) == Order::Greater {
        status_slot(sorted, status, count - 1)
    } else {
        count
    }
}

/// The statuses that the evidence from position `from` on shows, each put in its place among
/// `sorted`; equal ones keep their order.
pub open spec fn statuses_from(
    platform: HostPlatform,
    depos_root: Text,
    host: Text,
    catalog: Seq<PackageSpecView>,
    evidence: Seq<StatusEvidenceView>,
    from: int,
    sorted: Seq<PackageStatusView>,
) -> Result<Seq<PackageStatusView>, Messages>
    decreases evidence.len() - from,
{
    if from >= evidence.len() {
        Ok(sorted)
    } else {
        match shown_status(platform, depos_root, host, catalog, evidence[from]) {
            Err(messages) => Err(messages),
            Ok(status) => statuses_from(
                platform,
                depos_root,
                host,
                catalog,
                evidence,
                from + 1,
                sorted.insert(status_slot(sorted, status, sorted.len() as int), status),
            ),
        }
    }
}

/// The statuses that the evidence shows, in order of name, namespace and version. `evidence`
/// is what was found of each package that `options` ask for.
pub fn collect_statuses(
    platform: HostPlatform,
    options: &StatusOptions,
    host: &str,
    catalog: &Vec<PackageSpec>,
    evidence: &Vec<StatusEvidence>,
) -> (result: Result<Vec<PackageStatus>, Failure>)
    requires
        arch::supported_arch(host@),
    ensures
        outcome(result) == match queried(
            options.name.deep_view(),
            options.namespace.deep_view(),
            options.version.deep_view(),
            Seq::empty(),
        ) {
            Err(messages) => Err(messages),
            Ok(_) => statuses_from(
                platform,
                options.depos_root@,
                host@,
                catalog.deep_view(),
                evidence.deep_view(),
                0,
                Seq::empty(),
            ),
        },
{
    let none: Vec<PackageIdentity> = Vec::new();
    assert(none.deep_view() == Seq::<PackageIdentityView>::empty());
    let known = status_queries(options, &none);
    match known {
        Ok(_) => {},
        Err(inner) => {
            return Err(inner);
        },
    }
    let mut sorted: Vec<PackageStatus> = Vec::new();
    let mut index: usize = 0;
    assert(sorted.deep_view() == Seq::<PackageStatusView>::empty());
    while index < evidence.len()
        invariant
            index <= evidence.len(),
            arch::supported_arch(host@),
            queried(
                options.name.deep_view(),
                options.namespace.deep_view(),
                options.version.deep_view(),
                Seq::empty(),
            ) is Ok,
            statuses_from(
                platform,
                options.depos_root@,
                host@,
                catalog.deep_view(),
                evidence.deep_view(),
                0,
                Seq::empty(),
            ) == statuses_from(
                platform,
                options.depos_root@,
                host@,
                catalog.deep_view(),
                evidence.deep_view(),
                index as int,
                sorted.deep_view(),
            ),
        decreases evidence.len() - index,
    {
        assert(evidence.deep_view()[index as int] == evidence[index as int].deep_view());
        let status = read_or_refresh_status(
            platform,
            &options.depos_root,
            host,
            catalog,
            &evidence[index],
        )?;
        let ghost before = sorted.deep_view();
        let mut slot: usize = sorted.len();
        assert(before.len() == sorted.len());
        while slot > 0 && order_statuses(&sorted[slot - 1], &status) == Order::Greater
            invariant
                slot <= sorted.len(),
                before == sorted.deep_view(),
                status_slot(before, status.deep_view(), before.len() as int) == status_slot(
                    before,
                    status.deep_view(),
                    slot as int,
                ),
            decreases slot,
        {
            assert(before[slot - 1] == sorted[slot - 1].deep_view());
            slot = slot - 1;
        }
        proof {
            if slot > 0 {
                assert(before[slot - 1] == sorted[slot - 1].deep_view());
            }
        }
        sorted.insert(slot, status);
        assert(sorted.deep_view() == before.insert(slot as int, status.deep_view()));
        index = index + 1;
    }
    Ok(sorted)
}

} // verus!
