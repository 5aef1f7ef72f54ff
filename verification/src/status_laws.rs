//! What holds of the statuses that are listed and of what is registered.

use vstd::prelude::*;
use crate::failure::Messages;
use crate::layout;
use crate::layout::RecordKind;
use crate::model::{PackageSpecView, Text};
use crate::paths;
use crate::paths::HostPlatform;
use crate::records;
use crate::records::{ExportManifestView, PackageStatusView};
use crate::status;
use crate::status::{
    CleanupKind, CleanupView, PackageIdentityView, StatusEvidenceView, StatusSource,
};
use crate::text;
use crate::text::Order;

verus! {

proof fn lemma_statuses_chain(a: PackageStatusView, b: PackageStatusView, c: PackageStatusView)
    requires
        status::status_order(a, b) != Order::Greater,
        status::status_order(b, c) != Order::Greater,
    ensures
        status::status_order(a, c) != Order::Greater,
{
    text::lemma_orders_chain(a.name, b.name, c.name, 0);
    if text::text_order(a.name, b.name) == Order::Equal && text::text_order(b.name, c.name)
        == Order::Equal {
        text::lemma_orders_chain(a.namespace, b.namespace, c.namespace, 0);
        if text::text_order(a.namespace, b.namespace) == Order::Equal && text::text_order(
            b.namespace,
            c.namespace,
        ) == Order::Equal {
            text::lemma_orders_chain(a.version, b.version, c.version, 0);
        }
    }
}

proof fn lemma_status_order_reversed(a: PackageStatusView, b: PackageStatusView)
    ensures
        status::status_order(a, b) == Order::Greater ==> status::status_order(b, a)
            == Order::Less,
{
    text::lemma_order_reversed(a.name, b.name, 0);
    text::lemma_order_reversed(a.namespace, b.namespace, 0);
    text::lemma_order_reversed(a.version, b.version, 0);
}

/// Whether statuses stand in order of name, namespace and version.
pub open spec fn in_order(statuses: Seq<PackageStatusView>) -> bool {
    forall|i: int, j: int|
        0 <= i < j < statuses.len() ==> status::status_order(
            #[trigger] statuses[i],
            #[trigger] statuses[j],
        ) != Order::Greater
}

proof fn lemma_slot_parts(
    sorted: Seq<PackageStatusView>,
    status: PackageStatusView,
    count: int,
)
    requires
        in_order(sorted),
        0 <= count <= sorted.len(),
    ensures
        0 <= status::status_slot(sorted, status, count) <= count,
        forall|i: int|
            0 <= i < status::status_slot(sorted, status, count) ==> status::status_order(
                #[trigger] sorted[i],
                status,
            ) != Order::Greater,
        forall|i: int|
            status::status_slot(sorted, status, count) <= i < count ==> status::status_order(
                #[trigger] sorted[i],
                status,
            ) == Order::Greater,
    decreases count,
{
    if count > 0 {
        if status::status_order(sorted[count - 1], status) == Order::Greater {
            lemma_slot_parts(sorted, status, count - 1);
        } else {
            assert forall|i: int| 0 <= i < count implies status::status_order(
                #[trigger] sorted[i],
                status,
            ) != Order::Greater by {
                if i < count - 1 {
                    lemma_statuses_chain(sorted[i], sorted[count - 1], status);
                }
            }
        }
    }
}

proof fn lemma_inserting_keeps_order(sorted: Seq<PackageStatusView>, status: PackageStatusView)
    requires
        in_order(sorted),
    ensures
        in_order(
            sorted.insert(status::status_slot(sorted, status, sorted.len() as int), status),
        ),
{
    let slot = status::status_slot(sorted, status, sorted.len() as int);
    lemma_slot_parts(sorted, status, sorted.len() as int);
    let grown = sorted.insert(slot, status);
    assert forall|i: int, j: int| 0 <= i < j < grown.len() implies status::status_order(
        #[trigger] grown[i],
        #[trigger] grown[j],
    ) != Order::Greater by {
        if j < slot {
            assert(grown[i] == sorted[i] && grown[j] == sorted[j]);
        } else if j == slot {
            assert(grown[i] == sorted[i] && grown[j] == status);
        } else if i < slot {
            assert(grown[i] == sorted[i] && grown[j] == sorted[j - 1]);
        } else if i == slot {
            assert(grown[i] == status && grown[j] == sorted[j - 1]);
            lemma_status_order_reversed(sorted[j - 1], status);
        } else {
            assert(grown[i] == sorted[i - 1] && grown[j] == sorted[j - 1]);
        }
    }
}

/// Listed statuses stand in order, there is one for each package that was looked at, and each is
/// the one that the evidence shows.
pub proof fn lemma_statuses_are_listed_in_order(
    platform: HostPlatform,
    depos_root: Text,
    host: Text,
    catalog: Seq<PackageSpecView>,
    evidence: Seq<StatusEvidenceView>,
    from: int,
    sorted: Seq<PackageStatusView>,
    listed: Seq<PackageStatusView>,
)
    requires
        in_order(sorted),
        0 <= from <= evidence.len(),
        status::statuses_from(platform, depos_root, host, catalog, evidence, from, sorted) == Ok::<
            Seq<PackageStatusView>,
            Messages,
        >(listed),
    ensures
        in_order(listed),
        listed.len() == sorted.len() + (evidence.len() - from),
        forall|i: int|
            from <= i < evidence.len() ==> exists|status: PackageStatusView|
                status::shown_status(
                    platform,
                    depos_root,
                    host,
                    catalog,
                    #[trigger] evidence[i],
                ) == Ok::<PackageStatusView, Messages>(status) && #[trigger] listed.contains(status),
        forall|status: PackageStatusView|
            sorted.contains(status) ==> #[trigger] listed.contains(status),
    decreases evidence.len() - from,
{
    if from < evidence.len() {
        let status = status::shown_status(
            platform,
            depos_root,
            host,
            catalog,
            evidence[from],
        )->Ok_0;
        let slot = status::status_slot(sorted, status, sorted.len() as int);
        let grown = sorted.insert(slot, status);
        lemma_slot_parts(sorted, status, sorted.len() as int);
        lemma_inserting_keeps_order(sorted, status);
        lemma_statuses_are_listed_in_order(
            platform,
            depos_root,
            host,
            catalog,
            evidence,
            from + 1,
            grown,
            listed,
        );
        assert(grown[slot] == status);
        assert(grown.contains(status));
        assert(listed.contains(status));
        assert forall|other: PackageStatusView| sorted.contains(other) implies
            #[trigger] listed.contains(other) by {
            let i = choose|i: int| 0 <= i < sorted.len() && sorted[i] == other;
            if i < slot {
                assert(grown[i] == other);
            } else {
                assert(grown[i + 1] == other);
            }
            assert(grown.contains(other));
        }
    }
}

/// The package that a status is of.
pub open spec fn identity_of(status: PackageStatusView) -> PackageIdentityView {
    PackageIdentityView {
        name: status.name,
        namespace: status.namespace,
        version: status.version,
    }
}

/// Whether `evidence` is what the status of a package is told from: its record where that is
/// there and is not to be refreshed, and else what was observed of the package.
pub open spec fn is_evidence_of(
    query: PackageIdentityView,
    refresh: bool,
    recorded: bool,
    evidence: StatusEvidenceView,
) -> bool {
    match evidence {
        StatusEvidenceView::Recorded { contents } => status::source_of_status(refresh, recorded)
            == StatusSource::Record && (records::status_read(contents) matches Ok(status)
            ==> identity_of(status) == query),
        StatusEvidenceView::Observed { identity, .. } => status::source_of_status(refresh, recorded)
            == StatusSource::Observation && identity == query,
    }
}

/// Whether every query has its evidence.
pub open spec fn are_answered(
    queries: Seq<PackageIdentityView>,
    refresh: bool,
    recorded: Seq<bool>,
    evidence: Seq<StatusEvidenceView>,
) -> bool {
    &&& recorded.len() == queries.len()
    &&& evidence.len() == queries.len()
    &&& forall|i: int|
        0 <= i < queries.len() ==> is_evidence_of(
            #[trigger] queries[i],
            refresh,
            recorded[i],
            evidence[i],
        )
}

/// Whether no two statuses are of the same package.
pub open spec fn differ(statuses: Seq<PackageStatusView>) -> bool {
    forall|i: int, j: int|
        0 <= i < j < statuses.len() ==> identity_of(#[trigger] statuses[i]) != identity_of(
            #[trigger] statuses[j],
        )
}

/// Whether no two queries are for the same package.
pub open spec fn queries_differ(queries: Seq<PackageIdentityView>) -> bool {
    forall|i: int, j: int|
        0 <= i < j < queries.len() ==> #[trigger] queries[i] != #[trigger] queries[j]
}

proof fn lemma_shown_identity(
    platform: HostPlatform,
    depos_root: Text,
    host: Text,
    catalog: Seq<PackageSpecView>,
    query: PackageIdentityView,
    refresh: bool,
    recorded: bool,
    evidence: StatusEvidenceView,
    status: PackageStatusView,
)
    requires
        is_evidence_of(query, refresh, recorded, evidence),
        status::shown_status(platform, depos_root, host, catalog, evidence) == Ok::<
            PackageStatusView,
            Messages,
        >(status),
    ensures
        identity_of(status) == query,
{
}

/// Whether the statuses are of the first `count` queries, and of different packages where the
/// queries are.
spec fn are_of(
    statuses: Seq<PackageStatusView>,
    queries: Seq<PackageIdentityView>,
    count: int,
) -> bool {
    &&& forall|i: int|
        0 <= i < statuses.len() ==> queries.take(count).contains(
            identity_of(#[trigger] statuses[i]),
        )
    &&& queries_differ(queries) ==> differ(statuses)
}

proof fn lemma_inserting_keeps_identities(
    statuses: Seq<PackageStatusView>,
    queries: Seq<PackageIdentityView>,
    count: int,
    slot: int,
    status: PackageStatusView,
)
    requires
        are_of(statuses, queries, count),
        0 <= count < queries.len(),
        0 <= slot <= statuses.len(),
        identity_of(status) == queries[count],
    ensures
        are_of(statuses.insert(slot, status), queries, count + 1),
{
    let grown = statuses.insert(slot, status);
    let next = queries.take(count + 1);
    assert forall|i: int| 0 <= i < grown.len() implies next.contains(
        identity_of(#[trigger] grown[i]),
    ) by {
        if i == slot {
            assert(next[count] == identity_of(grown[i]));
        } else {
            let place = if i < slot {
                i
            } else {
                i - 1
            };
            assert(grown[i] == statuses[place]);
            let k = choose|k: int|
                0 <= k < count && queries.take(count)[k] == identity_of(statuses[place]);
            assert(next[k] == identity_of(grown[i]));
        }
    }
    if queries_differ(queries) {
        assert forall|i: int| 0 <= i < statuses.len() implies identity_of(#[trigger] statuses[i])
            != identity_of(status) by {
            let k = choose|k: int|
                0 <= k < count && queries.take(count)[k] == identity_of(statuses[i]);
            assert(queries[k] != queries[count]);
        }
        assert forall|i: int, j: int| 0 <= i < j < grown.len() implies identity_of(
            #[trigger] grown[i],
        ) != identity_of(#[trigger] grown[j]) by {
            let a = if i < slot {
                i
            } else {
                i - 1
            };
            let b = if j < slot {
                j
            } else {
                j - 1
            };
            if i == slot {
                assert(grown[j] == statuses[b]);
            } else if j == slot {
                assert(grown[i] == statuses[a]);
            } else {
                assert(grown[i] == statuses[a] && grown[j] == statuses[b]);
            }
        }
    }
}

proof fn lemma_answers_from(
    platform: HostPlatform,
    depos_root: Text,
    host: Text,
    catalog: Seq<PackageSpecView>,
    queries: Seq<PackageIdentityView>,
    refresh: bool,
    recorded: Seq<bool>,
    evidence: Seq<StatusEvidenceView>,
    from: int,
    sorted: Seq<PackageStatusView>,
    listed: Seq<PackageStatusView>,
)
    requires
        are_answered(queries, refresh, recorded, evidence),
        0 <= from <= evidence.len(),
        in_order(sorted),
        are_of(sorted, queries, from),
        status::statuses_from(platform, depos_root, host, catalog, evidence, from, sorted) == Ok::<
            Seq<PackageStatusView>,
            Messages,
        >(listed),
    ensures
        are_of(listed, queries, queries.len() as int),
    decreases evidence.len() - from,
{
    if from < evidence.len() {
        let status = status::shown_status(
            platform,
            depos_root,
            host,
            catalog,
            evidence[from],
        )->Ok_0;
        let slot = status::status_slot(sorted, status, sorted.len() as int);
        let grown = sorted.insert(slot, status);
        lemma_slot_parts(sorted, status, sorted.len() as int);
        lemma_inserting_keeps_order(sorted, status);
        lemma_shown_identity(
            platform,
            depos_root,
            host,
            catalog,
            queries[from],
            refresh,
            recorded[from],
            evidence[from],
            status,
        );
        lemma_inserting_keeps_identities(sorted, queries, from, slot, status);
        lemma_answers_from(
            platform,
            depos_root,
            host,
            catalog,
            queries,
            refresh,
            recorded,
            evidence,
            from + 1,
            grown,
            listed,
        );
    }
}

proof fn lemma_different_statuses_are_strictly_ordered(statuses: Seq<PackageStatusView>)
    requires
        in_order(statuses),
        differ(statuses),
    ensures
        in_strict_order(statuses),
{
    assert forall|i: int, j: int| 0 <= i < j < statuses.len() implies status::status_order(
        #[trigger] statuses[i],
        #[trigger] statuses[j],
    ) == Order::Less by {
        let a = statuses[i];
        let b = statuses[j];
        text::lemma_order_equal(a.name, b.name, 0);
        text::lemma_order_equal(a.namespace, b.namespace, 0);
        text::lemma_order_equal(a.version, b.version, 0);
        assert(identity_of(a) != identity_of(b));
    }
}

/// Whether every status stands strictly behind those before it.
pub open spec fn in_strict_order(statuses: Seq<PackageStatusView>) -> bool {
    forall|i: int, j: int|
        0 <= i < j < statuses.len() ==> status::status_order(
            #[trigger] statuses[i],
            #[trigger] statuses[j],
        ) == Order::Less
}

/// Whether the status of the package that is asked for is the one that `evidence` shows, and is
/// listed.
pub open spec fn is_listed(
    platform: HostPlatform,
    depos_root: Text,
    host: Text,
    catalog: Seq<PackageSpecView>,
    query: PackageIdentityView,
    evidence: StatusEvidenceView,
    listed: Seq<PackageStatusView>,
) -> bool {
    match status::shown_status(platform, depos_root, host, catalog, evidence) {
        Ok(status) => identity_of(status) == query && listed.contains(status),
        Err(_) => false,
    }
}

/// Where every package that is asked for has its evidence, there is one status for each, it is
/// the one that the evidence shows, and no other is listed; where the packages differ, each
/// status stands strictly behind those before it.
pub proof fn lemma_statuses_answer_the_query(
    platform: HostPlatform,
    depos_root: Text,
    host: Text,
    catalog: Seq<PackageSpecView>,
    queries: Seq<PackageIdentityView>,
    refresh: bool,
    recorded: Seq<bool>,
    evidence: Seq<StatusEvidenceView>,
    listed: Seq<PackageStatusView>,
)
    requires
        are_answered(queries, refresh, recorded, evidence),
        status::statuses_from(
            platform,
            depos_root,
            host,
            catalog,
            evidence,
            0,
            Seq::empty(),
        ) == Ok::<Seq<PackageStatusView>, Messages>(listed),
    ensures
        listed.len() == queries.len(),
        forall|i: int|
            0 <= i < queries.len() ==> is_listed(
                platform,
                depos_root,
                host,
                catalog,
                #[trigger] queries[i],
                evidence[i],
                listed,
            ),
        forall|i: int|
            0 <= i < listed.len() ==> queries.contains(identity_of(#[trigger] listed[i])),
        queries_differ(queries) ==> in_strict_order(listed),
{
    lemma_statuses_are_listed_in_order(
        platform,
        depos_root,
        host,
        catalog,
        evidence,
        0,
        Seq::empty(),
        listed,
    );
    lemma_answers_from(
        platform,
        depos_root,
        host,
        catalog,
        queries,
        refresh,
        recorded,
        evidence,
        0,
        Seq::empty(),
        listed,
    );
    assert forall|i: int| 0 <= i < queries.len() implies is_listed(
        platform,
        depos_root,
        host,
        catalog,
        #[trigger] queries[i],
        evidence[i],
        listed,
    ) by {
        let seen = evidence[i];
        let status = choose|status: PackageStatusView|
            status::shown_status(platform, depos_root, host, catalog, seen) == Ok::<
                PackageStatusView,
                Messages,
            >(status) && #[trigger] listed.contains(status);
        lemma_shown_identity(
            platform,
            depos_root,
            host,
            catalog,
            queries[i],
            refresh,
            recorded[i],
            evidence[i],
            status,
        );
    }
    assert(queries.take(queries.len() as int) == queries);
    if queries_differ(queries) {
        lemma_different_statuses_are_strictly_ordered(listed);
    }
}

/// Whether `path` is among what is removed.
pub open spec fn is_removed(steps: Seq<CleanupView>, path: Text) -> bool {
    exists|i: int| 0 <= i < steps.len() && (#[trigger] steps[i]).path == path
}

/// Whether the directory `path` is removed with all that it holds.
pub open spec fn is_removed_whole(steps: Seq<CleanupView>, path: Text) -> bool {
    exists|i: int|
        0 <= i < steps.len() && (#[trigger] steps[i]).path == path && steps[i].kind
            == CleanupKind::Directory
}

/// Taking a package out of the registry removes the directory that its DepoFile was registered
/// in.
pub proof fn lemma_unregistering_removes_the_registration(
    platform: HostPlatform,
    depos_root: Text,
    file: Text,
    namespace: Text,
    source: Text,
    host: Text,
    manifest: Option<ExportManifestView>,
)
    requires
        status::registration(platform, depos_root, file, namespace, source, host) is Ok,
    ensures
        ({
            let registered = status::registration(
                platform,
                depos_root,
                file,
                namespace,
                source,
                host,
            )->Ok_0;
            let name = registered.spec.name;
            let version = registered.spec.version;
            let directory = layout::below_identity(
                platform,
                layout::local_root_of(platform, depos_root),
                name,
                namespace,
                version,
            );
            registered.registered_path == paths::joined_path(platform, directory, "main.DepoFile"@)
                && is_removed_whole(
                status::cleanups(platform, depos_root, name, namespace, version, manifest),
                directory,
            )
        }),
{
    let registered = status::registration(
        platform,
        depos_root,
        file,
        namespace,
        source,
        host,
    )->Ok_0;
    let steps = status::cleanups(
        platform,
        depos_root,
        registered.spec.name,
        namespace,
        registered.spec.version,
        manifest,
    );
    let own = status::registration_cleanups(
        platform,
        depos_root,
        registered.spec.name,
        namespace,
        registered.spec.version,
    );
    let place = status::export_cleanups(platform, manifest).len() as int + 1;
    assert(steps[place] == own[1]);
}

/// Taking a package out of the registry removes every path that its export record lists, its
/// records and the directory of its DepoFile.
pub proof fn lemma_unregistering_removes_all_that_is_owned(
    platform: HostPlatform,
    depos_root: Text,
    name: Text,
    namespace: Text,
    version: Text,
    manifest: Option<ExportManifestView>,
)
    ensures
        manifest matches Some(exports) ==> forall|i: int|
            0 <= i < exports.paths.len() ==> is_removed(
                status::cleanups(platform, depos_root, name, namespace, version, manifest),
                paths::joined_path(platform, exports.store_root, #[trigger] exports.paths[i]),
            ),
        is_removed(
            status::cleanups(platform, depos_root, name, namespace, version, manifest),
            layout::below_identity(
                platform,
                layout::local_root_of(platform, depos_root),
                name,
                namespace,
                version,
            ),
        ),
        forall|kind: RecordKind|
            is_removed(
                status::cleanups(platform, depos_root, name, namespace, version, manifest),
                #[trigger] layout::record_of(platform, depos_root, kind, name, namespace, version),
            ),
{
    let steps = status::cleanups(platform, depos_root, name, namespace, version, manifest);
    let exported = status::export_cleanups(platform, manifest);
    let own = status::registration_cleanups(platform, depos_root, name, namespace, version);
    let start = exported.len() as int;
    assert forall|i: int| 0 <= i < own.len() implies #[trigger] steps[start + i] == own[i] by {}
    if let Some(exports) = manifest {
        assert forall|i: int| 0 <= i < exports.paths.len() implies is_removed(
            steps,
            paths::joined_path(platform, exports.store_root, #[trigger] exports.paths[i]),
        ) by {
            assert(steps[i] == exported[i]);
        }
    }
    assert(steps[start + 1].path == own[1].path);
    assert forall|kind: RecordKind|
        is_removed(
            steps,
            #[trigger] layout::record_of(platform, depos_root, kind, name, namespace, version),
        ) by {
        let place: int = match kind {
            RecordKind::Exports => 0,
            RecordKind::Status => 2,
            RecordKind::Log => 3,
            RecordKind::Provenance => 4,
            RecordKind::Materialization => 5,
        };
        assert(steps[start + place] == own[place]);
    }
}

/// Taking a package out of the registry removes nothing but what its export record lists, its
/// records and the directory of its DepoFile; empty directories are removed below the store, the
/// records and the registered DepoFiles only.
pub proof fn lemma_unregistering_removes_nothing_else(
    platform: HostPlatform,
    depos_root: Text,
    name: Text,
    namespace: Text,
    version: Text,
    manifest: Option<ExportManifestView>,
    index: int,
)
    requires
        0 <= index < status::cleanups(
            platform,
            depos_root,
            name,
            namespace,
            version,
            manifest,
        ).len(),
    ensures
        ({
            let step = status::cleanups(
                platform,
                depos_root,
                name,
                namespace,
                version,
                manifest,
            )[index];
            ||| exists|kind: RecordKind|
                step.path == #[trigger] layout::record_of(
                    platform,
                    depos_root,
                    kind,
                    name,
                    namespace,
                    version,
                ) && step.kind == CleanupKind::File && step.stop_at == layout::record_root_of(
                    platform,
                    depos_root,
                    kind,
                )
            ||| step.path == layout::below_identity(
                platform,
                layout::local_root_of(platform, depos_root),
                name,
                namespace,
                version,
            ) && step.stop_at == layout::local_root_of(platform, depos_root)
            ||| manifest matches Some(exports) && exists|i: int|
                0 <= i < exports.paths.len() && step == status::export_cleanup(
                    platform,
                    exports.store_root,
                    #[trigger] exports.paths[i],
                )
        }),
{
    let exported = status::export_cleanups(platform, manifest);
    let own = status::registration_cleanups(platform, depos_root, name, namespace, version);
    let step = status::cleanups(platform, depos_root, name, namespace, version, manifest)[index];
    if index < exported.len() {
        assert(step == exported[index]);
        let exports = manifest->Some_0;
        assert(step == status::export_cleanup(platform, exports.store_root, exports.paths[index]));
    } else {
        let place = index - exported.len();
        assert(step == own[place]);
        if place != 1 {
            let kind = if place == 0 {
                RecordKind::Exports
            } else if place == 2 {
                RecordKind::Status
            } else if place == 3 {
                RecordKind::Log
            } else if place == 4 {
                RecordKind::Provenance
            } else {
                RecordKind::Materialization
            };
            assert(step.path == layout::record_of(
                platform,
                depos_root,
                kind,
                name,
                namespace,
                version,
            ));
        }
    }
}

} // verus!
