//! What is registered, what a package exports into the store, and when the store is up to date.

use vstd::prelude::*;
use crate::catalog;
use crate::copying;
use crate::depofile;
use crate::exports;
use crate::exports::OwnedExportsView;
use crate::failure::Messages;
use crate::manifest_laws;
use crate::materialize;
use crate::materialize::WorkerOutcomeView;
use crate::model::{
    PackageOrigin, PackageRequestView, PackageSpecView, PackageState, StageEntryView, StageKind,
    StageSourceRoot, TargetKind, TargetSpecView, Text,
};
use crate::paths;
use crate::paths::HostPlatform;
use crate::records::{ExportManifestView, SourceProvenanceView};
use crate::resolve;
use crate::selection_laws;
use crate::text::Order;
use crate::version;

verus! {

/// Whether a dependency is asked for as a DepoFile says, in the namespace that it names or else
/// in the one that the DepoFile is registered in.
pub open spec fn is_registered_request(
    request: PackageRequestView,
    said: PackageRequestView,
    namespace: Text,
) -> bool {
    &&& request.name == said.name
    &&& request.namespace == if said.inherit_namespace {
        namespace
    } else {
        said.namespace
    }
    &&& request.mode == said.mode
    &&& request.source == said.source
    &&& request.alias == said.alias
}

/// A registered package is what its DepoFile says, in the namespace that it is registered in, and
/// so are its dependencies; the name and the version that it is registered under are its own.
pub proof fn lemma_registered_packages_are_as_described(
    platform: HostPlatform,
    path: Text,
    source: Text,
    host: Text,
    name: Text,
    namespace: Text,
    version: Text,
)
    ensures
        ({
            let said = depofile::depofile_spec(platform, path, source, host);
            let result = catalog::registered_spec(
                platform,
                path,
                source,
                host,
                name,
                namespace,
                version,
            );
            &&& result is Ok <==> manifest_laws::is_name(name) && manifest_laws::is_namespace(
                namespace,
            ) && said is Ok && said->Ok_0.name == name && said->Ok_0.version == version
            &&& result matches Ok(spec) ==> {
                &&& spec.name == name
                &&& spec.namespace == namespace
                &&& spec.version == version
                &&& spec.depends.len() == said->Ok_0.depends.len()
                &&& forall|d: int|
                    0 <= d < spec.depends.len() ==> is_registered_request(
                        #[trigger] spec.depends[d],
                        said->Ok_0.depends[d],
                        namespace,
                    )
                &&& spec == (PackageSpecView {
                    namespace,
                    depends: spec.depends,
                    ..said->Ok_0
                })
            }
        }),
{
    manifest_laws::lemma_names_checked(name);
    manifest_laws::lemma_names_checked(namespace);
}

/// Whether a dependency can be met by a registered package.
pub open spec fn can_be_met(catalog: Seq<PackageSpecView>, request: PackageRequestView) -> bool {
    exists|i: int|
        0 <= i < catalog.len() && selection_laws::is_named(#[trigger] catalog[i], request.key())
            && selection_laws::suits(request.mode, catalog[i].version)
}

/// Whether a package is a registered one that a request asks for, and none that it asks for is
/// greater.
pub open spec fn meets_best(
    catalog: Seq<PackageSpecView>,
    request: PackageRequestView,
    spec: PackageSpecView,
) -> bool {
    &&& catalog.contains(spec)
    &&& spec.name == request.name
    &&& spec.namespace == request.namespace
    &&& selection_laws::suits(request.mode, spec.version)
    &&& forall|i: int|
        0 <= i < catalog.len() && (#[trigger] catalog[i]).name == request.name
            && catalog[i].namespace == request.namespace && selection_laws::suits(
            request.mode,
            catalog[i].version,
        ) ==> version::version_order(spec.version, catalog[i].version) != Order::Less
}

proof fn lemma_selection_for(catalog: Seq<PackageSpecView>, request: PackageRequestView)
    ensures
        ({
            let found = resolve::candidates(catalog, request.key());
            &&& version::selection(found, request.mode) is Ok <==> can_be_met(catalog, request)
            &&& found.len() == 0 ==> !can_be_met(catalog, request)
            &&& version::consistently_ordered(catalog) ==> (version::selection(
                found,
                request.mode,
            ) matches Ok(chosen) ==> meets_best(catalog, request, chosen))
        }),
{
    let key = request.key();
    let found = resolve::candidates(catalog, key);
    selection_laws::lemma_candidates(catalog, key);
    version::lemma_selection_is_accepted(found, request.mode);
    if can_be_met(catalog, request) {
        let i = choose|i: int|
            0 <= i < catalog.len() && selection_laws::is_named(#[trigger] catalog[i], key)
                && selection_laws::suits(request.mode, catalog[i].version);
        assert(found.contains(catalog[i]));
        let at = found.index_of(catalog[i]);
        assert(version::accepts(request.mode, found[at].version));
    }
    if let Ok(chosen) = version::selection(found, request.mode) {
        let at = found.index_of(chosen);
        assert(found[at] == chosen);
        assert(catalog.contains(found[at]));
        let i = catalog.index_of(chosen);
        assert(selection_laws::is_named(catalog[i], key));
        assert(can_be_met(catalog, request));
        if version::consistently_ordered(catalog) {
            selection_laws::lemma_candidates_are_consistent(catalog, key);
            version::lemma_selection_is_greatest(found, request.mode);
            assert forall|k: int|
                0 <= k < catalog.len() && (#[trigger] catalog[k]).name == request.name
                    && catalog[k].namespace == request.namespace && selection_laws::suits(
                    request.mode,
                    catalog[k].version,
                ) implies version::version_order(chosen.version, catalog[k].version)
                != Order::Less by {
                assert(selection_laws::is_named(catalog[k], key));
                let m = found.index_of(catalog[k]);
                assert(found[m] == catalog[k]);
                assert(version::accepts(request.mode, found[m].version));
            }
        }
    }
}

proof fn lemma_dependencies_from(
    catalog: Seq<PackageSpecView>,
    spec: PackageSpecView,
    from: int,
    done: Seq<PackageSpecView>,
)
    requires
        0 <= from == done.len() <= spec.depends.len(),
        version::consistently_ordered(catalog),
        forall|d: int|
            0 <= d < done.len() ==> meets_best(catalog, spec.depends[d], #[trigger] done[d]),
    ensures
        catalog::dependency_specs_from(catalog, spec, from, done) is Ok <==> forall|d: int|
            from <= d < spec.depends.len() ==> can_be_met(catalog, #[trigger] spec.depends[d]),
        catalog::dependency_specs_from(catalog, spec, from, done) matches Ok(all) ==> all.len()
            == spec.depends.len() && forall|d: int|
            0 <= d < all.len() ==> meets_best(catalog, spec.depends[d], #[trigger] all[d]),
    decreases spec.depends.len() - from,
{
    if from < spec.depends.len() {
        lemma_selection_for(catalog, spec.depends[from]);
        if let Ok(chosen) = catalog::dependency_spec(catalog, spec, spec.depends[from], ""@) {
            let next = done.push(chosen);
            assert forall|d: int| 0 <= d < next.len() implies meets_best(
                catalog,
                spec.depends[d],
                #[trigger] next[d],
            ) by {
                if d < done.len() {
                    assert(next[d] == done[d]);
                }
            }
            lemma_dependencies_from(catalog, spec, from + 1, next);
        }
    }
}

/// The dependencies of a package are met if and only if a registered package is what each of them
/// asks for, and each is met by the greatest such package, in order.
pub proof fn lemma_dependencies_are_met_by_the_greatest(
    catalog: Seq<PackageSpecView>,
    spec: PackageSpecView,
)
    requires
        version::consistently_ordered(catalog),
    ensures
        catalog::dependency_specs(catalog, spec) is Ok <==> forall|d: int|
            0 <= d < spec.depends.len() ==> can_be_met(catalog, #[trigger] spec.depends[d]),
        catalog::dependency_specs(catalog, spec) matches Ok(all) ==> all.len()
            == spec.depends.len() && forall|d: int|
            0 <= d < all.len() ==> meets_best(catalog, spec.depends[d], #[trigger] all[d]),
{
    lemma_dependencies_from(catalog, spec, 0, Seq::empty());
}

/// There is a reason why dependencies cannot be met if and only if one of them cannot.
pub proof fn lemma_reasons_are_given_for_what_is_missing(
    catalog: Seq<PackageSpecView>,
    requests: Seq<PackageRequestView>,
    count: int,
)
    requires
        0 <= count <= requests.len(),
    ensures
        catalog::missing_reasons(catalog, requests, count).len() == 0 <==> forall|d: int|
            0 <= d < count ==> can_be_met(catalog, #[trigger] requests[d]),
    decreases count,
{
    if count > 0 {
        lemma_reasons_are_given_for_what_is_missing(catalog, requests, count - 1);
        lemma_selection_for(catalog, requests[count - 1]);
    }
}

/// Whether a path is declared with headers below it, or as a file.
pub open spec fn is_declared(spec: PackageSpecView, path: Text, directory: bool) -> bool {
    ||| !directory && spec.artifacts.contains(path)
    ||| exists|i: int|
        0 <= i < spec.targets.len() && is_declared_by(#[trigger] spec.targets[i], path, directory)
}

/// Whether a target declares a path: a directory of headers, or the file of a library.
pub open spec fn is_declared_by(target: TargetSpecView, path: Text, directory: bool) -> bool {
    if directory {
        target.include_dirs.contains(path)
    } else {
        target.static_path == Some(path) || target.shared_path == Some(path) || target.object_path
            == Some(path)
    }
}

proof fn lemma_target_paths(target: TargetSpecView, path: Text, directory: bool)
    ensures
        (target.include_dirs.map_values(|path: Text| (path, true)) + target.artifacts().map_values(
            |artifact: (TargetKind, Text)| (artifact.1, false),
        )).contains((path, directory)) <==> is_declared_by(target, path, directory),
{
    let dirs = target.include_dirs.map_values(|path: Text| (path, true));
    let artifacts = target.artifacts();
    let files = artifacts.map_values(|artifact: (TargetKind, Text)| (artifact.1, false));
    let all = dirs + files;
    if all.contains((path, directory)) {
        let at = all.index_of((path, directory));
        if at < dirs.len() {
            assert(dirs[at] == (target.include_dirs[at], true));
            assert(target.include_dirs[at] == path);
        } else {
            assert(files[at - dirs.len()] == (artifacts[at - dirs.len()].1, false));
        }
    }
    if directory && target.include_dirs.contains(path) {
        let at = target.include_dirs.index_of(path);
        assert(all[at] == (path, true));
    }
    let shared_at: int = if target.static_path is Some {
        1
    } else {
        0
    };
    let last: int = artifacts.len() - 1;
    if !directory && target.static_path == Some(path) {
        assert(artifacts[0] == (TargetKind::Static, path));
        assert(all[dirs.len() as int] == (path, false));
    }
    if !directory && target.shared_path == Some(path) {
        assert(artifacts[shared_at] == (TargetKind::Shared, path));
        assert(all[dirs.len() + shared_at] == (path, false));
    }
    if !directory && target.object_path == Some(path) {
        assert(artifacts[last] == (TargetKind::Object, path));
        assert(all[dirs.len() + last] == (path, false));
    }
}

proof fn lemma_targets_paths(
    targets: Seq<TargetSpecView>,
    count: int,
    path: Text,
    directory: bool,
)
    requires
        0 <= count <= targets.len(),
    ensures
        exports::target_exports(targets, count).contains((path, directory)) <==> exists|i: int|
            0 <= i < count && is_declared_by(#[trigger] targets[i], path, directory),
    decreases count,
{
    if count > 0 {
        lemma_targets_paths(targets, count - 1, path, directory);
        let target = targets[count - 1];
        lemma_target_paths(target, path, directory);
        let before = exports::target_exports(targets, count - 1);
        let own = target.include_dirs.map_values(|path: Text| (path, true))
            + target.artifacts().map_values(|artifact: (TargetKind, Text)| (artifact.1, false));
        let all = exports::target_exports(targets, count);
        assert(all =~= before + own);
        let wanted = (path, directory);
        if all.contains(wanted) {
            let at = all.index_of(wanted);
            if at < before.len() {
                assert(before[at] == wanted);
            } else {
                assert(own[at - before.len()] == wanted);
            }
        }
        if before.contains(wanted) {
            let at = before.index_of(wanted);
            assert(all[at] == wanted);
        }
        if own.contains(wanted) {
            let at = own.index_of(wanted);
            assert(all[before.len() + at] == wanted);
        }
    }
}

/// A package exports exactly what it declares: its artifacts and libraries as files, and the
/// directories of its headers.
pub proof fn lemma_packages_export_what_they_declare(
    spec: PackageSpecView,
    path: Text,
    directory: bool,
)
    ensures
        exports::exports_of(spec).contains((path, directory)) <==> is_declared(
            spec,
            path,
            directory,
        ),
{
    let count = spec.targets.len() as int;
    lemma_targets_paths(spec.targets, count, path, directory);
    let own = spec.artifacts.map_values(|path: Text| (path, false));
    let rest = exports::target_exports(spec.targets, count);
    let all = exports::exports_of(spec);
    let wanted = (path, directory);
    if all.contains(wanted) {
        let at = all.index_of(wanted);
        if at < own.len() {
            assert(own[at] == (spec.artifacts[at], false));
        } else {
            assert(rest[at - own.len()] == wanted);
        }
    }
    if !directory && spec.artifacts.contains(path) {
        let at = spec.artifacts.index_of(path);
        assert(all[at] == wanted);
    }
    if rest.contains(wanted) {
        let at = rest.index_of(wanted);
        assert(all[own.len() + at] == wanted);
    }
}

proof fn lemma_stale_among(
    platform: HostPlatform,
    previous: Seq<Text>,
    current: Seq<Text>,
    count: int,
    path: Text,
)
    requires
        0 <= count <= previous.len(),
    ensures
        materialize::stale_among(platform, previous, current, count).contains(path)
            <==> previous.take(count).contains(path) && !paths::names_path(platform, current, path),
    decreases count,
{
    if count > 0 {
        lemma_stale_among(platform, previous, current, count - 1, path);
        let before = materialize::stale_among(platform, previous, current, count - 1);
        let all = materialize::stale_among(platform, previous, current, count);
        let taken = previous.take(count);
        let fewer = previous.take(count - 1);
        assert(taken =~= fewer.push(previous[count - 1]));
        if taken.contains(path) {
            let at = taken.index_of(path);
            if at < count - 1 {
                assert(fewer[at] == path);
            }
        }
        if fewer.contains(path) {
            let at = fewer.index_of(path);
            assert(taken[at] == path);
        }
        assert(taken[count - 1] == previous[count - 1]);
        if before.contains(path) {
            let at = before.index_of(path);
            assert(all[at] == path);
        }
        if all.contains(path) {
            let at = all.index_of(path);
            if at < before.len() {
                assert(before[at] == path);
            }
        }
        if !paths::names_path(platform, current, previous[count - 1]) {
            assert(all[before.len() as int] == previous[count - 1]);
        }
    } else {
        assert(previous.take(0) =~= Seq::<Text>::empty());
    }
}

/// What was exported before is removed where the store has moved, and else if and only if it is
/// not exported any more.
pub proof fn lemma_stale_files_are_removed(
    platform: HostPlatform,
    previous: Option<ExportManifestView>,
    store_root: Text,
    current: Seq<Text>,
    path: Text,
)
    ensures
        materialize::stale_paths(platform, previous, store_root, current).contains(path)
            <==> previous is Some && previous->Some_0.paths.contains(path) && !(paths::same_path(
            platform,
            previous->Some_0.store_root,
            store_root,
        ) && paths::names_path(platform, current, path)),
{
    if let Some(manifest) = previous {
        let count = manifest.paths.len() as int;
        lemma_stale_among(platform, manifest.paths, current, count, path);
        assert(manifest.paths.take(count) =~= manifest.paths);
    }
}

/// A layer is done if and only if every worker of it is done.
pub proof fn lemma_layers_are_done_when_all_workers_are(
    ids: Seq<Text>,
    outcomes: Seq<WorkerOutcomeView>,
    from: int,
)
    requires
        0 <= from <= ids.len() == outcomes.len(),
    ensures
        materialize::layer_outcome(ids, outcomes, from) is Ok <==> forall|i: int|
            from <= i < ids.len() ==> #[trigger] outcomes[i] == WorkerOutcomeView::Done,
    decreases ids.len() - from,
{
    if from < ids.len() {
        lemma_layers_are_done_when_all_workers_are(ids, outcomes, from + 1);
    }
}

/// A package is green after a materialization that ended well and failed after any other, and its
/// status tells where its sources came from.
pub proof fn lemma_statuses_tell_how_it_ended(
    spec: PackageSpecView,
    depofile: Text,
    provenance: SourceProvenanceView,
    result: Result<Text, Messages>,
    store_root: Text,
    exports_present: bool,
)
    ensures
        ({
            let status = materialize::status_after(spec, depofile, provenance, result);
            &&& status.name == spec.name
            &&& status.namespace == spec.namespace
            &&& status.version == spec.version
            &&& status.lazy == spec.lazy
            &&& status.system_libs == spec.system_libs
            &&& status.depofile == depofile
            &&& status.source_ref == provenance.source_ref
            &&& status.source_commit == provenance.source_commit
            &&& result is Ok <==> status.state == PackageState::Green
            &&& result is Err <==> status.state == PackageState::Failed
            &&& result matches Ok(report) ==> status.message == report
            &&& result matches Err(messages) ==> (messages.len() > 0 ==> status.message
                == messages[0])
        }),
        materialize::conclusion(store_root, exports_present) is Ok <==> exports_present,
{
}

/// Whether a file is planned that overlaps one that another package owns in the same store.
pub open spec fn clashes(
    platform: HostPlatform,
    spec: PackageSpecView,
    store_root: Text,
    planned: Seq<Text>,
    owner: OwnedExportsView,
) -> bool {
    &&& owner.name != spec.name || owner.namespace != spec.namespace || owner.version
        != spec.version
    &&& paths::same_path(platform, owner.manifest.store_root, store_root)
    &&& exists|i: int, j: int|
        0 <= i < planned.len() && 0 <= j < owner.manifest.paths.len() && touches(
            platform,
            #[trigger] planned[i],
            #[trigger] owner.manifest.paths[j],
        )
}

/// Whether two paths are one, or one of them is below the other.
pub open spec fn touches(platform: HostPlatform, left: Text, right: Text) -> bool {
    paths::below(platform, left, right) || paths::below(platform, right, left)
}

proof fn lemma_overlap(platform: HostPlatform, left: Text, right: Text)
    ensures
        exports::overlap(platform, left, right) == touches(platform, left, right),
{
    if paths::same_path(platform, left, right) {
        let parts = paths::components_of(platform, left);
        assert(parts.take(parts.len() as int) =~= parts);
    }
}

proof fn lemma_owned_conflict(platform: HostPlatform, planned: Text, owned: Seq<Text>, from: int)
    requires
        0 <= from <= owned.len(),
    ensures
        exports::owned_conflict(platform, planned, owned, from) is Some <==> exists|j: int|
            from <= j < owned.len() && touches(platform, planned, #[trigger] owned[j]),
    decreases owned.len() - from,
{
    if from < owned.len() {
        lemma_overlap(platform, planned, owned[from]);
        lemma_owned_conflict(platform, planned, owned, from + 1);
    }
}

proof fn lemma_path_conflict(
    platform: HostPlatform,
    planned: Seq<Text>,
    owned: Seq<Text>,
    from: int,
)
    requires
        0 <= from <= planned.len(),
    ensures
        exports::path_conflict(platform, planned, owned, from) is Some <==> exists|i: int, j: int|
            from <= i < planned.len() && 0 <= j < owned.len() && touches(
                platform,
                #[trigger] planned[i],
                #[trigger] owned[j],
            ),
    decreases planned.len() - from,
{
    if from < planned.len() {
        lemma_owned_conflict(platform, planned[from], owned, 0);
        lemma_path_conflict(platform, planned, owned, from + 1);
        if exports::owned_conflict(platform, planned[from], owned, 0) is Some {
            let j = choose|j: int|
                0 <= j < owned.len() && touches(platform, planned[from], #[trigger] owned[j]);
            assert(touches(platform, planned[from], owned[j]));
        }
    }
}

proof fn lemma_conflicts(
    platform: HostPlatform,
    spec: PackageSpecView,
    store_root: Text,
    planned: Seq<Text>,
    owners: Seq<OwnedExportsView>,
    from: int,
)
    requires
        0 <= from <= owners.len(),
    ensures
        exports::conflict_check(platform, spec, store_root, planned, owners, from) is Ok
            <==> forall|k: int|
            from <= k < owners.len() ==> !clashes(
                platform,
                spec,
                store_root,
                planned,
                #[trigger] owners[k],
            ),
    decreases owners.len() - from,
{
    if from < owners.len() {
        lemma_path_conflict(platform, planned, owners[from].manifest.paths, 0);
        lemma_conflicts(platform, spec, store_root, planned, owners, from + 1);
    }
}

/// A package may put its files into the store if and only if none of them overlaps a file that
/// another package owns there.
pub proof fn lemma_packages_keep_clear_of_each_other(
    platform: HostPlatform,
    spec: PackageSpecView,
    store_root: Text,
    planned: Seq<Text>,
    owners: Seq<OwnedExportsView>,
)
    ensures
        exports::conflict_check(platform, spec, store_root, planned, owners, 0) is Ok
            <==> forall|k: int|
            0 <= k < owners.len() ==> !clashes(
                platform,
                spec,
                store_root,
                planned,
                #[trigger] owners[k],
            ),
{
    lemma_conflicts(platform, spec, store_root, planned, owners, 0);
}

/// Every staged entry is copied from the root that it names to where it says, whole trees only
/// where a tree is asked for.
pub proof fn lemma_entries_are_staged_as_declared(
    source_root: Text,
    build_root: Text,
    entries: Seq<StageEntryView>,
    index: int,
)
    requires
        0 <= index < entries.len(),
    ensures
        ({
            let copies = copying::stage_copies(source_root, build_root, entries);
            let copy = copies[index];
            &&& copies.len() == entries.len()
            &&& copy.source == entries[index].source
            &&& copy.destination == entries[index].destination
            &&& entries[index].source_root == StageSourceRoot::Source ==> copy.root == source_root
            &&& entries[index].source_root == StageSourceRoot::Build ==> copy.root == build_root
            &&& copy.allow_directory <==> entries[index].kind == StageKind::Tree
        }),
{
}

proof fn lemma_keys(
    dependencies: Seq<PackageSpecView>,
    states: Seq<Option<Text>>,
    from: int,
    keys: Seq<(Text, Text)>,
)
    requires
        0 <= from == keys.len() <= dependencies.len() == states.len(),
        forall|d: int|
            0 <= d < from ==> keys.contains(key_of(#[trigger] dependencies[d], states[d])),
    ensures
        materialize::keys_from(dependencies, states, from, keys) is Ok <==> forall|d: int|
            from <= d < dependencies.len() ==> (#[trigger] dependencies[d]).origin
                == PackageOrigin::Local ==> states[d] is Some,
        materialize::keys_from(dependencies, states, from, keys) matches Ok(all) ==> all.len()
            == dependencies.len() && forall|d: int|
            0 <= d < dependencies.len() ==> all.contains(
                key_of(#[trigger] dependencies[d], states[d]),
            ),
    decreases dependencies.len() - from,
{
    if from < dependencies.len() {
        let id = dependencies[from].id();
        let slot = materialize::pair_slot(keys, id, keys.len() as int);
        lemma_pair_slot(keys, id, keys.len() as int);
        if dependencies[from].origin != PackageOrigin::Local || states[from] is Some {
            let pair = key_of(dependencies[from], states[from]);
            let next = keys.insert(slot, pair);
            assert(next[slot] == pair);
            assert forall|d: int| 0 <= d < from + 1 implies next.contains(
                key_of(#[trigger] dependencies[d], states[d]),
            ) by {
                if d < from {
                    let at = keys.index_of(key_of(dependencies[d], states[d]));
                    assert(keys.contains(key_of(dependencies[d], states[d])));
                    if at < slot {
                        assert(next[at] == keys[at]);
                    } else {
                        assert(next[at + 1] == keys[at]);
                    }
                }
            }
            lemma_keys(dependencies, states, from + 1, next);
        }
    }
}

proof fn lemma_pair_slot(pairs: Seq<(Text, Text)>, name: Text, count: int)
    requires
        0 <= count <= pairs.len(),
    ensures
        0 <= materialize::pair_slot(pairs, name, count) <= count,
    decreases count,
{
    if count > 0 {
        lemma_pair_slot(pairs, name, count - 1);
    }
}

/// What a dependency counts for: a local one for what it was built from, any other for itself.
pub open spec fn key_of(dependency: PackageSpecView, state: Option<Text>) -> (Text, Text) {
    let id = dependency.name + "["@ + dependency.namespace + "]@"@ + dependency.version;
    (
        id,
        if dependency.origin == PackageOrigin::Local {
            state->Some_0
        } else {
            id
        },
    )
}

/// Every dependency counts for what a package is built from, a local one by what it was built
/// from itself, which has to be known.
pub proof fn lemma_every_dependency_counts(
    dependencies: Seq<PackageSpecView>,
    states: Seq<Option<Text>>,
)
    requires
        dependencies.len() == states.len(),
    ensures
        materialize::keys_from(dependencies, states, 0, Seq::empty()) is Ok <==> forall|d: int|
            0 <= d < dependencies.len() ==> (#[trigger] dependencies[d]).origin
                == PackageOrigin::Local ==> states[d] is Some,
        materialize::keys_from(dependencies, states, 0, Seq::empty()) matches Ok(all) ==> all.len()
            == dependencies.len() && forall|d: int|
            0 <= d < dependencies.len() ==> all.contains(
                key_of(#[trigger] dependencies[d], states[d]),
            ),
{
    lemma_keys(dependencies, states, 0, Seq::empty());
}

} // verus!
