//! Materialization: in which order packages are built, and when they need not be.

use vstd::prelude::*;
use crate::catalog;
use crate::catalog::resolve_dependency_specs;
use crate::digest;
use crate::digest::materialization_build_key;
use crate::failure::{failure, outcome, within, Failure, Messages};
use crate::model::{PackageOrigin, PackageSpec, PackageSpecView, PackageState, Text};
use crate::paths;
use crate::paths::{contains_path, paths_equal, HostPlatform};
use crate::records::{
    ExportManifest, ExportManifestView, MaterializationState, MaterializationStateView,
    PackageStatus, PackageStatusView, SourceProvenance, SourceProvenanceView,
};
use crate::resolve::{ResolvedPackage, ResolvedPackageView};
use crate::text;
use crate::text::{cat2, cat3, cat4, contains_text, order_texts, put, same, Dup, Order};

verus! {

/// The position of the first package at or behind `from` whose id is not less than `id`.
pub open spec fn id_slot(packages: Seq<ResolvedPackageView>, id: Text, from: int) -> int
    decreases packages.len() - from,
{
    if from >= packages.len() {
        packages.len() as int
    } else if text::text_order(packages[from].spec.id(), id) == Order::Less {
        id_slot(packages, id, from + 1)
    } else {
        from
    }
}

/// Packages in order of their ids with one more; a package takes the place of another with the
/// same id.
pub open spec fn with_package(
    packages: Seq<ResolvedPackageView>,
    package: ResolvedPackageView,
) -> Seq<ResolvedPackageView> {
    let slot = id_slot(packages, package.spec.id(), 0);
    if slot < packages.len() && packages[slot].spec.id() == package.spec.id() {
        packages.update(slot, package)
    } else {
        packages.insert(slot, package)
    }
}

/// The packages among the selected ones that are built here, in order of their ids.
pub open spec fn local_packages(selected: Seq<ResolvedPackageView>) -> Seq<ResolvedPackageView>
    decreases selected.len(),
{
    if selected.len() == 0 {
        selected
    } else if selected.last().spec.origin == PackageOrigin::Local {
        with_package(local_packages(selected.drop_last()), selected.last())
    } else {
        local_packages(selected.drop_last())
    }
}

fn put_package(packages: &mut Vec<ResolvedPackage>, package: ResolvedPackage)
    ensures
        final(packages).deep_view() == with_package(
            old(packages).deep_view(),
            package.deep_view(),
        ),
{
    let ghost before = packages.deep_view();
    let id = package.spec.package_id();
    let mut slot: usize = 0;
    while slot < packages.len() && order_texts(&packages[slot].spec.package_id(), &id)
        == Order::Less
        invariant
            slot <= packages.len(),
            before == packages.deep_view(),
            id_slot(before, id@, 0) == id_slot(before, id@, slot as int),
        decreases packages.len() - slot,
    {
        assert(before[slot as int] == packages[slot as int].deep_view());
        slot = slot + 1;
    }
    proof {
        if slot < packages.len() {
            assert(before[slot as int] == packages[slot as int].deep_view());
        }
    }
    if slot < packages.len() && same(&packages[slot].spec.package_id(), &id) {
        packages.set(slot, package);
        assert(packages.deep_view() == before.update(slot as int, package.deep_view()));
    } else {
        packages.insert(slot, package);
        assert(packages.deep_view() == before.insert(slot as int, package.deep_view()));
    }
}

fn collect_local_packages(selected: &Vec<ResolvedPackage>) -> (packages: Vec<ResolvedPackage>)
    ensures
        packages.deep_view() == local_packages(selected.deep_view()),
{
    let mut packages: Vec<ResolvedPackage> = Vec::new();
    let mut index: usize = 0;
    assert(selected.deep_view().take(0) == Seq::<ResolvedPackageView>::empty());
    assert(packages.deep_view() == Seq::<ResolvedPackageView>::empty());
    while index < selected.len()
        invariant
            index <= selected.len(),
            packages.deep_view() == local_packages(selected.deep_view().take(index as int)),
        decreases selected.len() - index,
    {
        proof {
            let next = selected.deep_view().take(index as int + 1);
            assert(next.drop_last() == selected.deep_view().take(index as int));
            assert(next.last() == selected[index as int].deep_view());
        }
        if selected[index].spec.origin == PackageOrigin::Local {
            put_package(&mut packages, selected[index].dup());
        }
        index = index + 1;
    }
    assert(selected.deep_view().take(index as int) == selected.deep_view());
    packages
}

/// The position of the package with a given id at or behind `from`.
pub open spec fn id_position(packages: Seq<ResolvedPackageView>, id: Text, from: int) -> Option<int>
    decreases packages.len() - from,
{
    if from >= packages.len() {
        None
    } else if packages[from].spec.id() == id {
        Some(from)
    } else {
        id_position(packages, id, from + 1)
    }
}

fn find_id(packages: &Vec<ResolvedPackage>, id: &str) -> (found: Option<usize>)
    ensures
        match found {
            Some(index) => index < packages.len() && id_position(packages.deep_view(), id@, 0)
                == Some(index as int),
            None => id_position(packages.deep_view(), id@, 0) is None,
        },
{
    let mut index: usize = 0;
    while index < packages.len()
        invariant
            index <= packages.len(),
            id_position(packages.deep_view(), id@, 0) == id_position(
                packages.deep_view(),
                id@,
                index as int,
            ),
        decreases packages.len() - index,
    {
        assert(packages.deep_view()[index as int] == packages[index as int].deep_view());
        if same(&packages[index].spec.package_id(), id) {
            return Some(index);
        }
        index = index + 1;
    }
    None
}

/// The depth that is known for an id at or behind position `from`.
pub open spec fn known_depth(depths: Seq<(Text, usize)>, id: Text, from: int) -> Option<usize>
    decreases depths.len() - from,
{
    if from >= depths.len() {
        None
    } else if depths[from].0 == id {
        Some(depths[from].1)
    } else {
        known_depth(depths, id, from + 1)
    }
}

/// No depth is greater than the number of packages that were measured before.
pub open spec fn depths_bounded(depths: Seq<(Text, usize)>) -> bool {
    forall|i: int| 0 <= i < depths.len() ==> (#[trigger] depths[i]).1 <= i
}

proof fn lemma_known_depth_bound(depths: Seq<(Text, usize)>, id: Text, from: int)
    requires
        depths_bounded(depths),
        0 <= from <= depths.len(),
    ensures
        known_depth(depths, id, from) matches Some(depth) ==> depth < depths.len(),
    decreases depths.len() - from,
{
    if from < depths.len() && depths[from].0 != id {
        lemma_known_depth_bound(depths, id, from + 1);
    }
}

fn find_depth(depths: &Vec<(String, usize)>, id: &str) -> (depth: Option<usize>)
    ensures
        depth == known_depth(depths.deep_view(), id@, 0),
{
    let mut index: usize = 0;
    while index < depths.len()
        invariant
            index <= depths.len(),
            known_depth(depths.deep_view(), id@, 0) == known_depth(
                depths.deep_view(),
                id@,
                index as int,
            ),
        decreases depths.len() - index,
    {
        assert(depths.deep_view()[index as int] == depths[index as int].deep_view());
        if same(&depths[index].0, id) {
            return Some(depths[index].1);
        }
        index = index + 1;
    }
    None
}

/// What is said of a package that depends on itself, directly or through others.
pub open spec fn local_cycle(id: Text) -> Messages {
    seq!["local package dependency cycle detected while materializing "@ + id]
}

/// The depths with that of one more package and, before it, those of the packages it depends
/// on. The ids in `visiting` are those of the packages on the way that led here; they are
/// distinct and local, so once there are as many as there are local packages every id is
/// among them.
pub open spec fn measured(
    catalog: Seq<PackageSpecView>,
    locals: Seq<ResolvedPackageView>,
    spec: PackageSpecView,
    visiting: Seq<Text>,
    depths: Seq<(Text, usize)>,
) -> Result<Seq<(Text, usize)>, Messages>
    decreases locals.len() - visiting.len(), 0nat,
{
    if spec.origin != PackageOrigin::Local || known_depth(depths, spec.id(), 0) is Some {
        Ok(depths)
    } else if visiting.contains(spec.id()) || visiting.len() >= locals.len() {
        Err(local_cycle(spec.id()))
    } else {
        match catalog::dependency_specs(catalog, spec) {
            Err(messages) => Err(messages),
            Ok(needed) => match measured_all(
                catalog,
                locals,
                needed,
                0,
                visiting.push(spec.id()),
                0,
                depths,
            ) {
                Err(messages) => Err(messages),
                Ok((depth, before)) => Ok(before.push((spec.id(), depth))),
            },
        }
    }
}

/// The least depth that is not below `depth` and above `known`.
pub open spec fn above(known: Option<usize>, depth: usize) -> usize {
    match known {
        Some(below) => if below + 1 > depth {
            (below + 1) as usize
        } else {
            depth
        },
        None => depth,
    }
}

/// The depth that the packages in `needed` from position `from` on lead to, where those before
/// lead to `depth`, and the depths with theirs among them. Only local packages count.
pub open spec fn measured_all(
    catalog: Seq<PackageSpecView>,
    locals: Seq<ResolvedPackageView>,
    needed: Seq<PackageSpecView>,
    from: int,
    visiting: Seq<Text>,
    depth: usize,
    depths: Seq<(Text, usize)>,
) -> Result<(usize, Seq<(Text, usize)>), Messages>
    decreases locals.len() - visiting.len(), (needed.len() - from + 1) as nat,
    when from <= needed.len()
{
    if from >= needed.len() {
        Ok((depth, depths))
    } else {
        match id_position(locals, needed[from].id(), 0) {
            None => measured_all(catalog, locals, needed, from + 1, visiting, depth, depths),
            Some(index) => match measured(
                catalog,
                locals,
                locals[index].spec,
                visiting,
                depths,
            ) {
                Err(messages) => Err(messages),
                Ok(next) => measured_all(
                    catalog,
                    locals,
                    needed,
                    from + 1,
                    visiting,
                    above(known_depth(next, locals[index].spec.id(), 0), depth),
                    next,
                ),
            },
        }
    }
}

pub fn compute_local_materialization_depth(
    catalog: &Vec<PackageSpec>,
    locals: &Vec<ResolvedPackage>,
    spec: &PackageSpec,
    visiting: &Vec<String>,
    depths: Vec<(String, usize)>,
) -> (result: Result<Vec<(String, usize)>, Failure>)
    requires
        depths_bounded(depths.deep_view()),
    ensures
        outcome(result) == measured(
            catalog.deep_view(),
            locals.deep_view(),
            spec.deep_view(),
            visiting.deep_view(),
            depths.deep_view(),
        ),
        result matches Ok(next) ==> depths_bounded(next.deep_view()) && depths.len() <= next.len(),
    decreases locals.len() - visiting.len(),
{
    let id = spec.package_id();
    if spec.origin != PackageOrigin::Local || find_depth(&depths, &id).is_some() {
        return Ok(depths);
    }
    if contains_text(visiting, &id) || visiting.len() >= locals.len() {
        return Err(
            failure(
                cat2("local package dependency cycle detected while materializing ", &id),
            ),
        );
    }
    let needed = resolve_dependency_specs(catalog, spec)?;
    let mut path = visiting.dup();
    put(&mut path, id.clone());
    assert(path.deep_view().len() == visiting.deep_view().len() + 1);
    let ghost start = depths.deep_view();
    let mut table = depths;
    let mut depth: usize = 0;
    let mut from: usize = 0;
    while from < needed.len()
        invariant
            visiting.len() < locals.len(),
            path.len() == visiting.len() + 1,
            from <= needed.len(),
            depths_bounded(table.deep_view()),
            depths.len() <= table.len(),
            depth <= table.len(),
            start == depths.deep_view(),
            id@ == spec.deep_view().id(),
            measured_all(
                catalog.deep_view(),
                locals.deep_view(),
                needed.deep_view(),
                0,
                path.deep_view(),
                0,
                start,
            ) == measured_all(
                catalog.deep_view(),
                locals.deep_view(),
                needed.deep_view(),
                from as int,
                path.deep_view(),
                depth,
                table.deep_view(),
            ),
            measured(
                catalog.deep_view(),
                locals.deep_view(),
                spec.deep_view(),
                visiting.deep_view(),
                start,
            ) == match measured_all(
                catalog.deep_view(),
                locals.deep_view(),
                needed.deep_view(),
                0,
                path.deep_view(),
                0,
                start,
            ) {
                Err(messages) => Err(messages),
                Ok((depth, before)) => Ok(before.push((spec.deep_view().id(), depth))),
            },
        decreases needed.len() - from,
    {
        assert(needed.deep_view()[from as int] == needed[from as int].deep_view());
        if let Some(index) = find_id(locals, &needed[from].package_id()) {
            assert(locals.deep_view()[index as int] == locals[index as int].deep_view());
            table = compute_local_materialization_depth(
                catalog,
                locals,
                &locals[index].spec,
                &path,
                table,
            )?;
            proof {
                lemma_known_depth_bound(
                    table.deep_view(),
                    locals[index as int].spec.deep_view().id(),
                    0,
                );
            }
            assert(table.deep_view().len() == table.len());
            if let Some(below) = find_depth(&table, &locals[index].spec.package_id()) {
                if below >= depth {
                    depth = below + 1;
                }
            }
        }
        from = from + 1;
    }
    assert(table.deep_view().len() == table.len());
    put(&mut table, (id, depth));
    assert(table.deep_view().len() == table.len());
    Ok(table)
}

/// The depths with those of the selected packages from position `from` on.
pub open spec fn measured_from(
    catalog: Seq<PackageSpecView>,
    locals: Seq<ResolvedPackageView>,
    selected: Seq<ResolvedPackageView>,
    from: int,
    depths: Seq<(Text, usize)>,
) -> Result<Seq<(Text, usize)>, Messages>
    decreases selected.len() - from,
{
    if from >= selected.len() {
        Ok(depths)
    } else {
        match measured(catalog, locals, selected[from].spec, Seq::empty(), depths) {
            Err(messages) => Err(messages),
            Ok(next) => measured_from(catalog, locals, selected, from + 1, next),
        }
    }
}

/// The first `count` local packages that have a given depth.
pub open spec fn layer_at(
    locals: Seq<ResolvedPackageView>,
    depths: Seq<(Text, usize)>,
    depth: usize,
    count: int,
) -> Seq<ResolvedPackageView>
    decreases count,
{
    if count <= 0 {
        Seq::empty()
    } else {
        let before = layer_at(locals, depths, depth, count - 1);
        if known_depth(depths, locals[count - 1].spec.id(), 0) == Some(depth) {
            before.push(locals[count - 1])
        } else {
            before
        }
    }
}

fn collect_layer(
    locals: &Vec<ResolvedPackage>,
    depths: &Vec<(String, usize)>,
    depth: usize,
) -> (layer: Vec<ResolvedPackage>)
    ensures
        layer.deep_view() == layer_at(
            locals.deep_view(),
            depths.deep_view(),
            depth,
            locals.len() as int,
        ),
{
    let mut layer: Vec<ResolvedPackage> = Vec::new();
    let mut count: usize = 0;
    assert(layer.deep_view() == Seq::<ResolvedPackageView>::empty());
    while count < locals.len()
        invariant
            count <= locals.len(),
            layer.deep_view() == layer_at(
                locals.deep_view(),
                depths.deep_view(),
                depth,
                count as int,
            ),
        decreases locals.len() - count,
    {
        assert(locals.deep_view()[count as int] == locals[count as int].deep_view());
        if let Some(known) = find_depth(depths, &locals[count].spec.package_id()) {
            if known == depth {
                put(&mut layer, locals[count].dup());
            }
        }
        count = count + 1;
    }
    layer
}

/// The packages of each depth from `depth` on, put behind `done`; a depth that no package has
/// makes no layer.
pub open spec fn layers_from(
    locals: Seq<ResolvedPackageView>,
    depths: Seq<(Text, usize)>,
    depth: int,
    done: Seq<Seq<ResolvedPackageView>>,
) -> Seq<Seq<ResolvedPackageView>>
    decreases depths.len() - depth,
{
    if depth >= depths.len() {
        done
    } else {
        let layer = layer_at(locals, depths, depth as usize, locals.len() as int);
        layers_from(
            locals,
            depths,
            depth + 1,
            if layer.len() == 0 {
                done
            } else {
                done.push(layer)
            },
        )
    }
}

/// The local packages in layers: those of one layer depend only on packages of the layers
/// before it and can be built side by side.
pub open spec fn layers_of(
    catalog: Seq<PackageSpecView>,
    selected: Seq<ResolvedPackageView>,
) -> Result<Seq<Seq<ResolvedPackageView>>, Messages> {
    let locals = local_packages(selected);
    match measured_from(catalog, locals, selected, 0, Seq::empty()) {
        Err(messages) => Err(messages),
        Ok(depths) => Ok(layers_from(locals, depths, 0, Seq::empty())),
    }
}

pub fn local_materialization_layers(
    catalog: &Vec<PackageSpec>,
    selected: &Vec<ResolvedPackage>,
) -> (result: Result<Vec<Vec<ResolvedPackage>>, Failure>)
    ensures
        outcome(result) == layers_of(catalog.deep_view(), selected.deep_view()),
{
    let locals = collect_local_packages(selected);
    let visiting: Vec<String> = Vec::new();
    let mut depths: Vec<(String, usize)> = Vec::new();
    let mut from: usize = 0;
    assert(visiting.deep_view() == Seq::<Text>::empty());
    assert(depths.deep_view() == Seq::<(Text, usize)>::empty());
    while from < selected.len()
        invariant
            from <= selected.len(),
            locals.deep_view() == local_packages(selected.deep_view()),
            visiting.deep_view() == Seq::<Text>::empty(),
            depths_bounded(depths.deep_view()),
            measured_from(
                catalog.deep_view(),
                locals.deep_view(),
                selected.deep_view(),
                0,
                Seq::empty(),
            ) == measured_from(
                catalog.deep_view(),
                locals.deep_view(),
                selected.deep_view(),
                from as int,
                depths.deep_view(),
            ),
        decreases selected.len() - from,
    {
        assert(selected.deep_view()[from as int] == selected[from as int].deep_view());
        depths = compute_local_materialization_depth(
            catalog,
            &locals,
            &selected[from].spec,
            &visiting,
            depths,
        )?;
        from = from + 1;
    }
    let mut layers: Vec<Vec<ResolvedPackage>> = Vec::new();
    let mut depth: usize = 0;
    assert(layers.deep_view() == Seq::<Seq<ResolvedPackageView>>::empty());
    while depth < depths.len()
        invariant
            depth <= depths.len(),
            layers_from(locals.deep_view(), depths.deep_view(), 0, Seq::empty()) == layers_from(
                locals.deep_view(),
                depths.deep_view(),
                depth as int,
                layers.deep_view(),
            ),
        decreases depths.len() - depth,
    {
        let layer = collect_layer(&locals, &depths, depth);
        assert(layer.deep_view().len() == layer.len());
        if layer.len() > 0 {
            put(&mut layers, layer);
        }
        depth = depth + 1;
    }
    Ok(layers)
}

/// Whether a package needs no new materialization: the last one put the same exports into the
/// same store from the same inputs, and they are still there.
pub open spec fn is_current(
    platform: HostPlatform,
    state: Option<MaterializationStateView>,
    exports: Option<ExportManifestView>,
    exports_present: bool,
    store_root: Text,
    depofile_hash: Text,
    build_key: Text,
) -> bool {
    match (state, exports) {
        (Some(state), Some(exports)) => {
            &&& exports_present
            &&& paths::same_path(platform, state.store_root, store_root)
            &&& paths::same_path(platform, exports.store_root, store_root)
            &&& state.depofile_hash == depofile_hash
            &&& state.build_key == build_key
        },
        _ => false,
    }
}

pub fn materialization_is_current(
    platform: HostPlatform,
    previous_state: &Option<MaterializationState>,
    previous_exports: &Option<ExportManifest>,
    exports_present: bool,
    canonical_store_root: &str,
    depofile_hash: &str,
    build_key: &str,
) -> (yes: bool)
    ensures
        yes == is_current(
            platform,
            previous_state.deep_view(),
            previous_exports.deep_view(),
            exports_present,
            canonical_store_root@,
            depofile_hash@,
            build_key@,
        ),
{
    match (previous_state, previous_exports) {
        (Some(state), Some(exports)) => exports_present && paths_equal(
            platform,
            &state.store_root,
            canonical_store_root,
        ) && paths_equal(platform, &exports.store_root, canonical_store_root) && same(
            &state.depofile_hash,
            depofile_hash,
        ) && same(&state.build_key, build_key),
        _ => false,
    }
}

/// The first `count` of the paths exported before that are not exported any more.
pub open spec fn stale_among(
    platform: HostPlatform,
    previous: Seq<Text>,
    current: Seq<Text>,
    count: int,
) -> Seq<Text>
    decreases count,
{
    if count <= 0 {
        Seq::empty()
    } else if paths::names_path(platform, current, previous[count - 1]) {
        stale_among(platform, previous, current, count - 1)
    } else {
        stale_among(platform, previous, current, count - 1).push(previous[count - 1])
    }
}

/// The paths of an earlier materialization that are to be removed: all of them where the store
/// has moved, else those that are not exported any more.
pub open spec fn stale_paths(
    platform: HostPlatform,
    previous: Option<ExportManifestView>,
    store_root: Text,
    current: Seq<Text>,
) -> Seq<Text> {
    match previous {
        None => Seq::empty(),
        Some(manifest) => if paths::same_path(platform, manifest.store_root, store_root) {
            stale_among(platform, manifest.paths, current, manifest.paths.len() as int)
        } else {
            manifest.paths
        },
    }
}

/// Lists the paths of an earlier materialization that are to be removed.
pub fn reconcile_export_manifest(
    platform: HostPlatform,
    previous: &Option<ExportManifest>,
    canonical_store_root: &str,
    current_paths: &Vec<String>,
) -> (stale: Vec<String>)
    ensures
        stale.deep_view() == stale_paths(
            platform,
            previous.deep_view(),
            canonical_store_root@,
            current_paths.deep_view(),
        ),
{
    let mut stale: Vec<String> = Vec::new();
    assert(stale.deep_view() == Seq::<Text>::empty());
    let manifest = match previous {
        None => {
            return stale;
        },
        Some(manifest) => manifest,
    };
    if !paths_equal(platform, &manifest.store_root, canonical_store_root) {
        return manifest.paths.dup();
    }
    let mut count: usize = 0;
    while count < manifest.paths.len()
        invariant
            count <= manifest.paths.len(),
            stale.deep_view() == stale_among(
                platform,
                manifest.paths.deep_view(),
                current_paths.deep_view(),
                count as int,
            ),
        decreases manifest.paths.len() - count,
    {
        assert(manifest.paths.deep_view()[count as int] == manifest.paths[count as int]@);
        if !contains_path(platform, current_paths, &manifest.paths[count]) {
            put(&mut stale, manifest.paths[count].clone());
        }
        count = count + 1;
    }
    stale
}

/// The position behind the last of the first `count` pairs whose name is not greater.
pub open spec fn pair_slot(pairs: Seq<(Text, Text)>, name: Text, count: int) -> int
    decreases count,
{
    if count <= 0 {
        0
    } else if text::text_order(pairs[count - 1].0, name) == Order::Greater {
        pair_slot(pairs, name, count - 1)
    } else {
        count
    }
}

/// The keys of the dependencies from position `from` on, each put in its place among `keys` by
/// the id of the package. `states` holds the build key of each local dependency, where it was
/// materialized; a built-in package stands for itself.
pub open spec fn keys_from(
    dependencies: Seq<PackageSpecView>,
    states: Seq<Option<Text>>,
    from: int,
    keys: Seq<(Text, Text)>,
) -> Result<Seq<(Text, Text)>, Messages>
    decreases dependencies.len() - from,
{
    if from >= dependencies.len() {
        Ok(keys)
    } else {
        let id = dependencies[from].id();
        let slot = pair_slot(keys, id, keys.len() as int);
        if dependencies[from].origin == PackageOrigin::Local {
            match states[from] {
                None => Err(
                    seq!["local dependency '"@ + id + "' is missing materialization state"@],
                ),
                Some(key) => keys_from(
                    dependencies,
                    states,
                    from + 1,
                    keys.insert(slot, (id, key)),
                ),
            }
        } else {
            keys_from(dependencies, states, from + 1, keys.insert(slot, (id, id)))
        }
    }
}

pub fn dependency_materialization_keys(
    dependencies: &Vec<PackageSpec>,
    states: &Vec<Option<String>>,
) -> (result: Result<Vec<(String, String)>, Failure>)
    requires
        dependencies.len() == states.len(),
    ensures
        outcome(result) == keys_from(
            dependencies.deep_view(),
            states.deep_view(),
            0,
            Seq::empty(),
        ),
{
    let mut keys: Vec<(String, String)> = Vec::new();
    let mut from: usize = 0;
    assert(keys.deep_view() == Seq::<(Text, Text)>::empty());
    while from < dependencies.len()
        invariant
            dependencies.len() == states.len(),
            from <= dependencies.len(),
            keys_from(dependencies.deep_view(), states.deep_view(), 0, Seq::empty()) == keys_from(
                dependencies.deep_view(),
                states.deep_view(),
                from as int,
                keys.deep_view(),
            ),
        decreases dependencies.len() - from,
    {
        assert(dependencies.deep_view()[from as int] == dependencies[from as int].deep_view());
        assert(states.deep_view()[from as int] == states[from as int].deep_view());
        let id = dependencies[from].package_id();
        let key = if dependencies[from].origin == PackageOrigin::Local {
            match &states[from] {
                Some(key) => key.clone(),
                None => {
                    return Err(
                        failure(
                            cat3(
                                "local dependency '",
                                &id,
                                "' is missing materialization state",
                            ),
                        ),
                    );
                },
            }
        } else {
            id.clone()
        };
        let ghost before = keys.deep_view();
        let mut slot: usize = keys.len();
        assert(before.len() == keys.len());
        while slot > 0 && order_texts(&keys[slot - 1].0, &id) == Order::Greater
            invariant
                slot <= keys.len(),
                before == keys.deep_view(),
                pair_slot(before, id@, before.len() as int) == pair_slot(before, id@, slot as int),
            decreases slot,
        {
            assert(before[slot - 1] == keys[slot - 1].deep_view());
            slot = slot - 1;
        }
        proof {
            if slot > 0 {
                assert(before[slot - 1] == keys[slot - 1].deep_view());
            }
        }
        keys.insert(slot, (id, key));
        assert(keys.deep_view() == before.insert(slot as int, (id@, key@)));
        from = from + 1;
    }
    Ok(keys)
}

/// What is known of a package before it is materialized.
#[derive(Clone, Debug, PartialEq, Eq)]
pub struct MaterializationEvidence {
    pub previous_state: Option<MaterializationState>,
    pub previous_exports: Option<ExportManifest>,
    pub exports_present: bool,
    /// The store root once links are followed.
    pub canonical_store_root: String,
    pub depofile_hash: String,
    pub provenance: SourceProvenance,
    pub dependency_keys: Vec<(String, String)>,
}

/// The model of [`MaterializationEvidence`].
pub struct MaterializationEvidenceView {
    pub previous_state: Option<MaterializationStateView>,
    pub previous_exports: Option<ExportManifestView>,
    pub exports_present: bool,
    pub canonical_store_root: Text,
    pub depofile_hash: Text,
    pub provenance: SourceProvenanceView,
    pub dependency_keys: Seq<(Text, Text)>,
}

impl DeepView for MaterializationEvidence {
    type V = MaterializationEvidenceView;

    open spec fn deep_view(&self) -> MaterializationEvidenceView {
        MaterializationEvidenceView {
            previous_state: self.previous_state.deep_view(),
            previous_exports: self.previous_exports.deep_view(),
            exports_present: self.exports_present,
            canonical_store_root: self.canonical_store_root@,
            depofile_hash: self.depofile_hash@,
            provenance: self.provenance.deep_view(),
            dependency_keys: self.dependency_keys.deep_view(),
        }
    }
}

/// What the files of a package depend on, as text.
pub open spec fn inputs_of(evidence: MaterializationEvidenceView) -> Text {
    digest::build_inputs(evidence.depofile_hash, evidence.provenance, evidence.dependency_keys)
}

/// Whether a package whose inputs have the key `build_key` needs no new materialization.
pub open spec fn current_under(
    platform: HostPlatform,
    evidence: MaterializationEvidenceView,
    build_key: Text,
) -> bool {
    is_current(
        platform,
        evidence.previous_state,
        evidence.previous_exports,
        evidence.exports_present,
        evidence.canonical_store_root,
        evidence.depofile_hash,
        build_key,
    )
}

/// Decides whether a package whose inputs have the key `build_key` needs no new materialization.
pub fn is_current_under(
    platform: HostPlatform,
    evidence: &MaterializationEvidence,
    build_key: &str,
) -> (yes: bool)
    ensures
        yes == current_under(platform, evidence.deep_view(), build_key@),
{
    materialization_is_current(
        platform,
        &evidence.previous_state,
        &evidence.previous_exports,
        evidence.exports_present,
        &evidence.canonical_store_root,
        &evidence.depofile_hash,
        build_key,
    )
}

/// Names the key of the inputs of a package and decides whether the package needs no new
/// materialization.
pub fn decide_materialization(
    platform: HostPlatform,
    evidence: &MaterializationEvidence,
) -> (decision: (String, bool))
    ensures
        decision.0@ == digest::sha256_hex(
            vstd::utf8::encode_utf8(inputs_of(evidence.deep_view())),
        ),
        decision.1 == current_under(platform, evidence.deep_view(), decision.0@),
{
    let build_key = materialization_build_key(
        &evidence.depofile_hash,
        &evidence.provenance,
        &evidence.dependency_keys,
    );
    let current = is_current_under(platform, evidence, &build_key);
    (build_key, current)
}

/// What a package that needed no new materialization is reported with.
pub open spec fn current_report(store_root: Text) -> Text {
    "materialization already up to date under "@ + store_root
}

pub fn report_up_to_date(store_root: &str) -> (message: String)
    ensures
        message@ == current_report(store_root@),
{
    cat2("materialization already up to date under ", store_root)
}

/// How a materialization ends: all exports have to be there.
pub open spec fn conclusion(store_root: Text, exports_present: bool) -> Result<Text, Messages> {
    if exports_present {
        Ok("all declared exports are present under "@ + store_root)
    } else {
        Err(
            seq![
                "materialization completed but declared exports are still missing under "@
                    + store_root,
            ],
        )
    }
}

pub fn conclude_materialization(store_root: &str, exports_present: bool) -> (result: Result<
    String,
    Failure,
>)
    ensures
        outcome(result) == conclusion(store_root@, exports_present),
{
    if exports_present {
        Ok(cat2("all declared exports are present under ", store_root))
    } else {
        Err(
            failure(
                cat2(
                    "materialization completed but declared exports are still missing under ",
                    store_root,
                ),
            ),
        )
    }
}

/// A failure together with the log of what led to it.
pub open spec fn failure_with_log(
    spec: PackageSpecView,
    log: Text,
    messages: Messages,
) -> Messages {
    seq!["materialization log for "@ + spec.id() + ":\n"@ + log] + messages
}

pub fn attach_materialization_log(spec: &PackageSpec, log: &str, inner: Failure) -> (outer: Failure)
    ensures
        outer.deep_view() == failure_with_log(spec.deep_view(), log@, inner.deep_view()),
{
    within(cat4("materialization log for ", &spec.package_id(), ":\n", log), inner)
}

/// The status of a package after a materialization: green with its report, or failed with the
/// outermost message.
pub open spec fn status_after(
    spec: PackageSpecView,
    depofile: Text,
    provenance: SourceProvenanceView,
    result: Result<Text, Messages>,
) -> PackageStatusView {
    let (state, message) = match result {
        Ok(report) => (PackageState::Green, report),
        Err(messages) => (
            PackageState::Failed,
            if messages.len() > 0 {
                messages[0]
            } else {
                ""@
            },
        ),
    };
    PackageStatusView {
        name: spec.name,
        namespace: spec.namespace,
        version: spec.version,
        lazy: spec.lazy,
        system_libs: spec.system_libs,
        state,
        depofile,
        message,
        source_ref: provenance.source_ref,
        source_commit: provenance.source_commit,
    }
}

pub fn materialization_status(
    spec: &PackageSpec,
    depofile: &str,
    provenance: &SourceProvenance,
    result: &Result<String, Failure>,
) -> (status: PackageStatus)
    ensures
        status.deep_view() == status_after(
            spec.deep_view(),
            depofile@,
            provenance.deep_view(),
            outcome(*result),
        ),
{
    let (state, message) = match result {
        Ok(report) => (PackageState::Green, report.dup()),
        Err(failure) => {
            assert(failure.deep_view().len() == failure.messages.len());
            if failure.messages.len() > 0 {
                assert(failure.deep_view()[0] == failure.messages[0]@);
                (PackageState::Failed, failure.messages[0].dup())
            } else {
                (PackageState::Failed, "".to_owned())
            }
        },
    };
    PackageStatus {
        name: spec.name.dup(),
        namespace: spec.namespace.dup(),
        version: spec.version.dup(),
        lazy: spec.lazy,
        system_libs: spec.system_libs,
        state,
        depofile: depofile.to_owned(),
        message,
        source_ref: provenance.source_ref.dup(),
        source_commit: provenance.source_commit.dup(),
    }
}

/// How the materialization of one package of a layer ended.
#[derive(Clone, Debug, PartialEq, Eq)]
pub enum WorkerOutcome {
    Done,
    Failed(Failure),
    Panicked,
}

/// The model of [`WorkerOutcome`].
pub enum WorkerOutcomeView {
    Done,
    Failed(Messages),
    Panicked,
}

impl DeepView for WorkerOutcome {
    type V = WorkerOutcomeView;

    open spec fn deep_view(&self) -> WorkerOutcomeView {
        match self {
            WorkerOutcome::Done => WorkerOutcomeView::Done,
            WorkerOutcome::Failed(failure) => WorkerOutcomeView::Failed(failure.deep_view()),
            WorkerOutcome::Panicked => WorkerOutcomeView::Panicked,
        }
    }
}

/// What the failure of one worker says of a layer.
pub open spec fn worker_failure(id: Text, outcome: WorkerOutcomeView) -> Option<Messages> {
    match outcome {
        WorkerOutcomeView::Done => None,
        WorkerOutcomeView::Failed(messages) => Some(
            seq!["failed to materialize "@ + id] + messages,
        ),
        WorkerOutcomeView::Panicked => Some(
            seq!["local materialization worker panicked for "@ + id],
        ),
    }
}

/// How a layer ended: with the first failure from position `from` on, in the order of the
/// packages.
pub open spec fn layer_outcome(
    ids: Seq<Text>,
    outcomes: Seq<WorkerOutcomeView>,
    from: int,
) -> Result<(), Messages>
    decreases ids.len() - from,
{
    if from >= ids.len() {
        Ok(())
    } else {
        match worker_failure(ids[from], outcomes[from]) {
            Some(messages) => Err(messages),
            None => layer_outcome(ids, outcomes, from + 1),
        }
    }
}

/// Gathers how the packages of a layer ended.
pub fn gather_layer_outcome(ids: &Vec<String>, outcomes: Vec<WorkerOutcome>) -> (result: Result<
    (),
    Failure,
>)
    requires
        ids.len() == outcomes.len(),
    ensures
        outcome(result) == layer_outcome(ids.deep_view(), outcomes.deep_view(), 0),
{
    let mut from: usize = 0;
    while from < ids.len()
        invariant
            ids.len() == outcomes.len(),
            from <= ids.len(),
            layer_outcome(ids.deep_view(), outcomes.deep_view(), 0) == layer_outcome(
                ids.deep_view(),
                outcomes.deep_view(),
                from as int,
            ),
        decreases ids.len() - from,
    {
        assert(ids.deep_view()[from as int] == ids[from as int]@);
        assert(outcomes.deep_view()[from as int] == outcomes[from as int].deep_view());
        match &outcomes[from] {
            WorkerOutcome::Done => {},
            WorkerOutcome::Failed(failure) => {
                let inner = Failure { messages: failure.messages.dup() };
                return Err(within(cat2("failed to materialize ", &ids[from]), inner));
            },
            WorkerOutcome::Panicked => {
                return Err(
                    failure(cat2("local materialization worker panicked for ", &ids[from])),
                );
            },
        }
        from = from + 1;
    }
    Ok(())
}

} // verus!
