//! What holds of the layers that packages are built in.

use vstd::prelude::*;
use crate::catalog;
use crate::failure::Messages;
use crate::materialize;
use crate::model::{PackageOrigin, PackageRequestView, PackageSpecView, Text};
use crate::names;
use crate::paths::HostPlatform;
use crate::resolve;
use crate::resolve::ResolvedPackageView;
use crate::resolve_laws;
use crate::text;
use crate::text::Order;
use crate::version;

verus! {

/// Whether no two packages have the same id.
pub open spec fn distinct_ids(packages: Seq<ResolvedPackageView>) -> bool {
    forall|i: int, j: int|
        0 <= i < j < packages.len() ==> (#[trigger] packages[i]).spec.id()
            != (#[trigger] packages[j]).spec.id()
}

/// Whether a package with a spec is among `locals`, and no other has its id.
spec fn represented(locals: Seq<ResolvedPackageView>, spec: PackageSpecView) -> bool {
    &&& exists|l: int| 0 <= l < locals.len() && (#[trigger] locals[l]).spec == spec
    &&& forall|l: int|
        0 <= l < locals.len() && (#[trigger] locals[l]).spec.id() == spec.id() ==> locals[l].spec
            == spec
}

/// Whether the package that is needed has a known depth below `depth`, if it is local.
spec fn lower(
    locals: Seq<ResolvedPackageView>,
    depths: Seq<(Text, usize)>,
    need: PackageSpecView,
    depth: usize,
) -> bool {
    match materialize::id_position(locals, need.id(), 0) {
        None => true,
        Some(x) => match materialize::known_depth(depths, locals[x].spec.id(), 0) {
            Some(below) => below < depth,
            None => false,
        },
    }
}

/// Whether all that is needed has known depths below `depth`, as far as it is local.
spec fn all_lower(
    locals: Seq<ResolvedPackageView>,
    depths: Seq<(Text, usize)>,
    needed: Seq<PackageSpecView>,
    depth: usize,
) -> bool {
    forall|k: int| 0 <= k < needed.len() ==> lower(locals, depths, #[trigger] needed[k], depth)
}

/// Whether all that a package needs has known depths below `depth`.
spec fn met(
    catalog: Seq<PackageSpecView>,
    locals: Seq<ResolvedPackageView>,
    depths: Seq<(Text, usize)>,
    spec: PackageSpecView,
    depth: usize,
) -> bool {
    match catalog::dependency_specs(catalog, spec) {
        Err(_) => true,
        Ok(needed) => all_lower(locals, depths, needed, depth),
    }
}

/// Whether every known depth is above those of what the package needs.
spec fn settled(
    catalog: Seq<PackageSpecView>,
    locals: Seq<ResolvedPackageView>,
    depths: Seq<(Text, usize)>,
) -> bool {
    forall|l: int|
        0 <= l < locals.len() ==> (materialize::known_depth(
            depths,
            (#[trigger] locals[l]).spec.id(),
            0,
        ) matches Some(depth) ==> met(catalog, locals, depths, locals[l].spec, depth))
}

/// Whether the ids of the depths are those of local packages, none twice, and the depths are
/// bounded.
spec fn orderly(locals: Seq<ResolvedPackageView>, depths: Seq<(Text, usize)>) -> bool {
    &&& materialize::depths_bounded(depths)
    &&& forall|i: int, j: int|
        0 <= i < j < depths.len() ==> (#[trigger] depths[i]).0 != (#[trigger] depths[j]).0
    &&& forall|i: int| 0 <= i < depths.len() ==> is_local_id(locals, (#[trigger] depths[i]).0)
}

/// Whether an id is that of a local package.
spec fn is_local_id(locals: Seq<ResolvedPackageView>, id: Text) -> bool {
    exists|l: int| 0 <= l < locals.len() && (#[trigger] locals[l]).spec.id() == id
}

/// Whether what was known stays known.
spec fn extends(depths: Seq<(Text, usize)>, next: Seq<(Text, usize)>) -> bool {
    forall|id: Text|
        materialize::known_depth(depths, id, 0) is Some ==> #[trigger] materialize::known_depth(
            next,
            id,
            0,
        ) == materialize::known_depth(depths, id, 0)
}

/// Whether nothing became known of the ids in `visiting`.
spec fn untouched(
    visiting: Seq<Text>,
    depths: Seq<(Text, usize)>,
    next: Seq<(Text, usize)>,
) -> bool {
    forall|v: int|
        0 <= v < visiting.len() ==> materialize::known_depth(next, #[trigger] visiting[v], 0)
            == materialize::known_depth(depths, visiting[v], 0)
}

proof fn lemma_known_pushed(
    depths: Seq<(Text, usize)>,
    entry: (Text, usize),
    id: Text,
    from: int,
)
    requires
        0 <= from <= depths.len(),
    ensures
        materialize::known_depth(depths.push(entry), id, from) == (
        match materialize::known_depth(depths, id, from) {
            Some(depth) => Some(depth),
            None => if entry.0 == id {
                Some(entry.1)
            } else {
                None
            },
        }),
    decreases depths.len() - from,
{
    let next = depths.push(entry);
    if from < depths.len() {
        assert(next[from] == depths[from]);
        if depths[from].0 != id {
            lemma_known_pushed(depths, entry, id, from + 1);
        }
    } else {
        assert(next[from] == entry);
        assert(materialize::known_depth(next, id, from + 1) is None);
    }
}

proof fn lemma_known_is_there(depths: Seq<(Text, usize)>, id: Text, from: int)
    requires
        0 <= from <= depths.len(),
    ensures
        materialize::known_depth(depths, id, from) matches Some(depth) ==> exists|i: int|
            from <= i < depths.len() && (#[trigger] depths[i]) == (id, depth),
        materialize::known_depth(depths, id, from) is None ==> forall|i: int|
            from <= i < depths.len() ==> (#[trigger] depths[i]).0 != id,
    decreases depths.len() - from,
{
    if from < depths.len() && depths[from].0 != id {
        lemma_known_is_there(depths, id, from + 1);
    } else if from < depths.len() {
        assert(depths[from] == (id, depths[from].1));
    }
}

proof fn lemma_position_is_there(packages: Seq<ResolvedPackageView>, id: Text, from: int)
    requires
        0 <= from <= packages.len(),
    ensures
        materialize::id_position(packages, id, from) matches Some(x) ==> from <= x < packages.len()
            && packages[x].spec.id() == id,
        materialize::id_position(packages, id, from) is None ==> forall|i: int|
            from <= i < packages.len() ==> (#[trigger] packages[i]).spec.id() != id,
    decreases packages.len() - from,
{
    if from < packages.len() && packages[from].spec.id() != id {
        lemma_position_is_there(packages, id, from + 1);
    }
}

/// There are no more depths than local packages.
proof fn lemma_orderly_length(locals: Seq<ResolvedPackageView>, depths: Seq<(Text, usize)>)
    requires
        orderly(locals, depths),
    ensures
        depths.len() <= locals.len(),
{
    let ids = depths.map_values(|entry: (Text, usize)| entry.0);
    let known = locals.map_values(|package: ResolvedPackageView| package.spec.id());
    assert(ids.no_duplicates()) by {
        assert forall|i: int, j: int| 0 <= i < ids.len() && 0 <= j < ids.len() && i != j implies
            ids[i] != ids[j] by {
            if i < j {
                assert(depths[i].0 != depths[j].0);
            } else {
                assert(depths[j].0 != depths[i].0);
            }
        }
    }
    ids.unique_seq_to_set();
    known.lemma_cardinality_of_set();
    assert(ids.to_set().subset_of(known.to_set())) by {
        assert forall|id: Text| ids.to_set().contains(id) implies known.to_set().contains(id) by {
            let i = choose|i: int| 0 <= i < ids.len() && ids[i] == id;
            assert(is_local_id(locals, depths[i].0));
            let l = choose|l: int|
                0 <= l < locals.len() && (#[trigger] locals[l]).spec.id() == depths[i].0;
            assert(known[l] == id);
        }
    }
    vstd::set_lib::lemma_len_subset(ids.to_set(), known.to_set());
}

proof fn lemma_lower_extends(
    locals: Seq<ResolvedPackageView>,
    depths: Seq<(Text, usize)>,
    next: Seq<(Text, usize)>,
    need: PackageSpecView,
    depth: usize,
    above: usize,
)
    requires
        lower(locals, depths, need, depth),
        extends(depths, next),
        depth <= above,
    ensures
        lower(locals, next, need, above),
{
    match materialize::id_position(locals, need.id(), 0) {
        None => {},
        Some(x) => {
            assert(materialize::known_depth(next, locals[x].spec.id(), 0)
                == materialize::known_depth(depths, locals[x].spec.id(), 0));
        },
    }
}

proof fn lemma_measured(
    catalog: Seq<PackageSpecView>,
    locals: Seq<ResolvedPackageView>,
    spec: PackageSpecView,
    visiting: Seq<Text>,
    depths: Seq<(Text, usize)>,
    next: Seq<(Text, usize)>,
)
    requires
        locals.len() <= usize::MAX,
        distinct_ids(locals),
        forall|l: int|
            0 <= l < locals.len() ==> (#[trigger] locals[l]).spec.origin == PackageOrigin::Local,
        spec.origin == PackageOrigin::Local ==> represented(locals, spec),
        settled(catalog, locals, depths),
        orderly(locals, depths),
        materialize::measured(catalog, locals, spec, visiting, depths) == Ok::<
            Seq<(Text, usize)>,
            Messages,
        >(next),
    ensures
        settled(catalog, locals, next),
        orderly(locals, next),
        extends(depths, next),
        untouched(visiting, depths, next),
        spec.origin == PackageOrigin::Local ==> materialize::known_depth(next, spec.id(), 0)
            is Some,
    decreases locals.len() - visiting.len(), 0nat,
{
    if spec.origin != PackageOrigin::Local || materialize::known_depth(depths, spec.id(), 0)
        is Some {
    } else {
        let needed = catalog::dependency_specs(catalog, spec)->Ok_0;
        let inner = visiting.push(spec.id());
        let (depth, before) = materialize::measured_all(
            catalog,
            locals,
            needed,
            0,
            inner,
            0,
            depths,
        )->Ok_0;
        lemma_measured_all(catalog, locals, needed, 0, inner, 0, depths, depth, before);
        let entry = (spec.id(), depth);
        assert(next == before.push(entry));
        assert(inner[visiting.len() as int] == spec.id());
        assert(materialize::known_depth(before, spec.id(), 0) is None);
        assert forall|id: Text| materialize::known_depth(depths, id, 0) is Some implies
            #[trigger] materialize::known_depth(next, id, 0) == materialize::known_depth(
            depths,
            id,
            0,
        ) by {
            lemma_known_pushed(before, entry, id, 0);
            assert(materialize::known_depth(before, id, 0) == materialize::known_depth(
                depths,
                id,
                0,
            ));
        }
        assert(extends(before, next)) by {
            assert forall|id: Text| materialize::known_depth(before, id, 0) is Some implies
                #[trigger] materialize::known_depth(next, id, 0) == materialize::known_depth(
                before,
                id,
                0,
            ) by {
                lemma_known_pushed(before, entry, id, 0);
            }
        }
        assert(untouched(visiting, depths, next)) by {
            assert forall|v: int| 0 <= v < visiting.len() implies materialize::known_depth(
                next,
                #[trigger] visiting[v],
                0,
            ) == materialize::known_depth(depths, visiting[v], 0) by {
                assert(inner[v] == visiting[v]);
                lemma_known_pushed(before, entry, visiting[v], 0);
                assert(visiting[v] != spec.id()) by {
                    if visiting[v] == spec.id() {
                        assert(visiting.contains(spec.id()));
                    }
                }
            }
        }
        lemma_known_pushed(before, entry, spec.id(), 0);
        lemma_known_is_there(before, spec.id(), 0);
        assert(orderly(locals, next)) by {
            let l = choose|l: int| 0 <= l < locals.len() && (#[trigger] locals[l]).spec == spec;
            assert(locals[l].spec.id() == spec.id());
            assert(is_local_id(locals, spec.id()));
            assert forall|i: int, j: int| 0 <= i < j < next.len() implies (#[trigger] next[i]).0
                != (#[trigger] next[j]).0 by {
                if j < before.len() {
                    assert(next[i] == before[i] && next[j] == before[j]);
                } else {
                    assert(next[i] == before[i]);
                }
            }
            assert forall|i: int| 0 <= i < next.len() implies is_local_id(
                locals,
                (#[trigger] next[i]).0,
            ) by {
                if i < before.len() {
                    assert(next[i] == before[i]);
                }
            }
            assert forall|i: int| 0 <= i < next.len() implies (#[trigger] next[i]).1 <= i by {
                if i < before.len() {
                    assert(next[i] == before[i]);
                }
            }
        }
        assert(settled(catalog, locals, next)) by {
            assert forall|l: int| 0 <= l < locals.len() implies (materialize::known_depth(
                next,
                (#[trigger] locals[l]).spec.id(),
                0,
            ) matches Some(known) ==> met(catalog, locals, next, locals[l].spec, known)) by {
                let other = locals[l].spec;
                lemma_known_pushed(before, entry, other.id(), 0);
                if let Some(known) = materialize::known_depth(next, other.id(), 0) {
                    if materialize::known_depth(before, other.id(), 0) is Some {
                        assert(met(catalog, locals, before, other, known));
                    } else {
                        assert(other == spec);
                    }
                    if let Ok(wanted) = catalog::dependency_specs(catalog, other) {
                        assert forall|k: int| 0 <= k < wanted.len() implies lower(
                            locals,
                            next,
                            #[trigger] wanted[k],
                            known,
                        ) by {
                            lemma_lower_extends(locals, before, next, wanted[k], known, known);
                        }
                    }
                }
            }
        }
    }
}

proof fn lemma_measured_all(
    catalog: Seq<PackageSpecView>,
    locals: Seq<ResolvedPackageView>,
    needed: Seq<PackageSpecView>,
    from: int,
    visiting: Seq<Text>,
    depth: usize,
    depths: Seq<(Text, usize)>,
    result: usize,
    next: Seq<(Text, usize)>,
)
    requires
        locals.len() <= usize::MAX,
        distinct_ids(locals),
        forall|l: int|
            0 <= l < locals.len() ==> (#[trigger] locals[l]).spec.origin == PackageOrigin::Local,
        settled(catalog, locals, depths),
        orderly(locals, depths),
        0 <= from <= needed.len(),
        depth <= depths.len(),
        materialize::measured_all(catalog, locals, needed, from, visiting, depth, depths) == Ok::<
            (usize, Seq<(Text, usize)>),
            Messages,
        >((result, next)),
    ensures
        settled(catalog, locals, next),
        orderly(locals, next),
        extends(depths, next),
        untouched(visiting, depths, next),
        depth <= result <= next.len(),
        depths.len() <= next.len(),
        forall|k: int|
            from <= k < needed.len() ==> lower(locals, next, #[trigger] needed[k], result),
    decreases locals.len() - visiting.len(), (needed.len() - from + 1) as nat,
{
    if from < needed.len() {
        lemma_position_is_there(locals, needed[from].id(), 0);
        match materialize::id_position(locals, needed[from].id(), 0) {
            None => {
                lemma_measured_all(
                    catalog,
                    locals,
                    needed,
                    from + 1,
                    visiting,
                    depth,
                    depths,
                    result,
                    next,
                );
                assert(lower(locals, next, needed[from], result));
            },
            Some(index) => {
                let spec = locals[index].spec;
                let middle = materialize::measured(
                    catalog,
                    locals,
                    spec,
                    visiting,
                    depths,
                )->Ok_0;
                assert(represented(locals, spec)) by {
                    assert forall|l: int|
                        0 <= l < locals.len() && (#[trigger] locals[l]).spec.id()
                            == spec.id() implies locals[l].spec == spec by {
                        if l < index {
                            assert(locals[l].spec.id() != locals[index].spec.id());
                        } else if index < l {
                            assert(locals[index].spec.id() != locals[l].spec.id());
                        }
                    }
                }
                lemma_measured(catalog, locals, spec, visiting, depths, middle);
                lemma_measured_grows(catalog, locals, spec, visiting, depths, middle);
                let known = materialize::known_depth(middle, spec.id(), 0);
                lemma_known_is_there(middle, spec.id(), 0);
                lemma_orderly_length(locals, middle);
                let below = known->Some_0;
                let at = choose|i: int|
                    0 <= i < middle.len() && (#[trigger] middle[i]) == (spec.id(), below);
                assert(middle[at].1 <= at);
                assert(below < middle.len());
                let raised = materialize::above(known, depth);
                assert(raised > below && raised >= depth);
                assert(lower(locals, middle, needed[from], raised));
                lemma_measured_all(
                    catalog,
                    locals,
                    needed,
                    from + 1,
                    visiting,
                    raised,
                    middle,
                    result,
                    next,
                );
                lemma_lower_extends(locals, middle, next, needed[from], raised, result);
                assert forall|id: Text| materialize::known_depth(depths, id, 0) is Some implies
                    #[trigger] materialize::known_depth(next, id, 0) == materialize::known_depth(
                    depths,
                    id,
                    0,
                ) by {
                    assert(materialize::known_depth(middle, id, 0) == materialize::known_depth(
                        depths,
                        id,
                        0,
                    ));
                }
                assert(untouched(visiting, depths, next)) by {
                    assert forall|v: int| 0 <= v < visiting.len() implies materialize::known_depth(
                        next,
                        #[trigger] visiting[v],
                        0,
                    ) == materialize::known_depth(depths, visiting[v], 0) by {
                        assert(materialize::known_depth(middle, visiting[v], 0)
                            == materialize::known_depth(depths, visiting[v], 0));
                    }
                }
            },
        }
        assert forall|k: int| from <= k < needed.len() implies lower(
            locals,
            next,
            #[trigger] needed[k],
            result,
        ) by {
            if k == from {
            }
        }
    }
}

/// Measuring a package forgets nothing.
proof fn lemma_measured_grows(
    catalog: Seq<PackageSpecView>,
    locals: Seq<ResolvedPackageView>,
    spec: PackageSpecView,
    visiting: Seq<Text>,
    depths: Seq<(Text, usize)>,
    next: Seq<(Text, usize)>,
)
    requires
        materialize::measured(catalog, locals, spec, visiting, depths) == Ok::<
            Seq<(Text, usize)>,
            Messages,
        >(next),
    ensures
        depths.len() <= next.len(),
    decreases locals.len() - visiting.len(), 0nat,
{
    if spec.origin != PackageOrigin::Local || materialize::known_depth(depths, spec.id(), 0)
        is Some {
    } else {
        let needed = catalog::dependency_specs(catalog, spec)->Ok_0;
        let inner = visiting.push(spec.id());
        let before = (materialize::measured_all(
            catalog,
            locals,
            needed,
            0,
            inner,
            0,
            depths,
        )->Ok_0).1;
        lemma_measured_all_grows(catalog, locals, needed, 0, inner, 0, depths, before);
    }
}

proof fn lemma_measured_all_grows(
    catalog: Seq<PackageSpecView>,
    locals: Seq<ResolvedPackageView>,
    needed: Seq<PackageSpecView>,
    from: int,
    visiting: Seq<Text>,
    depth: usize,
    depths: Seq<(Text, usize)>,
    next: Seq<(Text, usize)>,
)
    requires
        0 <= from <= needed.len(),
        materialize::measured_all(catalog, locals, needed, from, visiting, depth, depths)
            matches Ok(pair) && pair.1 == next,
    ensures
        depths.len() <= next.len(),
    decreases locals.len() - visiting.len(), (needed.len() - from + 1) as nat,
{
    if from < needed.len() {
        match materialize::id_position(locals, needed[from].id(), 0) {
            None => {
                lemma_measured_all_grows(
                    catalog,
                    locals,
                    needed,
                    from + 1,
                    visiting,
                    depth,
                    depths,
                    next,
                );
            },
            Some(index) => {
                let spec = locals[index].spec;
                let middle = materialize::measured(
                    catalog,
                    locals,
                    spec,
                    visiting,
                    depths,
                )->Ok_0;
                lemma_measured_grows(catalog, locals, spec, visiting, depths, middle);
                lemma_measured_all_grows(
                    catalog,
                    locals,
                    needed,
                    from + 1,
                    visiting,
                    materialize::above(materialize::known_depth(middle, spec.id(), 0), depth),
                    middle,
                    next,
                );
            },
        }
    }
}

/// The local packages are those among the selected ones that are built here.
proof fn lemma_local_packages(selected: Seq<ResolvedPackageView>)
    requires
        distinct_ids(selected),
    ensures
        forall|l: int|
            0 <= l < materialize::local_packages(selected).len() ==> selected.contains(
                #[trigger] materialize::local_packages(selected)[l],
            ) && materialize::local_packages(selected)[l].spec.origin == PackageOrigin::Local,
        forall|i: int|
            0 <= i < selected.len() && (#[trigger] selected[i]).spec.origin
                == PackageOrigin::Local ==> materialize::local_packages(selected).contains(
                selected[i],
            ),
        distinct_ids(materialize::local_packages(selected)),
        materialize::local_packages(selected).len() <= selected.len(),
    decreases selected.len(),
{
    if selected.len() > 0 {
        let rest = selected.drop_last();
        let last = selected.last();
        let before = materialize::local_packages(rest);
        let all = materialize::local_packages(selected);
        assert(distinct_ids(rest)) by {
            assert forall|i: int, j: int| 0 <= i < j < rest.len() implies (#[trigger] rest[i]).spec.id()
                != (#[trigger] rest[j]).spec.id() by {
                assert(rest[i] == selected[i] && rest[j] == selected[j]);
            }
        }
        lemma_local_packages(rest);
        assert forall|l: int| 0 <= l < before.len() implies (#[trigger] before[l]).spec.id()
            != last.spec.id() && selected.contains(before[l]) by {
            let i = choose|i: int| 0 <= i < rest.len() && rest[i] == before[l];
            assert(selected[i] == before[l]);
            assert(selected[i].spec.id() != selected[selected.len() - 1].spec.id());
        }
        if last.spec.origin == PackageOrigin::Local {
            let slot = materialize::id_slot(before, last.spec.id(), 0);
            lemma_slot_in_range(before, last.spec.id(), 0);
            assert(all == before.insert(slot, last));
            assert forall|l: int| 0 <= l < all.len() implies selected.contains(#[trigger] all[l])
                && all[l].spec.origin == PackageOrigin::Local by {
                if l < slot {
                    assert(all[l] == before[l]);
                } else if l == slot {
                    assert(selected[selected.len() - 1] == last);
                } else {
                    assert(all[l] == before[l - 1]);
                }
            }
            assert forall|i: int, j: int| 0 <= i < j < all.len() implies (#[trigger] all[i]).spec.id()
                != (#[trigger] all[j]).spec.id() by {
                let a = if i < slot {
                    i
                } else {
                    i - 1
                };
                let b = if j < slot {
                    j
                } else {
                    j - 1
                };
                if i == slot {
                    assert(all[j] == before[b]);
                } else if j == slot {
                    assert(all[i] == before[a]);
                } else {
                    assert(all[i] == before[a] && all[j] == before[b]);
                }
            }
            assert forall|i: int|
                0 <= i < selected.len() && (#[trigger] selected[i]).spec.origin
                    == PackageOrigin::Local implies all.contains(selected[i]) by {
                if i == selected.len() - 1 {
                    assert(all[slot] == last);
                } else {
                    assert(rest[i] == selected[i]);
                    let l = choose|l: int| 0 <= l < before.len() && before[l] == rest[i];
                    if l < slot {
                        assert(all[l] == before[l]);
                    } else {
                        assert(all[l + 1] == before[l]);
                    }
                }
            }
        } else {
            assert forall|i: int|
                0 <= i < selected.len() && (#[trigger] selected[i]).spec.origin
                    == PackageOrigin::Local implies all.contains(selected[i]) by {
                assert(rest[i] == selected[i]);
            }
        }
    }
}

proof fn lemma_slot_in_range(packages: Seq<ResolvedPackageView>, id: Text, from: int)
    requires
        0 <= from <= packages.len(),
    ensures
        from <= materialize::id_slot(packages, id, from) <= packages.len(),
    decreases packages.len() - from,
{
    if from < packages.len() {
        lemma_slot_in_range(packages, id, from + 1);
    }
}

proof fn lemma_measured_from(
    catalog: Seq<PackageSpecView>,
    selected: Seq<ResolvedPackageView>,
    from: int,
    depths: Seq<(Text, usize)>,
    next: Seq<(Text, usize)>,
)
    requires
        selected.len() <= usize::MAX,
        distinct_ids(selected),
        0 <= from <= selected.len(),
        settled(catalog, materialize::local_packages(selected), depths),
        orderly(materialize::local_packages(selected), depths),
        materialize::measured_from(
            catalog,
            materialize::local_packages(selected),
            selected,
            from,
            depths,
        ) == Ok::<Seq<(Text, usize)>, Messages>(next),
    ensures
        settled(catalog, materialize::local_packages(selected), next),
        orderly(materialize::local_packages(selected), next),
        extends(depths, next),
        forall|i: int|
            from <= i < selected.len() && (#[trigger] selected[i]).spec.origin
                == PackageOrigin::Local ==> materialize::known_depth(
                next,
                selected[i].spec.id(),
                0,
            ) is Some,
    decreases selected.len() - from,
{
    let locals = materialize::local_packages(selected);
    if from < selected.len() {
        lemma_local_packages(selected);
        let spec = selected[from].spec;
        let middle = materialize::measured(
            catalog,
            locals,
            spec,
            Seq::empty(),
            depths,
        )->Ok_0;
        if spec.origin == PackageOrigin::Local {
            assert(represented(locals, spec)) by {
                let l = choose|l: int| 0 <= l < locals.len() && locals[l] == selected[from];
                assert(locals[l].spec == spec);
                assert forall|m: int|
                    0 <= m < locals.len() && (#[trigger] locals[m]).spec.id()
                        == spec.id() implies locals[m].spec == spec by {
                    if m < l {
                        assert(locals[m].spec.id() != locals[l].spec.id());
                    } else if l < m {
                        assert(locals[l].spec.id() != locals[m].spec.id());
                    }
                }
            }
        }
        lemma_measured(catalog, locals, spec, Seq::empty(), depths, middle);
        lemma_measured_from(catalog, selected, from + 1, middle, next);
        assert forall|id: Text| materialize::known_depth(depths, id, 0) is Some implies
            #[trigger] materialize::known_depth(next, id, 0) == materialize::known_depth(
            depths,
            id,
            0,
        ) by {
            assert(materialize::known_depth(middle, id, 0) == materialize::known_depth(
                depths,
                id,
                0,
            ));
        }
        assert forall|i: int|
            from <= i < selected.len() && (#[trigger] selected[i]).spec.origin
                == PackageOrigin::Local implies materialize::known_depth(
            next,
            selected[i].spec.id(),
            0,
        ) is Some by {
            if i == from {
                assert(materialize::known_depth(next, spec.id(), 0)
                    == materialize::known_depth(middle, spec.id(), 0));
            }
        }
    }
}

/// A layer holds the local packages of its depth and no other.
proof fn lemma_layer_members(
    locals: Seq<ResolvedPackageView>,
    depths: Seq<(Text, usize)>,
    depth: usize,
    count: int,
)
    requires
        0 <= count <= locals.len(),
    ensures
        forall|a: int|
            0 <= a < materialize::layer_at(locals, depths, depth, count).len() ==> locals.contains(
                #[trigger] materialize::layer_at(locals, depths, depth, count)[a],
            ) && materialize::known_depth(
                depths,
                materialize::layer_at(locals, depths, depth, count)[a].spec.id(),
                0,
            ) == Some(depth),
        forall|l: int|
            0 <= l < count && materialize::known_depth(depths, (#[trigger] locals[l]).spec.id(), 0)
                == Some(depth) ==> materialize::layer_at(locals, depths, depth, count).contains(
                locals[l],
            ),
    decreases count,
{
    if count > 0 {
        lemma_layer_members(locals, depths, depth, count - 1);
        let before = materialize::layer_at(locals, depths, depth, count - 1);
        let layer = materialize::layer_at(locals, depths, depth, count);
        assert forall|a: int| 0 <= a < layer.len() implies locals.contains(#[trigger] layer[a])
            && materialize::known_depth(depths, layer[a].spec.id(), 0) == Some(depth) by {
            if a < before.len() {
                assert(layer[a] == before[a]);
            } else {
                assert(layer[a] == locals[count - 1]);
            }
        }
        assert forall|l: int|
            0 <= l < count && materialize::known_depth(depths, (#[trigger] locals[l]).spec.id(), 0)
                == Some(depth) implies layer.contains(locals[l]) by {
            if l < count - 1 {
                let a = choose|a: int| 0 <= a < before.len() && before[a] == locals[l];
                assert(layer[a] == locals[l]);
            } else {
                assert(layer[before.len() as int] == locals[l]);
            }
        }
    }
}

/// What was put into layers stays there.
proof fn lemma_layers_keep(
    locals: Seq<ResolvedPackageView>,
    depths: Seq<(Text, usize)>,
    depth: int,
    done: Seq<Seq<ResolvedPackageView>>,
)
    ensures
        materialize::layers_from(locals, depths, depth, done).len() >= done.len(),
        forall|i: int|
            0 <= i < done.len() ==> (#[trigger] materialize::layers_from(
                locals,
                depths,
                depth,
                done,
            )[i]) == done[i],
    decreases depths.len() - depth,
{
    if depth < depths.len() {
        let layer = materialize::layer_at(locals, depths, depth as usize, locals.len() as int);
        let grown = if layer.len() == 0 {
            done
        } else {
            done.push(layer)
        };
        lemma_layers_keep(locals, depths, depth + 1, grown);
        let layers = materialize::layers_from(locals, depths, depth, done);
        assert forall|i: int| 0 <= i < done.len() implies (#[trigger] layers[i]) == done[i] by {
            assert(grown[i] == done[i]);
            assert(materialize::layers_from(locals, depths, depth + 1, grown)[i] == grown[i]);
        }
    }
}

/// A package of a lower depth stands in an earlier layer.
proof fn lemma_lower_is_earlier(
    locals: Seq<ResolvedPackageView>,
    depths: Seq<(Text, usize)>,
    depth: int,
    done: Seq<Seq<ResolvedPackageView>>,
    at: int,
    package: ResolvedPackageView,
    other: ResolvedPackageView,
) -> (earlier: int)
    requires
        0 <= depth,
        depths.len() <= usize::MAX,
        locals.contains(other),
        done.len() <= at < materialize::layers_from(locals, depths, depth, done).len(),
        materialize::layers_from(locals, depths, depth, done)[at].contains(package),
        materialize::known_depth(depths, package.spec.id(), 0) matches Some(high)
            && materialize::known_depth(depths, other.spec.id(), 0) matches Some(low)
            && depth <= low < high && low < depths.len(),
    ensures
        done.len() <= earlier < at,
        materialize::layers_from(locals, depths, depth, done)[earlier].contains(other),
    decreases depths.len() - depth,
{
    let layers = materialize::layers_from(locals, depths, depth, done);
    let high = materialize::known_depth(depths, package.spec.id(), 0)->Some_0;
    let low = materialize::known_depth(depths, other.spec.id(), 0)->Some_0;
    let layer = materialize::layer_at(locals, depths, depth as usize, locals.len() as int);
    let grown = if layer.len() == 0 {
        done
    } else {
        done.push(layer)
    };
    lemma_layer_members(locals, depths, depth as usize, locals.len() as int);
    lemma_layers_keep(locals, depths, depth + 1, grown);
    if layer.len() > 0 {
        assert(layers[done.len() as int] == layer) by {
            assert(grown[done.len() as int] == layer);
        }
        assert(at != done.len()) by {
            if at == done.len() {
                let a = choose|a: int| 0 <= a < layer.len() && layer[a] == package;
                assert(materialize::known_depth(depths, layer[a].spec.id(), 0) == Some(
                    depth as usize,
                ));
            }
        }
    }
    if depth == low {
        let l = choose|l: int| 0 <= l < locals.len() && locals[l] == other;
        assert(materialize::known_depth(depths, locals[l].spec.id(), 0) == Some(depth as usize));
        assert(layer.contains(locals[l]));
        done.len() as int
    } else {
        lemma_lower_is_earlier(locals, depths, depth + 1, grown, at, package, other)
    }
}

/// A local package with a known depth stands in a layer.
proof fn lemma_known_stands_in_a_layer(
    locals: Seq<ResolvedPackageView>,
    depths: Seq<(Text, usize)>,
    depth: int,
    done: Seq<Seq<ResolvedPackageView>>,
    package: ResolvedPackageView,
) -> (at: int)
    requires
        0 <= depth,
        depths.len() <= usize::MAX,
        locals.contains(package),
        materialize::known_depth(depths, package.spec.id(), 0) matches Some(known) && depth
            <= known < depths.len(),
    ensures
        done.len() <= at < materialize::layers_from(locals, depths, depth, done).len(),
        materialize::layers_from(locals, depths, depth, done)[at].contains(package),
    decreases depths.len() - depth,
{
    let known = materialize::known_depth(depths, package.spec.id(), 0)->Some_0;
    let layer = materialize::layer_at(locals, depths, depth as usize, locals.len() as int);
    let grown = if layer.len() == 0 {
        done
    } else {
        done.push(layer)
    };
    lemma_layer_members(locals, depths, depth as usize, locals.len() as int);
    lemma_layers_keep(locals, depths, depth + 1, grown);
    if depth == known {
        let l = choose|l: int| 0 <= l < locals.len() && locals[l] == package;
        assert(materialize::known_depth(depths, locals[l].spec.id(), 0) == Some(depth as usize));
        assert(layer.contains(locals[l]));
        assert(grown[done.len() as int] == layer);
        done.len() as int
    } else {
        lemma_known_stands_in_a_layer(locals, depths, depth + 1, grown, package)
    }
}

/// What stands in a layer is a local package with a known depth.
proof fn lemma_members_are_local(
    locals: Seq<ResolvedPackageView>,
    depths: Seq<(Text, usize)>,
    depth: int,
    done: Seq<Seq<ResolvedPackageView>>,
    at: int,
    member: int,
)
    requires
        0 <= depth,
        depths.len() <= usize::MAX,
        done.len() <= at < materialize::layers_from(locals, depths, depth, done).len(),
        0 <= member < materialize::layers_from(locals, depths, depth, done)[at].len(),
    ensures
        locals.contains(materialize::layers_from(locals, depths, depth, done)[at][member]),
        materialize::known_depth(
            depths,
            materialize::layers_from(locals, depths, depth, done)[at][member].spec.id(),
            0,
        ) is Some,
    decreases depths.len() - depth,
{
    let layer = materialize::layer_at(locals, depths, depth as usize, locals.len() as int);
    let grown = if layer.len() == 0 {
        done
    } else {
        done.push(layer)
    };
    lemma_layers_keep(locals, depths, depth + 1, grown);
    if depth < depths.len() {
        if at == done.len() && layer.len() > 0 {
            lemma_layer_members(locals, depths, depth as usize, locals.len() as int);
            assert(grown[at] == layer);
        } else {
            lemma_members_are_local(locals, depths, depth + 1, grown, at, member);
        }
    }
}

/// The depths of the selected packages, with what holds of them.
proof fn lemma_depths_of_selected(
    catalog: Seq<PackageSpecView>,
    selected: Seq<ResolvedPackageView>,
) -> (depths: Seq<(Text, usize)>)
    requires
        selected.len() <= usize::MAX,
        distinct_ids(selected),
        materialize::layers_of(catalog, selected) is Ok,
    ensures
        materialize::layers_of(catalog, selected) == Ok::<
            Seq<Seq<ResolvedPackageView>>,
            Messages,
        >(
            materialize::layers_from(
                materialize::local_packages(selected),
                depths,
                0,
                Seq::empty(),
            ),
        ),
        settled(catalog, materialize::local_packages(selected), depths),
        orderly(materialize::local_packages(selected), depths),
        depths.len() <= usize::MAX,
        forall|i: int|
            0 <= i < selected.len() && (#[trigger] selected[i]).spec.origin
                == PackageOrigin::Local ==> materialize::known_depth(
                depths,
                selected[i].spec.id(),
                0,
            ) is Some,
{
    let locals = materialize::local_packages(selected);
    let depths = materialize::measured_from(catalog, locals, selected, 0, Seq::empty())->Ok_0;
    lemma_measured_from(catalog, selected, 0, Seq::empty(), depths);
    lemma_local_packages(selected);
    lemma_orderly_length(locals, depths);
    depths
}

/// Whatever a local package depends on is built in an earlier layer, if it is built here.
pub proof fn lemma_dependencies_are_built_first(
    catalog: Seq<PackageSpecView>,
    selected: Seq<ResolvedPackageView>,
    layers: Seq<Seq<ResolvedPackageView>>,
    at: int,
    member: int,
    needed: Seq<PackageSpecView>,
    need: int,
    found: int,
)
    requires
        selected.len() <= usize::MAX,
        distinct_ids(selected),
        materialize::layers_of(catalog, selected) == Ok::<
            Seq<Seq<ResolvedPackageView>>,
            Messages,
        >(layers),
        0 <= at < layers.len(),
        0 <= member < layers[at].len(),
        catalog::dependency_specs(catalog, layers[at][member].spec) == Ok::<
            Seq<PackageSpecView>,
            Messages,
        >(needed),
        0 <= need < needed.len(),
        materialize::id_position(
            materialize::local_packages(selected),
            needed[need].id(),
            0,
        ) == Some(found),
    ensures
        exists|earlier: int|
            0 <= earlier < at && (#[trigger] layers[earlier]).contains(
                materialize::local_packages(selected)[found],
            ),
{
    let locals = materialize::local_packages(selected);
    let depths = lemma_depths_of_selected(catalog, selected);
    let package = layers[at][member];
    lemma_members_are_local(locals, depths, 0, Seq::empty(), at, member);
    lemma_position_is_there(locals, needed[need].id(), 0);
    let l = choose|l: int| 0 <= l < locals.len() && locals[l] == package;
    let high = materialize::known_depth(depths, package.spec.id(), 0)->Some_0;
    assert(materialize::known_depth(depths, locals[l].spec.id(), 0) == Some(high));
    assert(met(catalog, locals, depths, locals[l].spec, high));
    assert(all_lower(locals, depths, needed, high));
    assert(lower(locals, depths, needed[need], high));
    lemma_known_is_there(depths, package.spec.id(), 0);
    let i = choose|i: int|
        0 <= i < depths.len() && (#[trigger] depths[i]) == (package.spec.id(), high);
    assert(depths[i].1 <= i);
    let earlier = lemma_lower_is_earlier(
        locals,
        depths,
        0,
        Seq::empty(),
        at,
        package,
        locals[found],
    );
    assert(layers[earlier].contains(locals[found]));
}

/// Every selected package that is built here stands in a layer.
pub proof fn lemma_layers_hold_all_local_packages(
    catalog: Seq<PackageSpecView>,
    selected: Seq<ResolvedPackageView>,
    layers: Seq<Seq<ResolvedPackageView>>,
    index: int,
)
    requires
        selected.len() <= usize::MAX,
        distinct_ids(selected),
        materialize::layers_of(catalog, selected) == Ok::<
            Seq<Seq<ResolvedPackageView>>,
            Messages,
        >(layers),
        0 <= index < selected.len(),
        selected[index].spec.origin == PackageOrigin::Local,
    ensures
        exists|at: int|
            0 <= at < layers.len() && (#[trigger] layers[at]).contains(selected[index]),
{
    let locals = materialize::local_packages(selected);
    let depths = lemma_depths_of_selected(catalog, selected);
    lemma_local_packages(selected);
    let package = selected[index];
    lemma_known_is_there(depths, package.spec.id(), 0);
    let known = materialize::known_depth(depths, package.spec.id(), 0)->Some_0;
    let i = choose|i: int|
        0 <= i < depths.len() && (#[trigger] depths[i]) == (package.spec.id(), known);
    assert(depths[i].1 <= i);
    let at = lemma_known_stands_in_a_layer(locals, depths, 0, Seq::empty(), package);
    assert(layers[at].contains(selected[index]));
}

/// What stands in a layer is a selected package that is built here.
pub proof fn lemma_layers_hold_nothing_else(
    catalog: Seq<PackageSpecView>,
    selected: Seq<ResolvedPackageView>,
    layers: Seq<Seq<ResolvedPackageView>>,
    at: int,
    member: int,
)
    requires
        selected.len() <= usize::MAX,
        distinct_ids(selected),
        materialize::layers_of(catalog, selected) == Ok::<
            Seq<Seq<ResolvedPackageView>>,
            Messages,
        >(layers),
        0 <= at < layers.len(),
        0 <= member < layers[at].len(),
    ensures
        selected.contains(layers[at][member]),
        layers[at][member].spec.origin == PackageOrigin::Local,
{
    let locals = materialize::local_packages(selected);
    let depths = lemma_depths_of_selected(catalog, selected);
    lemma_local_packages(selected);
    lemma_members_are_local(locals, depths, 0, Seq::empty(), at, member);
    let l = choose|l: int| 0 <= l < locals.len() && locals[l] == layers[at][member];
    assert(selected.contains(locals[l]));
}

/// Whether what is needed is a local package of a given depth.
spec fn has_depth(
    locals: Seq<ResolvedPackageView>,
    depths: Seq<(Text, usize)>,
    need: PackageSpecView,
    depth: usize,
) -> bool {
    match materialize::id_position(locals, need.id(), 0) {
        None => false,
        Some(x) => materialize::known_depth(depths, locals[x].spec.id(), 0) == Some(depth),
    }
}

/// Whether a package of depth `depth` needs one of the depth just below, if there is one.
spec fn rests(
    catalog: Seq<PackageSpecView>,
    locals: Seq<ResolvedPackageView>,
    depths: Seq<(Text, usize)>,
    spec: PackageSpecView,
    depth: usize,
) -> bool {
    match catalog::dependency_specs(catalog, spec) {
        Err(_) => false,
        Ok(needed) => depth > 0 ==> exists|k: int|
            0 <= k < needed.len() && has_depth(
                locals,
                depths,
                #[trigger] needed[k],
                (depth - 1) as usize,
            ),
    }
}

/// Whether every package with a known depth needs one of the depth just below.
spec fn supported(
    catalog: Seq<PackageSpecView>,
    locals: Seq<ResolvedPackageView>,
    depths: Seq<(Text, usize)>,
) -> bool {
    forall|l: int|
        0 <= l < locals.len() ==> (materialize::known_depth(
            depths,
            (#[trigger] locals[l]).spec.id(),
            0,
        ) matches Some(depth) ==> rests(catalog, locals, depths, locals[l].spec, depth))
}

proof fn lemma_rests_extends(
    catalog: Seq<PackageSpecView>,
    locals: Seq<ResolvedPackageView>,
    depths: Seq<(Text, usize)>,
    next: Seq<(Text, usize)>,
    spec: PackageSpecView,
    depth: usize,
)
    requires
        rests(catalog, locals, depths, spec, depth),
        extends(depths, next),
    ensures
        rests(catalog, locals, next, spec, depth),
{
    let needed = catalog::dependency_specs(catalog, spec)->Ok_0;
    if depth > 0 {
        let k = choose|k: int|
            0 <= k < needed.len() && has_depth(
                locals,
                depths,
                #[trigger] needed[k],
                (depth - 1) as usize,
            );
        lemma_has_depth_extends(locals, depths, next, needed[k], (depth - 1) as usize);
    }
}

proof fn lemma_has_depth_extends(
    locals: Seq<ResolvedPackageView>,
    depths: Seq<(Text, usize)>,
    next: Seq<(Text, usize)>,
    need: PackageSpecView,
    depth: usize,
)
    requires
        has_depth(locals, depths, need, depth),
        extends(depths, next),
    ensures
        has_depth(locals, next, need, depth),
{
    let x = materialize::id_position(locals, need.id(), 0)->Some_0;
    assert(materialize::known_depth(next, locals[x].spec.id(), 0) == materialize::known_depth(
        depths,
        locals[x].spec.id(),
        0,
    ));
}

proof fn lemma_measured_supported(
    catalog: Seq<PackageSpecView>,
    locals: Seq<ResolvedPackageView>,
    spec: PackageSpecView,
    visiting: Seq<Text>,
    depths: Seq<(Text, usize)>,
    next: Seq<(Text, usize)>,
)
    requires
        locals.len() <= usize::MAX,
        distinct_ids(locals),
        forall|l: int|
            0 <= l < locals.len() ==> (#[trigger] locals[l]).spec.origin == PackageOrigin::Local,
        spec.origin == PackageOrigin::Local ==> represented(locals, spec),
        settled(catalog, locals, depths),
        orderly(locals, depths),
        supported(catalog, locals, depths),
        materialize::measured(catalog, locals, spec, visiting, depths) == Ok::<
            Seq<(Text, usize)>,
            Messages,
        >(next),
    ensures
        supported(catalog, locals, next),
    decreases locals.len() - visiting.len(), 0nat,
{
    if spec.origin != PackageOrigin::Local || materialize::known_depth(depths, spec.id(), 0)
        is Some {
    } else {
        let needed = catalog::dependency_specs(catalog, spec)->Ok_0;
        let inner = visiting.push(spec.id());
        let (depth, before) = materialize::measured_all(
            catalog,
            locals,
            needed,
            0,
            inner,
            0,
            depths,
        )->Ok_0;
        lemma_measured_all_supported(catalog, locals, needed, 0, inner, 0, depths, depth, before);
        let entry = (spec.id(), depth);
        assert(next == before.push(entry));
        assert(extends(before, next)) by {
            assert forall|id: Text| materialize::known_depth(before, id, 0) is Some implies
                #[trigger] materialize::known_depth(next, id, 0) == materialize::known_depth(
                before,
                id,
                0,
            ) by {
                lemma_known_pushed(before, entry, id, 0);
            }
        }
        assert forall|l: int| 0 <= l < locals.len() implies (materialize::known_depth(
            next,
            (#[trigger] locals[l]).spec.id(),
            0,
        ) matches Some(known) ==> rests(catalog, locals, next, locals[l].spec, known)) by {
            let other = locals[l].spec;
            lemma_known_pushed(before, entry, other.id(), 0);
            if let Some(known) = materialize::known_depth(next, other.id(), 0) {
                if materialize::known_depth(before, other.id(), 0) is Some {
                    assert(rests(catalog, locals, before, other, known));
                } else {
                    assert(other == spec);
                    assert(rests(catalog, locals, before, other, known));
                }
                lemma_rests_extends(catalog, locals, before, next, other, known);
            }
        }
    }
}

proof fn lemma_measured_all_supported(
    catalog: Seq<PackageSpecView>,
    locals: Seq<ResolvedPackageView>,
    needed: Seq<PackageSpecView>,
    from: int,
    visiting: Seq<Text>,
    depth: usize,
    depths: Seq<(Text, usize)>,
    result: usize,
    next: Seq<(Text, usize)>,
)
    requires
        locals.len() <= usize::MAX,
        distinct_ids(locals),
        forall|l: int|
            0 <= l < locals.len() ==> (#[trigger] locals[l]).spec.origin == PackageOrigin::Local,
        settled(catalog, locals, depths),
        orderly(locals, depths),
        supported(catalog, locals, depths),
        0 <= from <= needed.len(),
        depth <= depths.len(),
        materialize::measured_all(catalog, locals, needed, from, visiting, depth, depths) == Ok::<
            (usize, Seq<(Text, usize)>),
            Messages,
        >((result, next)),
    ensures
        supported(catalog, locals, next),
        result == depth || result > 0 && exists|k: int|
            from <= k < needed.len() && has_depth(
                locals,
                next,
                #[trigger] needed[k],
                (result - 1) as usize,
            ),
    decreases locals.len() - visiting.len(), (needed.len() - from + 1) as nat,
{
    if from < needed.len() {
        lemma_position_is_there(locals, needed[from].id(), 0);
        match materialize::id_position(locals, needed[from].id(), 0) {
            None => {
                lemma_measured_all_supported(
                    catalog,
                    locals,
                    needed,
                    from + 1,
                    visiting,
                    depth,
                    depths,
                    result,
                    next,
                );
            },
            Some(index) => {
                let spec = locals[index].spec;
                let middle = materialize::measured(
                    catalog,
                    locals,
                    spec,
                    visiting,
                    depths,
                )->Ok_0;
                lemma_represented(locals, index);
                lemma_measured(catalog, locals, spec, visiting, depths, middle);
                lemma_measured_supported(catalog, locals, spec, visiting, depths, middle);
                lemma_measured_grows(catalog, locals, spec, visiting, depths, middle);
                let known = materialize::known_depth(middle, spec.id(), 0);
                lemma_known_is_there(middle, spec.id(), 0);
                lemma_orderly_length(locals, middle);
                let below = known->Some_0;
                let at = choose|i: int|
                    0 <= i < middle.len() && (#[trigger] middle[i]) == (spec.id(), below);
                assert(middle[at].1 <= at);
                let raised = materialize::above(known, depth);
                lemma_measured_all(
                    catalog,
                    locals,
                    needed,
                    from + 1,
                    visiting,
                    raised,
                    middle,
                    result,
                    next,
                );
                lemma_measured_all_supported(
                    catalog,
                    locals,
                    needed,
                    from + 1,
                    visiting,
                    raised,
                    middle,
                    result,
                    next,
                );
                if result == raised && raised != depth {
                    assert(raised == below + 1);
                    assert(has_depth(locals, middle, needed[from], below));
                    lemma_has_depth_extends(locals, middle, next, needed[from], below);
                }
            },
        }
    }
}

/// A local package stands for its description.
proof fn lemma_represented(locals: Seq<ResolvedPackageView>, index: int)
    requires
        distinct_ids(locals),
        0 <= index < locals.len(),
    ensures
        represented(locals, locals[index].spec),
{
    let spec = locals[index].spec;
    assert forall|l: int|
        0 <= l < locals.len() && (#[trigger] locals[l]).spec.id() == spec.id() implies locals[l].spec
        == spec by {
        if l < index {
            assert(locals[l].spec.id() != locals[index].spec.id());
        } else if index < l {
            assert(locals[index].spec.id() != locals[l].spec.id());
        }
    }
}

proof fn lemma_measured_from_supported(
    catalog: Seq<PackageSpecView>,
    selected: Seq<ResolvedPackageView>,
    from: int,
    depths: Seq<(Text, usize)>,
    next: Seq<(Text, usize)>,
)
    requires
        selected.len() <= usize::MAX,
        distinct_ids(selected),
        0 <= from <= selected.len(),
        settled(catalog, materialize::local_packages(selected), depths),
        orderly(materialize::local_packages(selected), depths),
        supported(catalog, materialize::local_packages(selected), depths),
        materialize::measured_from(
            catalog,
            materialize::local_packages(selected),
            selected,
            from,
            depths,
        ) == Ok::<Seq<(Text, usize)>, Messages>(next),
    ensures
        supported(catalog, materialize::local_packages(selected), next),
    decreases selected.len() - from,
{
    let locals = materialize::local_packages(selected);
    if from < selected.len() {
        lemma_local_packages(selected);
        let spec = selected[from].spec;
        let middle = materialize::measured(catalog, locals, spec, Seq::empty(), depths)->Ok_0;
        if spec.origin == PackageOrigin::Local {
            let l = choose|l: int| 0 <= l < locals.len() && locals[l] == selected[from];
            lemma_represented(locals, l);
        }
        lemma_measured(catalog, locals, spec, Seq::empty(), depths, middle);
        lemma_measured_supported(catalog, locals, spec, Seq::empty(), depths, middle);
        lemma_measured_from_supported(catalog, selected, from + 1, middle, next);
    }
}

/// The local packages of a depth.
spec fn whole_layer(
    locals: Seq<ResolvedPackageView>,
    depths: Seq<(Text, usize)>,
    depth: int,
) -> Seq<ResolvedPackageView> {
    materialize::layer_at(locals, depths, depth as usize, locals.len() as int)
}

/// Where there are packages of a depth, there are some of every depth below.
proof fn lemma_no_gaps(
    catalog: Seq<PackageSpecView>,
    locals: Seq<ResolvedPackageView>,
    depths: Seq<(Text, usize)>,
    low: int,
    high: int,
)
    requires
        supported(catalog, locals, depths),
        0 <= low <= high <= usize::MAX,
        whole_layer(locals, depths, high).len() > 0,
    ensures
        whole_layer(locals, depths, low).len() > 0,
    decreases high - low,
{
    if low < high {
        let layer = whole_layer(locals, depths, high);
        lemma_layer_members(locals, depths, high as usize, locals.len() as int);
        lemma_layer_members(locals, depths, (high - 1) as usize, locals.len() as int);
        assert(locals.contains(layer[0]));
        let l = choose|l: int| 0 <= l < locals.len() && locals[l] == layer[0];
        assert(rests(catalog, locals, depths, locals[l].spec, high as usize));
        let needed = catalog::dependency_specs(catalog, locals[l].spec)->Ok_0;
        let k = choose|k: int|
            0 <= k < needed.len() && has_depth(
                locals,
                depths,
                #[trigger] needed[k],
                (high as usize - 1) as usize,
            );
        lemma_position_is_there(locals, needed[k].id(), 0);
        let x = materialize::id_position(locals, needed[k].id(), 0)->Some_0;
        assert(whole_layer(locals, depths, high - 1).contains(locals[x]));
        lemma_no_gaps(catalog, locals, depths, low, high - 1);
    }
}

proof fn lemma_empty_depths_make_no_layer(
    locals: Seq<ResolvedPackageView>,
    depths: Seq<(Text, usize)>,
    depth: int,
    done: Seq<Seq<ResolvedPackageView>>,
)
    requires
        forall|d: int|
            depth <= d < depths.len() ==> (#[trigger] whole_layer(locals, depths, d)).len() == 0,
    ensures
        materialize::layers_from(locals, depths, depth, done) == done,
    decreases depths.len() - depth,
{
    if depth < depths.len() {
        assert(whole_layer(locals, depths, depth).len() == 0);
        lemma_empty_depths_make_no_layer(locals, depths, depth + 1, done);
    }
}

/// Each layer holds the packages of the depth that is its position.
proof fn lemma_layers_by_depth(
    catalog: Seq<PackageSpecView>,
    locals: Seq<ResolvedPackageView>,
    depths: Seq<(Text, usize)>,
    depth: int,
    done: Seq<Seq<ResolvedPackageView>>,
    at: int,
)
    requires
        supported(catalog, locals, depths),
        depths.len() <= usize::MAX,
        0 <= depth == done.len(),
        depth <= at < materialize::layers_from(locals, depths, depth, done).len(),
    ensures
        at < depths.len(),
        materialize::layers_from(locals, depths, depth, done)[at] == whole_layer(
            locals,
            depths,
            at,
        ),
        whole_layer(locals, depths, at).len() > 0,
    decreases depths.len() - depth,
{
    if depth < depths.len() {
        let layer = whole_layer(locals, depths, depth);
        if layer.len() == 0 {
            assert forall|d: int| depth <= d < depths.len() implies (#[trigger] whole_layer(
                locals,
                depths,
                d,
            )).len() == 0 by {
                if whole_layer(locals, depths, d).len() > 0 {
                    lemma_no_gaps(catalog, locals, depths, depth, d);
                }
            }
            lemma_empty_depths_make_no_layer(locals, depths, depth, done);
        } else {
            let grown = done.push(layer);
            if at == depth {
                lemma_layers_keep(locals, depths, depth + 1, grown);
                assert(grown[at] == layer);
            } else {
                lemma_layers_by_depth(catalog, locals, depths, depth + 1, grown, at);
            }
        }
    }
}

/// The depths of the selected packages, each layer holding those of the depth that is its
/// position.
proof fn lemma_layers_of_selected(
    catalog: Seq<PackageSpecView>,
    selected: Seq<ResolvedPackageView>,
    layers: Seq<Seq<ResolvedPackageView>>,
) -> (depths: Seq<(Text, usize)>)
    requires
        selected.len() <= usize::MAX,
        distinct_ids(selected),
        materialize::layers_of(catalog, selected) == Ok::<
            Seq<Seq<ResolvedPackageView>>,
            Messages,
        >(layers),
    ensures
        supported(catalog, materialize::local_packages(selected), depths),
        depths.len() <= usize::MAX,
        layers.len() <= depths.len(),
        forall|at: int|
            0 <= at < layers.len() ==> #[trigger] layers[at] == whole_layer(
                materialize::local_packages(selected),
                depths,
                at,
            ) && layers[at].len() > 0,
{
    let locals = materialize::local_packages(selected);
    let depths = materialize::measured_from(catalog, locals, selected, 0, Seq::empty())->Ok_0;
    lemma_measured_from(catalog, selected, 0, Seq::empty(), depths);
    lemma_measured_from_supported(catalog, selected, 0, Seq::empty(), depths);
    lemma_local_packages(selected);
    lemma_orderly_length(locals, depths);
    assert forall|at: int| 0 <= at < layers.len() implies #[trigger] layers[at] == whole_layer(
        locals,
        depths,
        at,
    ) && layers[at].len() > 0 && at < depths.len() by {
        lemma_layers_by_depth(catalog, locals, depths, 0, Seq::empty(), at);
    }
    if layers.len() > 0 {
        assert(layers[layers.len() - 1].len() > 0);
    }
    depths
}

/// Whether packages stand in order of their ids, none twice.
pub open spec fn ids_ascend(packages: Seq<ResolvedPackageView>) -> bool {
    forall|i: int, j: int|
        0 <= i < j < packages.len() ==> text::text_order(
            (#[trigger] packages[i]).spec.id(),
            (#[trigger] packages[j]).spec.id(),
        ) == Order::Less
}

proof fn lemma_id_slot(packages: Seq<ResolvedPackageView>, id: Text, from: int)
    requires
        0 <= from <= packages.len(),
    ensures
        from <= materialize::id_slot(packages, id, from) <= packages.len(),
        forall|i: int|
            from <= i < materialize::id_slot(packages, id, from) ==> text::text_order(
                (#[trigger] packages[i]).spec.id(),
                id,
            ) == Order::Less,
        materialize::id_slot(packages, id, from) < packages.len() ==> text::text_order(
            packages[materialize::id_slot(packages, id, from)].spec.id(),
            id,
        ) != Order::Less,
    decreases packages.len() - from,
{
    if from < packages.len() && text::text_order(packages[from].spec.id(), id) == Order::Less {
        lemma_id_slot(packages, id, from + 1);
    }
}

proof fn lemma_with_package_ascends(
    packages: Seq<ResolvedPackageView>,
    package: ResolvedPackageView,
)
    requires
        ids_ascend(packages),
    ensures
        ids_ascend(materialize::with_package(packages, package)),
{
    let id = package.spec.id();
    let slot = materialize::id_slot(packages, id, 0);
    let after = materialize::with_package(packages, package);
    lemma_id_slot(packages, id, 0);
    if slot < packages.len() && packages[slot].spec.id() == id {
        assert forall|i: int, j: int| 0 <= i < j < after.len() implies text::text_order(
            (#[trigger] after[i]).spec.id(),
            (#[trigger] after[j]).spec.id(),
        ) == Order::Less by {
            assert(after[i].spec.id() == packages[i].spec.id());
            assert(after[j].spec.id() == packages[j].spec.id());
        }
    } else {
        assert forall|i: int, j: int| 0 <= i < j < after.len() implies text::text_order(
            (#[trigger] after[i]).spec.id(),
            (#[trigger] after[j]).spec.id(),
        ) == Order::Less by {
            if j < slot {
                assert(after[i] == packages[i] && after[j] == packages[j]);
            } else if j == slot {
                assert(after[i] == packages[i]);
            } else {
                assert(after[j] == packages[j - 1]);
                let next = packages[slot].spec.id();
                text::lemma_order_equal(next, id, 0);
                text::lemma_order_reversed(next, id, 0);
                if i == slot {
                    if j - 1 > slot {
                        text::lemma_orders_chain(id, next, packages[j - 1].spec.id(), 0);
                    }
                } else if i < slot {
                    assert(after[i] == packages[i]);
                } else {
                    assert(after[i] == packages[i - 1]);
                }
            }
        }
    }
}

proof fn lemma_locals_ascend(selected: Seq<ResolvedPackageView>)
    ensures
        ids_ascend(materialize::local_packages(selected)),
    decreases selected.len(),
{
    if selected.len() > 0 {
        let rest = selected.drop_last();
        lemma_locals_ascend(rest);
        lemma_with_package_ascends(materialize::local_packages(rest), selected.last());
    }
}

proof fn lemma_layer_ascends(
    locals: Seq<ResolvedPackageView>,
    depths: Seq<(Text, usize)>,
    depth: usize,
    count: int,
)
    requires
        ids_ascend(locals),
        0 <= count <= locals.len(),
    ensures
        ids_ascend(materialize::layer_at(locals, depths, depth, count)),
        forall|a: int|
            0 <= a < materialize::layer_at(locals, depths, depth, count).len() ==> locals.take(
                count,
            ).contains(#[trigger] materialize::layer_at(locals, depths, depth, count)[a]),
    decreases count,
{
    if count > 0 {
        lemma_layer_ascends(locals, depths, depth, count - 1);
        let before = materialize::layer_at(locals, depths, depth, count - 1);
        let layer = materialize::layer_at(locals, depths, depth, count);
        assert forall|a: int| 0 <= a < before.len() implies text::text_order(
            (#[trigger] before[a]).spec.id(),
            locals[count - 1].spec.id(),
        ) == Order::Less && locals.take(count).contains(before[a]) by {
            let first = locals.take(count - 1);
            assert(first.contains(before[a]));
            let l = choose|l: int| 0 <= l < first.len() && first[l] == before[a];
            assert(locals[l] == before[a]);
            assert(locals.take(count)[l] == before[a]);
        }
        assert(locals.take(count)[count - 1] == locals[count - 1]);
        assert forall|a: int| 0 <= a < layer.len() implies locals.take(count).contains(
            #[trigger] layer[a],
        ) by {
            if a < before.len() {
                assert(layer[a] == before[a]);
            } else {
                assert(layer[a] == locals[count - 1]);
            }
        }
        assert forall|i: int, j: int| 0 <= i < j < layer.len() implies text::text_order(
            (#[trigger] layer[i]).spec.id(),
            (#[trigger] layer[j]).spec.id(),
        ) == Order::Less by {
            assert(layer[i] == before[i]);
            if j < before.len() {
                assert(layer[j] == before[j]);
            } else {
                assert(layer[j] == locals[count - 1]);
            }
        }
    }
}

/// No layer is empty, and the packages of a layer stand in order of their ids.
pub proof fn lemma_layers_are_in_order(
    catalog: Seq<PackageSpecView>,
    selected: Seq<ResolvedPackageView>,
    layers: Seq<Seq<ResolvedPackageView>>,
    at: int,
)
    requires
        selected.len() <= usize::MAX,
        distinct_ids(selected),
        materialize::layers_of(catalog, selected) == Ok::<
            Seq<Seq<ResolvedPackageView>>,
            Messages,
        >(layers),
        0 <= at < layers.len(),
    ensures
        layers[at].len() > 0,
        ids_ascend(layers[at]),
{
    let locals = materialize::local_packages(selected);
    let depths = lemma_layers_of_selected(catalog, selected, layers);
    lemma_locals_ascend(selected);
    assert(layers[at] == whole_layer(locals, depths, at));
    lemma_layer_ascends(locals, depths, at as usize, locals.len() as int);
}

/// No package stands twice in the layers.
pub proof fn lemma_no_package_is_built_twice(
    catalog: Seq<PackageSpecView>,
    selected: Seq<ResolvedPackageView>,
    layers: Seq<Seq<ResolvedPackageView>>,
    at: int,
    member: int,
    other_at: int,
    other: int,
)
    requires
        selected.len() <= usize::MAX,
        distinct_ids(selected),
        materialize::layers_of(catalog, selected) == Ok::<
            Seq<Seq<ResolvedPackageView>>,
            Messages,
        >(layers),
        0 <= at < layers.len(),
        0 <= member < layers[at].len(),
        0 <= other_at < layers.len(),
        0 <= other < layers[other_at].len(),
        layers[at][member].spec.id() == layers[other_at][other].spec.id(),
    ensures
        at == other_at,
        member == other,
{
    let locals = materialize::local_packages(selected);
    let depths = lemma_layers_of_selected(catalog, selected, layers);
    lemma_layer_members(locals, depths, at as usize, locals.len() as int);
    lemma_layer_members(locals, depths, other_at as usize, locals.len() as int);
    assert(layers[at] == whole_layer(locals, depths, at));
    assert(layers[other_at] == whole_layer(locals, depths, other_at));
    assert(materialize::known_depth(depths, layers[at][member].spec.id(), 0) == Some(at as usize));
    assert(materialize::known_depth(depths, layers[other_at][other].spec.id(), 0) == Some(
        other_at as usize,
    ));
    lemma_layers_are_in_order(catalog, selected, layers, at);
    let id = layers[at][member].spec.id();
    text::lemma_order_equal(id, id, 0);
    if member < other {
        assert(text::text_order(layers[at][member].spec.id(), layers[at][other].spec.id())
            == Order::Less);
    } else if other < member {
        assert(text::text_order(layers[at][other].spec.id(), layers[at][member].spec.id())
            == Order::Less);
    }
}

/// A package waits for no layer in vain: what stands behind the first layer depends on a package
/// of the layer before.
pub proof fn lemma_layers_rest_on_the_layer_before(
    catalog: Seq<PackageSpecView>,
    selected: Seq<ResolvedPackageView>,
    layers: Seq<Seq<ResolvedPackageView>>,
    at: int,
    member: int,
)
    requires
        selected.len() <= usize::MAX,
        distinct_ids(selected),
        materialize::layers_of(catalog, selected) == Ok::<
            Seq<Seq<ResolvedPackageView>>,
            Messages,
        >(layers),
        0 < at < layers.len(),
        0 <= member < layers[at].len(),
    ensures
        match catalog::dependency_specs(catalog, layers[at][member].spec) {
            Err(_) => false,
            Ok(needed) => exists|k: int|
                0 <= k < needed.len() && holds_id(layers[at - 1], (#[trigger] needed[k]).id()),
        },
{
    let locals = materialize::local_packages(selected);
    let depths = lemma_layers_of_selected(catalog, selected, layers);
    lemma_layer_members(locals, depths, at as usize, locals.len() as int);
    lemma_layer_members(locals, depths, (at - 1) as usize, locals.len() as int);
    assert(layers[at] == whole_layer(locals, depths, at));
    assert(layers[at - 1] == whole_layer(locals, depths, at - 1));
    let package = layers[at][member];
    assert(locals.contains(package));
    let l = choose|l: int| 0 <= l < locals.len() && locals[l] == package;
    assert(rests(catalog, locals, depths, locals[l].spec, at as usize));
    let needed = catalog::dependency_specs(catalog, package.spec)->Ok_0;
    let k = choose|k: int|
        0 <= k < needed.len() && has_depth(
            locals,
            depths,
            #[trigger] needed[k],
            (at as usize - 1) as usize,
        );
    lemma_position_is_there(locals, needed[k].id(), 0);
    let x = materialize::id_position(locals, needed[k].id(), 0)->Some_0;
    let below = layers[at - 1];
    assert(below.contains(locals[x]));
    let m = choose|m: int| 0 <= m < below.len() && below[m] == locals[x];
    assert(below[m].spec.id() == needed[k].id());
}

/// Whether a package with a given id is in a layer.
pub open spec fn holds_id(layer: Seq<ResolvedPackageView>, id: Text) -> bool {
    exists|m: int| 0 <= m < layer.len() && (#[trigger] layer[m]).spec.id() == id
}

/// Whether a package has a name and a namespace that are accepted.
pub open spec fn is_well_named(spec: PackageSpecView) -> bool {
    names::package_name_check(spec.name) is Ok && names::namespace_check(spec.namespace) is Ok
}

/// Every package that is registered, and every one that is built in, is well named.
pub proof fn lemma_known_packages_are_well_named(
    platform: HostPlatform,
    path: Text,
    source: Text,
    host: Text,
    name: Text,
    namespace: Text,
    version: Text,
)
    ensures
        catalog::registered_spec(platform, path, source, host, name, namespace, version) matches Ok(
            spec,
        ) ==> is_well_named(spec),
        forall|i: int|
            0 <= i < catalog::builtins(platform, host).len() ==> is_well_named(
                #[trigger] catalog::builtins(platform, host)[i],
            ),
{
    reveal_strlit("bitsery");
    reveal_strlit("itoa");
    reveal_strlit("zlib");
    reveal_strlit("release");
}

/// The id of a well-named package tells its name, its namespace and its version.
proof fn lemma_ids_tell_apart(a: PackageSpecView, b: PackageSpecView)
    requires
        is_well_named(a),
        is_well_named(b),
        a.id() == b.id(),
    ensures
        a.key() == b.key(),
        a.version == b.version,
{
    reveal_strlit("[");
    reveal_strlit("]@");
    let id = a.id();
    assert(forall|i: int| 0 <= i < a.name.len() ==> id[i] == #[trigger] a.name[i]);
    assert(forall|i: int| 0 <= i < b.name.len() ==> id[i] == #[trigger] b.name[i]);
    assert(id[a.name.len() as int] == '[');
    assert(id[b.name.len() as int] == '[');
    if a.name.len() < b.name.len() {
        assert(b.name[a.name.len() as int] == '[');
    } else if b.name.len() < a.name.len() {
        assert(a.name[b.name.len() as int] == '[');
    }
    assert(a.name == b.name);
    let start = a.name.len() as int + 1;
    assert(forall|i: int|
        0 <= i < a.namespace.len() ==> id[start + i] == #[trigger] a.namespace[i]);
    assert(forall|i: int|
        0 <= i < b.namespace.len() ==> id[start + i] == #[trigger] b.namespace[i]);
    assert(id[start + a.namespace.len()] == ']');
    assert(id[start + b.namespace.len()] == ']');
    if a.namespace.len() < b.namespace.len() {
        assert(b.namespace[a.namespace.len() as int] == ']');
    } else if b.namespace.len() < a.namespace.len() {
        assert(a.namespace[b.namespace.len() as int] == ']');
    }
    assert(a.namespace == b.namespace);
    let end = start + a.namespace.len() + 2;
    assert(a.version == id.subrange(end, id.len() as int));
    assert(b.version == id.subrange(end, id.len() as int));
}

proof fn lemma_resolved_is_from_the_catalog(
    catalog: Seq<PackageSpecView>,
    pending: Seq<PackageRequestView>,
    packages: Seq<ResolvedPackageView>,
)
    requires
        forall|i: int| 0 <= i < packages.len() ==> catalog.contains((#[trigger] packages[i]).spec),
    ensures
        resolve::resolved_from(catalog, pending, packages) matches Ok(result) ==> forall|i: int|
            0 <= i < result.len() ==> catalog.contains((#[trigger] result[i]).spec),
    decreases resolve::unselected(catalog, packages), pending.len(),
{
    if pending.len() > 0 {
        let request = pending[0];
        let key = request.key();
        resolve::lemma_admitted(catalog, request, packages);
        resolve::lemma_position(packages, key, 0);
        resolve::lemma_slot(packages, key, 0);
        if let Ok((after, brought)) = resolve::admitted(catalog, request, packages) {
            assert forall|i: int| 0 <= i < after.len() implies catalog.contains(
                (#[trigger] after[i]).spec,
            ) by {
                match resolve::position(packages, key, 0) {
                    Some(_) => {
                        assert(after[i].spec == packages[i].spec);
                    },
                    None => {
                        let slot = resolve::slot(packages, key, 0);
                        version::lemma_selection_is_accepted(
                            resolve::candidates(catalog, key),
                            request.mode,
                        );
                        resolve::lemma_candidates_have_key(catalog, key);
                        if i < slot {
                            assert(after[i] == packages[i]);
                        } else if i > slot {
                            assert(after[i] == packages[i - 1]);
                        }
                    },
                }
            }
            lemma_resolved_is_from_the_catalog(
                catalog,
                brought + pending.subrange(1, pending.len() as int),
                after,
            );
        }
    }
}

/// What is selected from a catalog of well-named packages has distinct ids, and all of it is in
/// the catalog.
pub proof fn lemma_selected_ids_are_distinct(
    catalog: Seq<PackageSpecView>,
    requests: Seq<PackageRequestView>,
    ordered: Seq<ResolvedPackageView>,
)
    requires
        forall|i: int| 0 <= i < catalog.len() ==> is_well_named(#[trigger] catalog[i]),
        resolve::resolution(catalog, requests) == Ok::<Seq<ResolvedPackageView>, Messages>(ordered),
    ensures
        distinct_ids(ordered),
        forall|i: int| 0 <= i < ordered.len() ==> catalog.contains((#[trigger] ordered[i]).spec),
{
    let packages = resolve::resolved_from(catalog, requests, Seq::empty())->Ok_0;
    lemma_resolved_is_from_the_catalog(catalog, requests, Seq::empty());
    resolve_laws::lemma_ordering_keeps_the_selection(packages);
    assert forall|i: int| 0 <= i < ordered.len() implies catalog.contains(
        (#[trigger] ordered[i]).spec,
    ) by {
        let k = packages.index_of(ordered[i]);
        assert(catalog.contains(packages[k].spec));
    }
    assert forall|i: int, j: int| 0 <= i < j < ordered.len() implies (
    #[trigger] ordered[i]).spec.id() != (#[trigger] ordered[j]).spec.id() by {
        let a = catalog.index_of(ordered[i].spec);
        let b = catalog.index_of(ordered[j].spec);
        assert(is_well_named(catalog[a]) && is_well_named(catalog[b]));
        assert(ordered[i].spec.key() != ordered[j].spec.key());
        if ordered[i].spec.id() == ordered[j].spec.id() {
            lemma_ids_tell_apart(ordered[i].spec, ordered[j].spec);
        }
    }
}

} // verus!
