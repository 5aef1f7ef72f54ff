//! What holds of every successful resolution.

use vstd::prelude::*;
use crate::failure::Messages;
use crate::model::{PackageKeyView, PackageRequestView, PackageSpecView, Text};
use crate::resolve;
use crate::resolve::ResolvedPackageView;
use crate::text;
use crate::text::Order;
use crate::version;

verus! {

/// Every dependency of a package stands before it.
pub open spec fn dependencies_first(ordered: Seq<ResolvedPackageView>) -> bool {
    forall|i: int, d: int|
        0 <= i < ordered.len() && 0 <= d < ordered[i].spec.depends.len() ==> resolve::has_key(
            ordered.take(i),
            (#[trigger] ordered[i].spec.depends[d]).key(),
        )
}

/// No two packages have the same key.
pub open spec fn distinct_keys(packages: Seq<ResolvedPackageView>) -> bool {
    forall|i: int, j: int|
        0 <= i < j < packages.len() ==> (#[trigger] packages[i]).spec.key() != (
        #[trigger] packages[j]).spec.key()
}

/// A partial order of the selected packages, as far as it has been built.
spec fn sound_order(
    packages: Seq<ResolvedPackageView>,
    ordered: Seq<ResolvedPackageView>,
) -> bool {
    &&& dependencies_first(ordered)
    &&& distinct_keys(ordered)
    &&& forall|i: int| 0 <= i < ordered.len() ==> packages.contains(#[trigger] ordered[i])
}

/// `next` continues `ordered`.
spec fn continues(ordered: Seq<ResolvedPackageView>, next: Seq<ResolvedPackageView>) -> bool {
    ordered.len() <= next.len() && next.take(ordered.len() as int) == ordered
}

proof fn lemma_continuing_keeps_keys(
    ordered: Seq<ResolvedPackageView>,
    next: Seq<ResolvedPackageView>,
)
    requires
        continues(ordered, next),
    ensures
        forall|key: PackageKeyView|
            resolve::has_key(ordered, key) ==> #[trigger] resolve::has_key(next, key),
{
    assert forall|key: PackageKeyView| resolve::has_key(ordered, key) implies #[trigger] resolve::has_key(
        next,
        key,
    ) by {
        let i = choose|i: int| 0 <= i < ordered.len() && (#[trigger] ordered[i]).spec.key() == key;
        assert(next.take(ordered.len() as int)[i] == next[i]);
    }
}

proof fn lemma_visited(
    packages: Seq<ResolvedPackageView>,
    key: PackageKeyView,
    visiting: Seq<PackageKeyView>,
    ordered: Seq<ResolvedPackageView>,
)
    requires
        sound_order(packages, ordered),
    ensures
        resolve::visited(packages, key, visiting, ordered) matches Ok(next) ==> {
            &&& sound_order(packages, next)
            &&& continues(ordered, next)
            &&& resolve::has_key(next, key)
            &&& forall|k: PackageKeyView|
                visiting.contains(k) && resolve::has_key(next, k) ==> resolve::has_key(ordered, k)
        },
    decreases packages.len() - visiting.len(), 0nat,
{
    if resolve::has_key(ordered, key) {
        assert(ordered.take(ordered.len() as int) == ordered);
    } else if !(visiting.contains(key) || visiting.len() >= packages.len()) {
        if let Some(index) = resolve::position(packages, key, 0) {
            resolve::lemma_position(packages, key, 0);
            let path = visiting.push(key);
            lemma_visited_all(packages, index, 0, path, ordered);
            if let Ok(before) = resolve::visited_all(packages, index, 0, path, ordered) {
                let package = packages[index];
                let next = before.push(package);
                assert(path[visiting.len() as int] == key);
                assert(path.contains(key));
                assert(!resolve::has_key(before, key));
                assert(next[before.len() as int] == package);
                assert(resolve::has_key(next, key));
                assert(next.take(ordered.len() as int) == before.take(ordered.len() as int));
                assert forall|i: int, d: int|
                    0 <= i < next.len() && 0 <= d < next[i].spec.depends.len() implies resolve::has_key(
                    next.take(i),
                    (#[trigger] next[i].spec.depends[d]).key(),
                ) by {
                    assert(next.take(before.len() as int) == before);
                    if i < before.len() {
                        assert(next[i] == before[i]);
                        assert(next.take(i) == before.take(i));
                        assert(resolve::has_key(
                            before.take(i),
                            before[i].spec.depends[d].key(),
                        ));
                    } else {
                        assert(resolve::has_key(before, package.spec.depends[d].key()));
                    }
                }
                assert forall|i: int, j: int| 0 <= i < j < next.len() implies (
                #[trigger] next[i]).spec.key() != (#[trigger] next[j]).spec.key() by {
                    assert(next[i] == before[i]);
                    if j < before.len() {
                        assert(next[j] == before[j]);
                    }
                }
                assert forall|k: PackageKeyView|
                    visiting.contains(k) && resolve::has_key(next, k) implies resolve::has_key(
                    ordered,
                    k,
                ) by {
                    let i = choose|i: int|
                        0 <= i < next.len() && (#[trigger] next[i]).spec.key() == k;
                    assert(i < before.len());
                    assert(before[i].spec.key() == k);
                    let v = visiting.index_of(k);
                    assert(path[v] == k);
                }
            }
        }
    }
}

proof fn lemma_visited_all(
    packages: Seq<ResolvedPackageView>,
    index: int,
    from: int,
    visiting: Seq<PackageKeyView>,
    ordered: Seq<ResolvedPackageView>,
)
    requires
        0 <= from <= packages[index].spec.depends.len(),
        sound_order(packages, ordered),
    ensures
        resolve::visited_all(packages, index, from, visiting, ordered) matches Ok(next) ==> {
            &&& sound_order(packages, next)
            &&& continues(ordered, next)
            &&& forall|d: int|
                from <= d < packages[index].spec.depends.len() ==> resolve::has_key(
                    next,
                    (#[trigger] packages[index].spec.depends[d]).key(),
                )
            &&& forall|k: PackageKeyView|
                visiting.contains(k) && resolve::has_key(next, k) ==> resolve::has_key(ordered, k)
        },
    decreases
        packages.len() - visiting.len(),
        (packages[index].spec.depends.len() - from + 1) as nat,
{
    let depends = packages[index].spec.depends;
    if from >= depends.len() {
        assert(ordered.take(ordered.len() as int) == ordered);
    } else {
        let key = depends[from].key();
        lemma_visited(packages, key, visiting, ordered);
        if let Ok(middle) = resolve::visited(packages, key, visiting, ordered) {
            if resolve::has_key(packages, key) {
                lemma_visited_all(packages, index, from + 1, visiting, middle);
                if let Ok(next) = resolve::visited_all(packages, index, from + 1, visiting, middle) {
                    lemma_continuing_keeps_keys(middle, next);
                    assert(next.take(ordered.len() as int) == next.take(
                        middle.len() as int,
                    ).take(ordered.len() as int));
                }
            }
        }
    }
}

proof fn lemma_ordered_from(
    packages: Seq<ResolvedPackageView>,
    from: int,
    ordered: Seq<ResolvedPackageView>,
)
    requires
        0 <= from <= packages.len(),
        sound_order(packages, ordered),
        forall|i: int|
            0 <= i < from ==> resolve::has_key(ordered, (#[trigger] packages[i]).spec.key()),
    ensures
        resolve::ordered_from(packages, from, ordered) matches Ok(next) ==> {
            &&& sound_order(packages, next)
            &&& forall|i: int|
                0 <= i < packages.len() ==> resolve::has_key(
                    next,
                    (#[trigger] packages[i]).spec.key(),
                )
        },
    decreases packages.len() - from,
{
    if from < packages.len() {
        let key = packages[from].spec.key();
        lemma_visited(packages, key, Seq::empty(), ordered);
        if let Ok(next) = resolve::visited(packages, key, Seq::empty(), ordered) {
            lemma_continuing_keeps_keys(ordered, next);
            lemma_ordered_from(packages, from + 1, next);
        }
    }
}

/// In the order that packages are built in, every dependency of a package stands before it;
/// a selection with a dependency cycle has no such order and is refused.
pub proof fn lemma_dependencies_come_first(packages: Seq<ResolvedPackageView>)
    ensures
        resolve::topological(packages) matches Ok(ordered) ==> dependencies_first(ordered),
{
    lemma_ordered_from(packages, 0, Seq::empty());
}

/// Ordering neither drops nor adds nor repeats a package.
pub proof fn lemma_ordering_keeps_the_selection(packages: Seq<ResolvedPackageView>)
    ensures
        resolve::topological(packages) matches Ok(ordered) ==> {
            &&& distinct_keys(ordered)
            &&& forall|i: int| 0 <= i < ordered.len() ==> packages.contains(#[trigger] ordered[i])
            &&& forall|i: int|
                0 <= i < packages.len() ==> resolve::has_key(
                    ordered,
                    (#[trigger] packages[i]).spec.key(),
                )
        },
{
    lemma_ordered_from(packages, 0, Seq::empty());
}

/// Whether a selected package is one that the request asks for.
pub open spec fn is_met(packages: Seq<ResolvedPackageView>, request: PackageRequestView) -> bool {
    exists|i: int|
        0 <= i < packages.len() && (#[trigger] packages[i]).spec.key() == request.key()
            && version::accepts(request.mode, packages[i].spec.version)
}

/// Whether a description is that of one of `packages`.
spec fn has_spec(packages: Seq<ResolvedPackageView>, spec: PackageSpecView) -> bool {
    exists|i: int| 0 <= i < packages.len() && (#[trigger] packages[i]).spec == spec
}

/// Every description among `before` is also among `after`.
spec fn keeps_specs(before: Seq<ResolvedPackageView>, after: Seq<ResolvedPackageView>) -> bool {
    forall|spec: PackageSpecView| #[trigger] has_spec(before, spec) ==> has_spec(after, spec)
}

proof fn lemma_keeping_specs_keeps_met(
    before: Seq<ResolvedPackageView>,
    after: Seq<ResolvedPackageView>,
)
    requires
        keeps_specs(before, after),
    ensures
        forall|request: PackageRequestView| is_met(before, request) ==> #[trigger] is_met(after, request),
{
    assert forall|request: PackageRequestView| is_met(before, request) implies #[trigger] is_met(
        after,
        request,
    ) by {
        let i = choose|i: int|
            0 <= i < before.len() && (#[trigger] before[i]).spec.key() == request.key()
                && version::accepts(request.mode, before[i].spec.version);
        assert(has_spec(before, before[i].spec));
        let j = choose|j: int| 0 <= j < after.len() && (#[trigger] after[j]).spec == before[i].spec;
        assert(after[j].spec.key() == request.key());
    }
}

/// What a description depends on is met or still pending.
spec fn served(
    packages: Seq<ResolvedPackageView>,
    pending: Seq<PackageRequestView>,
    spec: PackageSpecView,
) -> bool {
    forall|d: int|
        0 <= d < spec.depends.len() ==> is_met(packages, #[trigger] spec.depends[d])
            || pending.contains(spec.depends[d])
}

/// What every description among `packages` depends on is met or still pending.
spec fn closed_up_to(
    packages: Seq<ResolvedPackageView>,
    pending: Seq<PackageRequestView>,
) -> bool {
    forall|spec: PackageSpecView| #[trigger] has_spec(packages, spec) ==> served(
        packages,
        pending,
        spec,
    )
}

proof fn lemma_asked_again_meets(
    request: PackageRequestView,
    packages: Seq<ResolvedPackageView>,
    index: int,
)
    requires
        distinct_keys(packages),
        0 <= index < packages.len(),
        packages[index].spec.key() == request.key(),
        resolve::compatibility(packages[index], request) is Ok,
    ensures
        ({
            let after = packages.update(index, resolve::asked_again(packages[index], request));
            &&& distinct_keys(after)
            &&& keeps_specs(packages, after)
            &&& is_met(after, request)
            &&& forall|spec: PackageSpecView| #[trigger] has_spec(after, spec) ==> has_spec(packages, spec)
        }),
{
    let after = packages.update(index, resolve::asked_again(packages[index], request));
    assert(forall|i: int| 0 <= i < packages.len() ==> (#[trigger] after[i]).spec == packages[i].spec);
    assert(after[index].spec == packages[index].spec);
    assert forall|spec: PackageSpecView| #[trigger] has_spec(packages, spec) implies has_spec(
        after,
        spec,
    ) by {
        let i = choose|i: int| 0 <= i < packages.len() && (#[trigger] packages[i]).spec == spec;
        assert(after[i].spec == spec);
    }
    assert forall|spec: PackageSpecView| #[trigger] has_spec(after, spec) implies has_spec(
        packages,
        spec,
    ) by {
        let i = choose|i: int| 0 <= i < after.len() && (#[trigger] after[i]).spec == spec;
        assert(packages[i].spec == spec);
    }
}

proof fn lemma_first_asked_meets(
    request: PackageRequestView,
    packages: Seq<ResolvedPackageView>,
    slot: int,
    package: ResolvedPackageView,
)
    requires
        distinct_keys(packages),
        0 <= slot <= packages.len(),
        forall|i: int| 0 <= i < packages.len() ==> (#[trigger] packages[i]).spec.key() != request.key(),
        package.spec.key() == request.key(),
        version::accepts(request.mode, package.spec.version),
    ensures
        ({
            let after = packages.insert(slot, package);
            &&& distinct_keys(after)
            &&& keeps_specs(packages, after)
            &&& is_met(after, request)
            &&& forall|spec: PackageSpecView|
                #[trigger] has_spec(after, spec) ==> has_spec(packages, spec) || spec == package.spec
        }),
{
    let after = packages.insert(slot, package);
    assert(after[slot] == package);
    assert(forall|i: int| 0 <= i < slot ==> #[trigger] after[i] == packages[i]);
    assert(forall|i: int| slot < i < after.len() ==> #[trigger] after[i] == packages[i - 1]);
    assert forall|spec: PackageSpecView| #[trigger] has_spec(packages, spec) implies has_spec(
        after,
        spec,
    ) by {
        let i = choose|i: int| 0 <= i < packages.len() && (#[trigger] packages[i]).spec == spec;
        if i < slot {
            assert(after[i].spec == spec);
        } else {
            assert(after[i + 1].spec == spec);
        }
    }
    assert forall|spec: PackageSpecView| #[trigger] has_spec(after, spec) implies has_spec(
        packages,
        spec,
    ) || spec == package.spec by {
        let i = choose|i: int| 0 <= i < after.len() && (#[trigger] after[i]).spec == spec;
        if i < slot {
            assert(packages[i].spec == spec);
        } else if i > slot {
            assert(packages[i - 1].spec == spec);
        }
    }
}

proof fn lemma_admitted_meets(
    catalog: Seq<PackageSpecView>,
    request: PackageRequestView,
    packages: Seq<ResolvedPackageView>,
)
    requires
        distinct_keys(packages),
    ensures
        resolve::admitted(catalog, request, packages) matches Ok((after, brought)) ==> {
            &&& distinct_keys(after)
            &&& keeps_specs(packages, after)
            &&& is_met(after, request)
            &&& forall|spec: PackageSpecView|
                #[trigger] has_spec(after, spec) ==> has_spec(packages, spec) || spec.depends == brought
        },
{
    let key = request.key();
    resolve::lemma_position(packages, key, 0);
    resolve::lemma_slot(packages, key, 0);
    if resolve::admitted(catalog, request, packages) is Ok {
        match resolve::position(packages, key, 0) {
            Some(index) => {
                lemma_asked_again_meets(request, packages, index);
            },
            None => {
                let spec = resolve::selected_for(catalog, request)->Ok_0;
                let found = resolve::candidates(catalog, key);
                version::lemma_selection_is_accepted(found, request.mode);
                resolve::lemma_candidates_have_key(catalog, key);
                assert(spec.key() == key);
                lemma_first_asked_meets(
                    request,
                    packages,
                    resolve::slot(packages, key, 0),
                    resolve::first_asked(spec, request),
                );
            },
        }
    }
}

proof fn lemma_resolved_from(
    catalog: Seq<PackageSpecView>,
    pending: Seq<PackageRequestView>,
    packages: Seq<ResolvedPackageView>,
)
    requires
        distinct_keys(packages),
        closed_up_to(packages, pending),
    ensures
        resolve::resolved_from(catalog, pending, packages) matches Ok(result) ==> {
            &&& distinct_keys(result)
            &&& keeps_specs(packages, result)
            &&& forall|i: int| 0 <= i < pending.len() ==> is_met(result, #[trigger] pending[i])
            &&& closed_up_to(result, Seq::empty())
        },
    decreases resolve::unselected(catalog, packages), pending.len(),
{
    if pending.len() == 0 {
        assert(pending == Seq::<PackageRequestView>::empty());
    } else {
        let request = pending[0];
        resolve::lemma_admitted(catalog, request, packages);
        lemma_admitted_meets(catalog, request, packages);
        if let Ok((after, brought)) = resolve::admitted(catalog, request, packages) {
            let rest = pending.subrange(1, pending.len() as int);
            let next = brought + rest;
            lemma_keeping_specs_keeps_met(packages, after);
            assert forall|spec: PackageSpecView| #[trigger] has_spec(after, spec) implies served(
                after,
                next,
                spec,
            ) by {
                lemma_still_served(packages, pending, after, brought, spec);
            }
            lemma_resolved_from(catalog, next, after);
            if let Ok(result) = resolve::resolved_from(catalog, next, after) {
                lemma_keeping_specs_keeps_met(after, result);
                assert forall|i: int| 0 <= i < pending.len() implies is_met(
                    result,
                    #[trigger] pending[i],
                ) by {
                    if i == 0 {
                        assert(is_met(after, pending[0]));
                    } else {
                        assert(next[brought.len() + i - 1] == pending[i]);
                    }
                }
            }
        }
    }
}

proof fn lemma_still_served(
    packages: Seq<ResolvedPackageView>,
    pending: Seq<PackageRequestView>,
    after: Seq<ResolvedPackageView>,
    brought: Seq<PackageRequestView>,
    spec: PackageSpecView,
)
    requires
        pending.len() > 0,
        closed_up_to(packages, pending),
        forall|request: PackageRequestView| is_met(packages, request) ==> #[trigger] is_met(after, request),
        is_met(after, pending[0]),
        has_spec(packages, spec) || spec.depends == brought,
    ensures
        served(after, brought + pending.subrange(1, pending.len() as int), spec),
{
    let next = brought + pending.subrange(1, pending.len() as int);
    assert forall|d: int| 0 <= d < spec.depends.len() implies is_met(
        after,
        #[trigger] spec.depends[d],
    ) || next.contains(spec.depends[d]) by {
        let wanted = spec.depends[d];
        if spec.depends == brought {
            assert(next[d] == wanted);
        } else {
            assert(served(packages, pending, spec));
            if !is_met(packages, wanted) {
                let p = pending.index_of(wanted);
                if p > 0 {
                    assert(next[brought.len() + p - 1] == wanted);
                }
            }
        }
    }
}

proof fn lemma_order_keeps_met(packages: Seq<ResolvedPackageView>)
    requires
        distinct_keys(packages),
    ensures
        resolve::topological(packages) matches Ok(ordered) ==> forall|request: PackageRequestView|
            is_met(packages, request) ==> #[trigger] is_met(ordered, request),
{
    lemma_ordering_keeps_the_selection(packages);
    if let Ok(ordered) = resolve::topological(packages) {
        assert forall|request: PackageRequestView| is_met(packages, request) implies #[trigger] is_met(
            ordered,
            request,
        ) by {
            let i = choose|i: int|
                0 <= i < packages.len() && (#[trigger] packages[i]).spec.key() == request.key()
                    && version::accepts(request.mode, packages[i].spec.version);
            let j = choose|j: int|
                0 <= j < ordered.len() && (#[trigger] ordered[j]).spec.key() == request.key();
            let k = packages.index_of(ordered[j]);
            assert(packages[k].spec.key() == packages[i].spec.key());
            assert(k == i);
        }
    }
}

/// No two packages that are selected have the same name and namespace.
pub proof fn lemma_selected_keys_are_distinct(
    catalog: Seq<PackageSpecView>,
    requests: Seq<PackageRequestView>,
)
    ensures
        resolve::resolved_from(catalog, requests, Seq::empty()) matches Ok(packages)
            ==> distinct_keys(packages),
{
    lemma_resolved_from(catalog, requests, Seq::empty());
}

/// Every request of a manifest is met by a package that is selected.
pub proof fn lemma_requests_are_met(
    catalog: Seq<PackageSpecView>,
    requests: Seq<PackageRequestView>,
)
    ensures
        resolve::resolution(catalog, requests) matches Ok(ordered) ==> forall|i: int|
            0 <= i < requests.len() ==> is_met(ordered, #[trigger] requests[i]),
{
    lemma_resolved_from(catalog, requests, Seq::empty());
    if let Ok(packages) = resolve::resolved_from(catalog, requests, Seq::empty()) {
        lemma_order_keeps_met(packages);
    }
}

/// Every dependency of a selected package is met by a package that is selected.
pub proof fn lemma_dependencies_are_met(
    catalog: Seq<PackageSpecView>,
    requests: Seq<PackageRequestView>,
)
    ensures
        resolve::resolution(catalog, requests) matches Ok(ordered) ==> forall|i: int, d: int|
            0 <= i < ordered.len() && 0 <= d < ordered[i].spec.depends.len() ==> is_met(
                ordered,
                #[trigger] ordered[i].spec.depends[d],
            ),
{
    lemma_resolved_from(catalog, requests, Seq::empty());
    if let Ok(packages) = resolve::resolved_from(catalog, requests, Seq::empty()) {
        lemma_order_keeps_met(packages);
        lemma_ordering_keeps_the_selection(packages);
        if let Ok(ordered) = resolve::topological(packages) {
            assert forall|i: int, d: int|
                0 <= i < ordered.len() && 0 <= d < ordered[i].spec.depends.len() implies is_met(
                ordered,
                #[trigger] ordered[i].spec.depends[d],
            ) by {
                let k = packages.index_of(ordered[i]);
                assert(has_spec(packages, packages[k].spec));
                assert(served(packages, Seq::empty(), packages[k].spec));
                assert(is_met(packages, packages[k].spec.depends[d]));
            }
        }
    }
}

/// Whether texts ascend, none twice.
pub open spec fn ascending(values: Seq<Text>) -> bool {
    forall|i: int, j: int|
        0 <= i < j < values.len() ==> text::text_order(#[trigger] values[i], #[trigger] values[j])
            == Order::Less
}

proof fn lemma_text_slot(values: Seq<Text>, value: Text, from: int)
    requires
        0 <= from <= values.len(),
    ensures
        from <= text::text_slot(values, value, from) <= values.len(),
        forall|i: int|
            from <= i < text::text_slot(values, value, from) ==> text::text_order(
                #[trigger] values[i],
                value,
            ) == Order::Less,
        text::text_slot(values, value, from) < values.len() ==> text::text_order(
            values[text::text_slot(values, value, from)],
            value,
        ) != Order::Less,
    decreases values.len() - from,
{
    if from < values.len() && text::text_order(values[from], value) == Order::Less {
        lemma_text_slot(values, value, from + 1);
    }
}

/// Putting a text among ascending ones keeps them ascending and changes nothing else.
pub(crate) proof fn lemma_with_text(values: Seq<Text>, value: Text)
    requires
        ascending(values),
    ensures
        ascending(text::with_text(values, value)),
        forall|other: Text|
            #[trigger] text::with_text(values, value).contains(other) <==> values.contains(other)
                || other == value,
{
    let slot = text::text_slot(values, value, 0);
    let after = text::with_text(values, value);
    lemma_text_slot(values, value, 0);
    if slot < values.len() && values[slot] == value {
        assert(values.contains(value));
    } else {
        assert(after == values.insert(slot, value));
        assert(after[slot] == value);
        assert forall|i: int, j: int| 0 <= i < j < after.len() implies text::text_order(
            #[trigger] after[i],
            #[trigger] after[j],
        ) == Order::Less by {
            if j < slot {
                assert(after[i] == values[i] && after[j] == values[j]);
            } else if j == slot {
                assert(after[i] == values[i]);
            } else {
                assert(after[j] == values[j - 1]);
                text::lemma_order_equal(values[slot], value, 0);
                text::lemma_order_reversed(values[slot], value, 0);
                if i == slot {
                    if j - 1 > slot {
                        text::lemma_orders_chain(value, values[slot], values[j - 1], 0);
                    }
                } else if i < slot {
                    assert(after[i] == values[i]);
                } else {
                    assert(after[i] == values[i - 1]);
                }
            }
        }
        assert forall|other: Text| #[trigger] after.contains(other) <==> values.contains(other)
            || other == value by {
            if values.contains(other) {
                let i = choose|i: int| 0 <= i < values.len() && values[i] == other;
                if i < slot {
                    assert(after[i] == other);
                } else {
                    assert(after[i + 1] == other);
                }
            }
            if after.contains(other) {
                let i = choose|i: int| 0 <= i < after.len() && after[i] == other;
                if i < slot {
                    assert(values[i] == other);
                } else if i > slot {
                    assert(values[i - 1] == other);
                }
            }
        }
    }
}

/// Whether the package that `before` asks for is among `packages` and depends on what `request`
/// asks for.
pub open spec fn brings(
    packages: Seq<ResolvedPackageView>,
    before: PackageRequestView,
    request: PackageRequestView,
) -> bool {
    exists|i: int|
        0 <= i < packages.len() && (#[trigger] packages[i]).spec.key() == before.key()
            && packages[i].spec.depends.contains(request)
}

/// Whether a request is one of `requests`, or is made by a package that `steps` requests, each
/// made by the package before it, lead to.
pub open spec fn asked_in(
    requests: Seq<PackageRequestView>,
    packages: Seq<ResolvedPackageView>,
    request: PackageRequestView,
    steps: nat,
) -> bool
    decreases steps,
{
    if steps == 0 {
        requests.contains(request)
    } else {
        exists|before: PackageRequestView|
            #[trigger] brings(packages, before, request) && asked_in(
                requests,
                packages,
                before,
                (steps - 1) as nat,
            )
    }
}

/// Whether a request is one of `requests` or follows from them through what the packages depend
/// on.
pub open spec fn is_asked(
    requests: Seq<PackageRequestView>,
    packages: Seq<ResolvedPackageView>,
    request: PackageRequestView,
) -> bool {
    exists|steps: nat| #[trigger] asked_in(requests, packages, request, steps)
}

/// Whether a request for a package is among `asked` that gives no alias.
spec fn wants_default(asked: Set<PackageRequestView>, key: PackageKeyView) -> bool {
    exists|request: PackageRequestView|
        #[trigger] asked.contains(request) && request.key() == key && request.alias is None
}

/// Whether a request for a package is among `asked` that gives an alias.
spec fn wants_alias(asked: Set<PackageRequestView>, key: PackageKeyView, alias: Text) -> bool {
    exists|request: PackageRequestView|
        #[trigger] asked.contains(request) && request.key() == key && request.alias == Some(alias)
}

/// Whether a package is exposed as the requests in `asked` say, its aliases ascending.
spec fn exposed_as(package: ResolvedPackageView, asked: Set<PackageRequestView>) -> bool {
    &&& package.expose_default == wants_default(asked, package.spec.key())
    &&& forall|alias: Text|
        #[trigger] package.aliases.contains(alias) <==> wants_alias(
            asked,
            package.spec.key(),
            alias,
        )
    &&& ascending(package.aliases)
}

/// How far the selection is when `asked` has been taken in and `pending` has not.
spec fn taken_in(
    requests: Seq<PackageRequestView>,
    pending: Seq<PackageRequestView>,
    packages: Seq<ResolvedPackageView>,
    asked: Set<PackageRequestView>,
) -> bool {
    &&& distinct_keys(packages)
    &&& forall|i: int| 0 <= i < packages.len() ==> exposed_as(#[trigger] packages[i], asked)
    &&& forall|i: int|
        0 <= i < packages.len() ==> is_wanted(asked, (#[trigger] packages[i]).spec.key())
    &&& forall|request: PackageRequestView|
        #[trigger] asked.contains(request) ==> resolve::has_key(packages, request.key())
    &&& forall|request: PackageRequestView|
        #[trigger] asked.contains(request) ==> is_asked(requests, packages, request)
    &&& forall|i: int|
        0 <= i < pending.len() ==> is_asked(requests, packages, #[trigger] pending[i])
    &&& forall|i: int|
        0 <= i < requests.len() ==> asked.contains(#[trigger] requests[i]) || pending.contains(
            requests[i],
        )
    &&& forall|i: int, d: int|
        0 <= i < packages.len() && 0 <= d < packages[i].spec.depends.len() ==> asked.contains(
            #[trigger] packages[i].spec.depends[d],
        ) || pending.contains(packages[i].spec.depends[d])
}

/// Whether some request in `asked` is for a package.
spec fn is_wanted(asked: Set<PackageRequestView>, key: PackageKeyView) -> bool {
    exists|request: PackageRequestView| #[trigger] asked.contains(request) && request.key() == key
}

/// What is asked stays asked when descriptions stay.
proof fn lemma_asking_stays(
    requests: Seq<PackageRequestView>,
    before: Seq<ResolvedPackageView>,
    after: Seq<ResolvedPackageView>,
    request: PackageRequestView,
    steps: nat,
)
    requires
        keeps_specs(before, after),
        asked_in(requests, before, request, steps),
    ensures
        asked_in(requests, after, request, steps),
    decreases steps,
{
    if steps > 0 {
        let last = choose|last: PackageRequestView|
            #[trigger] brings(before, last, request) && asked_in(
                requests,
                before,
                last,
                (steps - 1) as nat,
            );
        lemma_asking_stays(requests, before, after, last, (steps - 1) as nat);
        let i = choose|i: int|
            0 <= i < before.len() && (#[trigger] before[i]).spec.key() == last.key()
                && before[i].spec.depends.contains(request);
        assert(has_spec(before, before[i].spec));
        let j = choose|j: int| 0 <= j < after.len() && (#[trigger] after[j]).spec == before[i].spec;
        assert(brings(after, last, request));
    }
}

proof fn lemma_all_asking_stays(
    requests: Seq<PackageRequestView>,
    before: Seq<ResolvedPackageView>,
    after: Seq<ResolvedPackageView>,
)
    requires
        keeps_specs(before, after),
    ensures
        forall|request: PackageRequestView|
            is_asked(requests, before, request) ==> #[trigger] is_asked(requests, after, request),
{
    assert forall|request: PackageRequestView| is_asked(requests, before, request) implies
        #[trigger] is_asked(requests, after, request) by {
        let steps = choose|steps: nat| #[trigger] asked_in(requests, before, request, steps);
        lemma_asking_stays(requests, before, after, request, steps);
    }
}

/// One more request is taken in for a package that is selected.
proof fn lemma_taking_in_known(
    requests: Seq<PackageRequestView>,
    pending: Seq<PackageRequestView>,
    packages: Seq<ResolvedPackageView>,
    asked: Set<PackageRequestView>,
    index: int,
)
    requires
        taken_in(requests, pending, packages, asked),
        pending.len() > 0,
        0 <= index < packages.len(),
        packages[index].spec.key() == pending[0].key(),
    ensures
        taken_in(
            requests,
            pending.subrange(1, pending.len() as int),
            packages.update(index, resolve::asked_again(packages[index], pending[0])),
            asked.insert(pending[0]),
        ),
{
    let request = pending[0];
    let rest = pending.subrange(1, pending.len() as int);
    let after = packages.update(index, resolve::asked_again(packages[index], request));
    let seen = asked.insert(request);
    assert(forall|i: int|
        0 <= i < packages.len() ==> (#[trigger] after[i]).spec == packages[i].spec);
    assert(keeps_specs(packages, after)) by {
        assert forall|spec: PackageSpecView| #[trigger] has_spec(packages, spec) implies has_spec(
            after,
            spec,
        ) by {
            let i = choose|i: int| 0 <= i < packages.len() && (#[trigger] packages[i]).spec == spec;
            assert(after[i].spec == spec);
        }
    }
    lemma_all_asking_stays(requests, packages, after);
    resolve::lemma_update_keeps_keys(
        packages,
        index,
        resolve::asked_again(packages[index], request),
    );
    assert forall|i: int| 0 <= i < after.len() implies exposed_as(#[trigger] after[i], seen) by {
        assert(exposed_as(packages[i], asked));
        lemma_exposing(packages[i], asked, request);
        if i != index {
            assert(packages[i].spec.key() != packages[index].spec.key());
        }
    }
    assert forall|i: int| 0 <= i < after.len() implies is_wanted(
        seen,
        (#[trigger] after[i]).spec.key(),
    ) by {
        assert(is_wanted(asked, packages[i].spec.key()));
        let known = choose|known: PackageRequestView|
            #[trigger] asked.contains(known) && known.key() == packages[i].spec.key();
        assert(seen.contains(known));
    }
    assert(resolve::has_key(packages, request.key()));
    lemma_rest_waits(requests, pending, packages, after, asked, Seq::empty());
    assert(Seq::<PackageRequestView>::empty() + rest == rest);
}

/// What a request says of how a package is exposed.
proof fn lemma_exposing(
    package: ResolvedPackageView,
    asked: Set<PackageRequestView>,
    request: PackageRequestView,
)
    requires
        exposed_as(package, asked),
    ensures
        package.spec.key() != request.key() ==> exposed_as(package, asked.insert(request)),
        package.spec.key() == request.key() ==> exposed_as(
            resolve::asked_again(package, request),
            asked.insert(request),
        ),
{
    let seen = asked.insert(request);
    let key = package.spec.key();
    let own = key == request.key();
    assert(wants_default(seen, key) == (wants_default(asked, key) || (own && request.alias
        is None))) by {
        if wants_default(asked, key) {
            let known = choose|known: PackageRequestView|
                #[trigger] asked.contains(known) && known.key() == key && known.alias is None;
            assert(seen.contains(known));
        }
        if own && request.alias is None {
            assert(seen.contains(request));
        }
    }
    assert forall|alias: Text|
        wants_alias(seen, key, alias) == (#[trigger] wants_alias(asked, key, alias) || (own
            && request.alias == Some(alias))) by {
        if wants_alias(asked, key, alias) {
            let known = choose|known: PackageRequestView|
                #[trigger] asked.contains(known) && known.key() == key && known.alias == Some(
                    alias,
                );
            assert(seen.contains(known));
        }
        if own && request.alias == Some(alias) {
            assert(seen.contains(request));
        }
    }
    if own {
        if let Some(alias) = request.alias {
            lemma_with_text(package.aliases, alias);
        }
        let after = resolve::asked_again(package, request);
        assert forall|alias: Text| #[trigger] after.aliases.contains(alias) <==> wants_alias(
            seen,
            key,
            alias,
        ) by {
            assert(package.aliases.contains(alias) <==> wants_alias(asked, key, alias));
        }
    } else {
        assert forall|alias: Text| #[trigger] package.aliases.contains(alias) <==> wants_alias(
            seen,
            key,
            alias,
        ) by {
            assert(package.aliases.contains(alias) <==> wants_alias(asked, key, alias));
        }
    }
}

/// What still waits once the first pending request is taken in.
proof fn lemma_rest_waits(
    requests: Seq<PackageRequestView>,
    pending: Seq<PackageRequestView>,
    packages: Seq<ResolvedPackageView>,
    after: Seq<ResolvedPackageView>,
    asked: Set<PackageRequestView>,
    brought: Seq<PackageRequestView>,
)
    requires
        pending.len() > 0,
        forall|i: int|
            0 <= i < requests.len() ==> asked.contains(#[trigger] requests[i])
                || pending.contains(requests[i]),
        forall|i: int, d: int|
            0 <= i < packages.len() && 0 <= d < packages[i].spec.depends.len() ==> asked.contains(
                #[trigger] packages[i].spec.depends[d],
            ) || pending.contains(packages[i].spec.depends[d]),
        forall|i: int|
            0 <= i < after.len() ==> has_spec(packages, (#[trigger] after[i]).spec)
                || after[i].spec.depends == brought,
    ensures
        forall|i: int|
            0 <= i < requests.len() ==> asked.insert(pending[0]).contains(#[trigger] requests[i])
                || (brought + pending.subrange(1, pending.len() as int)).contains(requests[i]),
        forall|i: int, d: int|
            0 <= i < after.len() && 0 <= d < after[i].spec.depends.len() ==> asked.insert(
                pending[0],
            ).contains(#[trigger] after[i].spec.depends[d]) || (brought + pending.subrange(
                1,
                pending.len() as int,
            )).contains(after[i].spec.depends[d]),
{
    let rest = pending.subrange(1, pending.len() as int);
    let next = brought + rest;
    let seen = asked.insert(pending[0]);
    assert forall|request: PackageRequestView| pending.contains(request) implies
        #[trigger] seen.contains(request) || next.contains(request) by {
        let i = choose|i: int| 0 <= i < pending.len() && pending[i] == request;
        if i > 0 {
            assert(next[brought.len() + i - 1] == request);
        }
    }
    assert forall|i: int| 0 <= i < requests.len() implies seen.contains(#[trigger] requests[i])
        || next.contains(requests[i]) by {
        assert(asked.contains(requests[i]) ==> seen.contains(requests[i]));
    }
    assert forall|i: int, d: int|
        0 <= i < after.len() && 0 <= d < after[i].spec.depends.len() implies seen.contains(
        #[trigger] after[i].spec.depends[d],
    ) || next.contains(after[i].spec.depends[d]) by {
        let wanted = after[i].spec.depends[d];
        if after[i].spec.depends == brought {
            assert(next[d] == wanted);
        } else {
            assert(has_spec(packages, after[i].spec));
            let k = choose|k: int|
                0 <= k < packages.len() && (#[trigger] packages[k]).spec == after[i].spec;
            assert(packages[k].spec.depends[d] == wanted);
            assert(asked.contains(wanted) || pending.contains(wanted));
            assert(asked.contains(wanted) ==> seen.contains(wanted));
        }
    }
}

/// A request is taken in that selects a package.
proof fn lemma_taking_in_new(
    requests: Seq<PackageRequestView>,
    pending: Seq<PackageRequestView>,
    packages: Seq<ResolvedPackageView>,
    asked: Set<PackageRequestView>,
    slot: int,
    spec: PackageSpecView,
)
    requires
        taken_in(requests, pending, packages, asked),
        pending.len() > 0,
        0 <= slot <= packages.len(),
        !resolve::has_key(packages, pending[0].key()),
        spec.key() == pending[0].key(),
    ensures
        taken_in(
            requests,
            spec.depends + pending.subrange(1, pending.len() as int),
            packages.insert(slot, resolve::first_asked(spec, pending[0])),
            asked.insert(pending[0]),
        ),
{
    let request = pending[0];
    let rest = pending.subrange(1, pending.len() as int);
    let package = resolve::first_asked(spec, request);
    let after = packages.insert(slot, package);
    let seen = asked.insert(request);
    let next = spec.depends + rest;
    let key = request.key();
    assert(after[slot] == package);
    assert(forall|i: int| 0 <= i < slot ==> #[trigger] after[i] == packages[i]);
    assert(forall|i: int| slot < i < after.len() ==> #[trigger] after[i] == packages[i - 1]);
    assert(forall|i: int|
        0 <= i < packages.len() ==> (#[trigger] packages[i]).spec.key() != key);
    resolve::lemma_insert_adds_key(packages, slot, package);
    assert(keeps_specs(packages, after)) by {
        assert forall|other: PackageSpecView| #[trigger] has_spec(packages, other) implies has_spec(
            after,
            other,
        ) by {
            let i = choose|i: int|
                0 <= i < packages.len() && (#[trigger] packages[i]).spec == other;
            if i < slot {
                assert(after[i].spec == other);
            } else {
                assert(after[i + 1].spec == other);
            }
        }
    }
    lemma_all_asking_stays(requests, packages, after);
    assert forall|i: int| 0 <= i < after.len() implies exposed_as(#[trigger] after[i], seen)
        && is_wanted(seen, after[i].spec.key()) by {
        if i == slot {
            lemma_first_exposing(spec, asked, request);
            assert(seen.contains(request));
        } else {
            let place = if i < slot {
                i
            } else {
                i - 1
            };
            assert(after[i] == packages[place]);
            assert(exposed_as(packages[place], asked));
            lemma_exposing(packages[place], asked, request);
            assert(is_wanted(asked, packages[place].spec.key()));
            let known = choose|known: PackageRequestView|
                #[trigger] asked.contains(known) && known.key() == packages[place].spec.key();
            assert(seen.contains(known));
        }
    }
    assert forall|i: int| 0 <= i < after.len() implies has_spec(
        packages,
        (#[trigger] after[i]).spec,
    ) || after[i].spec.depends == spec.depends by {
        if i < slot {
            assert(packages[i].spec == after[i].spec);
        } else if i > slot {
            assert(packages[i - 1].spec == after[i].spec);
        }
    }
    lemma_rest_waits(requests, pending, packages, after, asked, spec.depends);
    assert(is_asked(requests, packages, pending[0]));
    assert(is_asked(requests, after, request));
    let steps = choose|steps: nat| #[trigger] asked_in(requests, after, request, steps);
    assert forall|i: int| 0 <= i < next.len() implies is_asked(
        requests,
        after,
        #[trigger] next[i],
    ) by {
        if i < spec.depends.len() {
            assert(after[slot].spec.depends.contains(next[i]));
            assert(brings(after, request, next[i]));
            assert(asked_in(requests, after, request, ((steps + 1) - 1) as nat));
            assert(asked_in(requests, after, next[i], steps + 1));
        } else {
            assert(next[i] == pending[i - spec.depends.len() + 1]);
        }
    }
}

proof fn lemma_first_exposing(
    spec: PackageSpecView,
    asked: Set<PackageRequestView>,
    request: PackageRequestView,
)
    requires
        spec.key() == request.key(),
        forall|known: PackageRequestView|
            #[trigger] asked.contains(known) ==> known.key() != request.key(),
    ensures
        exposed_as(resolve::first_asked(spec, request), asked.insert(request)),
{
    let seen = asked.insert(request);
    let package = resolve::first_asked(spec, request);
    assert(seen.contains(request));
    assert forall|alias: Text| #[trigger] package.aliases.contains(alias) <==> wants_alias(
        seen,
        spec.key(),
        alias,
    ) by {
        if let Some(own) = request.alias {
            assert(package.aliases[0] == own);
        }
        if wants_alias(seen, spec.key(), alias) {
            let known = choose|known: PackageRequestView|
                #[trigger] seen.contains(known) && known.key() == spec.key() && known.alias
                    == Some(alias);
            assert(known == request);
        }
    }
}

/// All requests are taken in: those that are asked for are those in the result.
proof fn lemma_resolved_asks(
    catalog: Seq<PackageSpecView>,
    requests: Seq<PackageRequestView>,
    pending: Seq<PackageRequestView>,
    packages: Seq<ResolvedPackageView>,
    asked: Set<PackageRequestView>,
) -> (all: Set<PackageRequestView>)
    requires
        taken_in(requests, pending, packages, asked),
    ensures
        resolve::resolved_from(catalog, pending, packages) matches Ok(result) ==> taken_in(
            requests,
            Seq::empty(),
            result,
            all,
        ),
    decreases resolve::unselected(catalog, packages), pending.len(),
{
    if pending.len() == 0 {
        assert(pending == Seq::<PackageRequestView>::empty());
        asked
    } else {
        let request = pending[0];
        let rest = pending.subrange(1, pending.len() as int);
        let key = request.key();
        resolve::lemma_admitted(catalog, request, packages);
        resolve::lemma_position(packages, key, 0);
        resolve::lemma_slot(packages, key, 0);
        match resolve::admitted(catalog, request, packages) {
            Err(_) => asked,
            Ok((after, brought)) => {
                match resolve::position(packages, key, 0) {
                    Some(index) => {
                        lemma_taking_in_known(requests, pending, packages, asked, index);
                        assert(brought + rest == rest);
                    },
                    None => {
                        let spec = resolve::selected_for(catalog, request)->Ok_0;
                        version::lemma_selection_is_accepted(
                            resolve::candidates(catalog, key),
                            request.mode,
                        );
                        resolve::lemma_candidates_have_key(catalog, key);
                        assert(spec.key() == key);
                        lemma_taking_in_new(
                            requests,
                            pending,
                            packages,
                            asked,
                            resolve::slot(packages, key, 0),
                            spec,
                        );
                    },
                }
                lemma_resolved_asks(catalog, requests, brought + rest, after, asked.insert(request))
            },
        }
    }
}

/// What is asked has been taken in, once nothing is pending.
proof fn lemma_asked_is_taken_in(
    requests: Seq<PackageRequestView>,
    packages: Seq<ResolvedPackageView>,
    all: Set<PackageRequestView>,
    request: PackageRequestView,
    steps: nat,
)
    requires
        taken_in(requests, Seq::empty(), packages, all),
        asked_in(requests, packages, request, steps),
    ensures
        all.contains(request),
    decreases steps,
{
    if steps == 0 {
        let i = choose|i: int| 0 <= i < requests.len() && requests[i] == request;
        assert(all.contains(requests[i]));
    } else {
        let last = choose|last: PackageRequestView|
            #[trigger] brings(packages, last, request) && asked_in(
                requests,
                packages,
                last,
                (steps - 1) as nat,
            );
        let i = choose|i: int|
            0 <= i < packages.len() && (#[trigger] packages[i]).spec.key() == last.key()
                && packages[i].spec.depends.contains(request);
        let d = choose|d: int|
            0 <= d < packages[i].spec.depends.len() && packages[i].spec.depends[d] == request;
        assert(all.contains(packages[i].spec.depends[d]));
    }
}

/// Whether a request for a package is asked that gives no alias.
pub open spec fn asks_for_default(
    requests: Seq<PackageRequestView>,
    packages: Seq<ResolvedPackageView>,
    key: PackageKeyView,
) -> bool {
    exists|request: PackageRequestView|
        #[trigger] is_asked(requests, packages, request) && request.key() == key && request.alias
            is None
}

/// Whether a request for a package is asked that gives an alias.
pub open spec fn asks_for_alias(
    requests: Seq<PackageRequestView>,
    packages: Seq<ResolvedPackageView>,
    key: PackageKeyView,
    alias: Text,
) -> bool {
    exists|request: PackageRequestView|
        #[trigger] is_asked(requests, packages, request) && request.key() == key && request.alias
            == Some(alias)
}

/// Whether a request for a package is asked.
pub open spec fn asks_for(
    requests: Seq<PackageRequestView>,
    packages: Seq<ResolvedPackageView>,
    key: PackageKeyView,
) -> bool {
    exists|request: PackageRequestView|
        #[trigger] is_asked(requests, packages, request) && request.key() == key
}

/// Every package that is selected is asked for, by the manifest or by what its packages depend
/// on. It is exposed under its own name if and only if one of the requests for it gives no
/// alias, and under an alias if and only if one of them gives it; its aliases ascend, none twice.
pub proof fn lemma_selected_packages_are_asked_for(
    catalog: Seq<PackageSpecView>,
    requests: Seq<PackageRequestView>,
    ordered: Seq<ResolvedPackageView>,
    index: int,
)
    requires
        resolve::resolution(catalog, requests) == Ok::<Seq<ResolvedPackageView>, Messages>(ordered),
        0 <= index < ordered.len(),
    ensures
        asks_for(requests, ordered, ordered[index].spec.key()),
        ordered[index].expose_default == asks_for_default(
            requests,
            ordered,
            ordered[index].spec.key(),
        ),
        forall|alias: Text|
            #[trigger] ordered[index].aliases.contains(alias) <==> asks_for_alias(
                requests,
                ordered,
                ordered[index].spec.key(),
                alias,
            ),
        ascending(ordered[index].aliases),
{
    let packages = resolve::resolved_from(catalog, requests, Seq::empty())->Ok_0;
    let none = Set::<PackageRequestView>::empty();
    assert(taken_in(requests, requests, Seq::empty(), none)) by {
        assert forall|i: int| 0 <= i < requests.len() implies is_asked(
            requests,
            Seq::empty(),
            #[trigger] requests[i],
        ) by {
            assert(asked_in(requests, Seq::empty(), requests[i], 0));
        }
    }
    let all = lemma_resolved_asks(catalog, requests, requests, Seq::empty(), none);
    lemma_ordering_keeps_the_selection(packages);
    lemma_same_specs(packages, ordered);
    lemma_all_asking_stays(requests, packages, ordered);
    lemma_all_asking_stays(requests, ordered, packages);
    assert forall|request: PackageRequestView| #[trigger] is_asked(requests, ordered, request)
        <==> all.contains(request) by {
        if is_asked(requests, ordered, request) {
            assert(is_asked(requests, packages, request));
            let steps = choose|steps: nat| #[trigger] asked_in(requests, packages, request, steps);
            lemma_asked_is_taken_in(requests, packages, all, request, steps);
        }
        if all.contains(request) {
            assert(is_asked(requests, packages, request));
        }
    }
    let package = ordered[index];
    let key = package.spec.key();
    let k = packages.index_of(package);
    assert(packages[k] == package);
    assert(exposed_as(packages[k], all));
    assert(is_wanted(all, key));
    lemma_same_requests(requests, ordered, all, key);
    assert forall|alias: Text| #[trigger] package.aliases.contains(alias) <==> asks_for_alias(
        requests,
        ordered,
        key,
        alias,
    ) by {
        assert(package.aliases.contains(alias) <==> wants_alias(all, key, alias));
    }
}

/// The same requests ask for the same.
proof fn lemma_same_requests(
    requests: Seq<PackageRequestView>,
    ordered: Seq<ResolvedPackageView>,
    all: Set<PackageRequestView>,
    key: PackageKeyView,
)
    requires
        forall|request: PackageRequestView|
            #[trigger] is_asked(requests, ordered, request) <==> all.contains(request),
        is_wanted(all, key),
    ensures
        asks_for(requests, ordered, key),
        asks_for_default(requests, ordered, key) == wants_default(all, key),
        forall|alias: Text|
            asks_for_alias(requests, ordered, key, alias) == #[trigger] wants_alias(
                all,
                key,
                alias,
            ),
{
    let known = choose|known: PackageRequestView|
        #[trigger] all.contains(known) && known.key() == key;
    assert(is_asked(requests, ordered, known));
    if wants_default(all, key) {
        let first = choose|first: PackageRequestView|
            #[trigger] all.contains(first) && first.key() == key && first.alias is None;
        assert(is_asked(requests, ordered, first));
    }
    assert forall|alias: Text|
        asks_for_alias(requests, ordered, key, alias) == #[trigger] wants_alias(
            all,
            key,
            alias,
        ) by {
        if wants_alias(all, key, alias) {
            let first = choose|first: PackageRequestView|
                #[trigger] all.contains(first) && first.key() == key && first.alias == Some(alias);
            assert(is_asked(requests, ordered, first));
        }
    }
}

/// Ordering keeps the descriptions.
proof fn lemma_same_specs(
    packages: Seq<ResolvedPackageView>,
    ordered: Seq<ResolvedPackageView>,
)
    requires
        distinct_keys(packages),
        forall|i: int| 0 <= i < ordered.len() ==> packages.contains(#[trigger] ordered[i]),
        forall|i: int|
            0 <= i < packages.len() ==> resolve::has_key(
                ordered,
                (#[trigger] packages[i]).spec.key(),
            ),
    ensures
        keeps_specs(packages, ordered),
        keeps_specs(ordered, packages),
{
    assert forall|spec: PackageSpecView| #[trigger] has_spec(packages, spec) implies has_spec(
        ordered,
        spec,
    ) by {
        let i = choose|i: int| 0 <= i < packages.len() && (#[trigger] packages[i]).spec == spec;
        assert(resolve::has_key(ordered, packages[i].spec.key()));
        let j = choose|j: int|
            0 <= j < ordered.len() && (#[trigger] ordered[j]).spec.key() == spec.key();
        let k = packages.index_of(ordered[j]);
        assert(packages[k].spec.key() == packages[i].spec.key());
        assert(k == i);
        assert(ordered[j].spec == spec);
    }
    assert forall|spec: PackageSpecView| #[trigger] has_spec(ordered, spec) implies has_spec(
        packages,
        spec,
    ) by {
        let j = choose|j: int| 0 <= j < ordered.len() && (#[trigger] ordered[j]).spec == spec;
        let k = packages.index_of(ordered[j]);
        assert(packages[k].spec == spec);
    }
}

} // verus!
