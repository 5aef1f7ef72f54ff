//! Which package a request selects, and when a selection can be made and put in order.

use vstd::prelude::*;
use crate::arch;
use crate::failure::Messages;
use crate::model;
use crate::model::{
    PackageKeyView, PackageRequestView, PackageSpecView, RequestModeView, RequestSource,
    TargetSpecView, Text,
};
use crate::resolve;
use crate::resolve::ResolvedPackageView;
use crate::resolve_laws;
use crate::text;
use crate::text::Order;
use crate::version;

verus! {

/// Whether a package has the name and the namespace that a key holds.
pub open spec fn is_named(spec: PackageSpecView, key: PackageKeyView) -> bool {
    spec.name == key.name && spec.namespace == key.namespace
}

/// Whether a version is what a request asks for: any, the one it names, or one that is not less.
pub open spec fn suits(mode: RequestModeView, version: Text) -> bool {
    match mode {
        RequestModeView::Latest => true,
        RequestModeView::Exact(wanted) => version == wanted,
        RequestModeView::Minimum(least) => version::version_order(version, least) != Order::Less,
    }
}

/// Whether a selected package is registered and, among those of its name and namespace that its
/// request asks for, one that no other is greater than.
pub open spec fn is_greatest(catalog: Seq<PackageSpecView>, package: ResolvedPackageView) -> bool {
    &&& catalog.contains(package.spec)
    &&& suits(package.request, package.spec.version)
    &&& package.source != RequestSource::System
    &&& forall|i: int|
        0 <= i < catalog.len() && (#[trigger] catalog[i]).name == package.spec.name
            && catalog[i].namespace == package.spec.namespace && suits(
            package.request,
            catalog[i].version,
        ) ==> version::version_order(package.spec.version, catalog[i].version) != Order::Less
}

pub(crate) proof fn lemma_candidates(catalog: Seq<PackageSpecView>, key: PackageKeyView)
    ensures
        forall|i: int|
            0 <= i < resolve::candidates(catalog, key).len() ==> is_named(
                #[trigger] resolve::candidates(catalog, key)[i],
                key,
            ) && catalog.contains(resolve::candidates(catalog, key)[i]),
        forall|i: int|
            0 <= i < catalog.len() && is_named(#[trigger] catalog[i], key) ==> resolve::candidates(
                catalog,
                key,
            ).contains(catalog[i]),
    decreases catalog.len(),
{
    if catalog.len() > 0 {
        let before = catalog.drop_last();
        let found = resolve::candidates(before, key);
        let all = resolve::candidates(catalog, key);
        lemma_candidates(before, key);
        assert forall|i: int| 0 <= i < all.len() implies is_named(#[trigger] all[i], key)
            && catalog.contains(all[i]) by {
            if i < found.len() {
                assert(all[i] == found[i]);
                assert(before.contains(found[i]));
                let at = before.index_of(found[i]);
                assert(catalog[at] == all[i]);
            } else {
                assert(catalog[catalog.len() - 1] == all[i]);
            }
        }
        assert forall|i: int| 0 <= i < catalog.len() && is_named(
            #[trigger] catalog[i],
            key,
        ) implies all.contains(catalog[i]) by {
            if i < before.len() {
                assert(before[i] == catalog[i]);
                let at = found.index_of(catalog[i]);
                assert(all[at] == found[at]);
            } else {
                assert(all[found.len() as int] == catalog[i]);
            }
        }
    }
}

pub(crate) proof fn lemma_candidates_are_consistent(catalog: Seq<PackageSpecView>, key: PackageKeyView)
    requires
        version::consistently_ordered(catalog),
    ensures
        version::consistently_ordered(resolve::candidates(catalog, key)),
{
    let found = resolve::candidates(catalog, key);
    lemma_candidates(catalog, key);
    assert forall|i: int, j: int, k: int|
        #![trigger found[i], found[j], found[k]]
        0 <= i < found.len() && 0 <= j < found.len() && 0 <= k < found.len()
            && version::version_order(found[i].version, found[j].version) != Order::Less
            && version::version_order(found[j].version, found[k].version)
            != Order::Less implies version::version_order(found[i].version, found[k].version)
        != Order::Less by {
        let a = catalog.index_of(found[i]);
        let b = catalog.index_of(found[j]);
        let c = catalog.index_of(found[k]);
        assert(catalog[a] == found[i] && catalog[b] == found[j] && catalog[c] == found[k]);
    }
}

proof fn lemma_selected_is_greatest(catalog: Seq<PackageSpecView>, request: PackageRequestView)
    requires
        version::consistently_ordered(catalog),
    ensures
        resolve::selected_for(catalog, request) matches Ok(spec) ==> is_greatest(
            catalog,
            resolve::first_asked(spec, request),
        ) && is_named(spec, request.key()),
{
    let found = resolve::candidates(catalog, request.key());
    lemma_candidates(catalog, request.key());
    lemma_candidates_are_consistent(catalog, request.key());
    version::lemma_selection_is_accepted(found, request.mode);
    version::lemma_selection_is_greatest(found, request.mode);
    if let Ok(spec) = resolve::selected_for(catalog, request) {
        let at = found.index_of(spec);
        assert(is_named(found[at], request.key()));
        let package = resolve::first_asked(spec, request);
        assert forall|i: int|
            0 <= i < catalog.len() && (#[trigger] catalog[i]).name == package.spec.name
                && catalog[i].namespace == package.spec.namespace && suits(
                package.request,
                catalog[i].version,
            ) implies version::version_order(package.spec.version, catalog[i].version)
            != Order::Less by {
            assert(is_named(catalog[i], request.key()));
            let k = found.index_of(catalog[i]);
            assert(found[k] == catalog[i]);
            assert(version::accepts(request.mode, found[k].version));
        }
    }
}

proof fn lemma_resolved_are_greatest(
    catalog: Seq<PackageSpecView>,
    pending: Seq<PackageRequestView>,
    packages: Seq<ResolvedPackageView>,
)
    requires
        version::consistently_ordered(catalog),
        forall|i: int| 0 <= i < packages.len() ==> is_greatest(catalog, #[trigger] packages[i]),
    ensures
        resolve::resolved_from(catalog, pending, packages) matches Ok(result) ==> forall|i: int|
            0 <= i < result.len() ==> is_greatest(catalog, #[trigger] result[i]),
    decreases resolve::unselected(catalog, packages), pending.len(),
{
    if pending.len() > 0 {
        let request = pending[0];
        resolve::lemma_admitted(catalog, request, packages);
        resolve::lemma_position(packages, request.key(), 0);
        resolve::lemma_slot(packages, request.key(), 0);
        lemma_selected_is_greatest(catalog, request);
        if let Ok((after, brought)) = resolve::admitted(catalog, request, packages) {
            assert forall|i: int| 0 <= i < after.len() implies is_greatest(
                catalog,
                #[trigger] after[i],
            ) by {
                match resolve::position(packages, request.key(), 0) {
                    Some(index) => {
                        assert(is_greatest(catalog, packages[i]));
                        assert(after[i].spec == packages[i].spec);
                    },
                    None => {
                        let slot = resolve::slot(packages, request.key(), 0);
                        if i < slot {
                            assert(after[i] == packages[i]);
                        } else if i > slot {
                            assert(after[i] == packages[i - 1]);
                        }
                    },
                }
            }
            lemma_resolved_are_greatest(
                catalog,
                brought + pending.subrange(1, pending.len() as int),
                after,
            );
        }
    }
}

/// Every package that is selected is a registered one, none for which the system was asked, and
/// the greatest of its name and namespace that the request for it asks for.
pub proof fn lemma_the_greatest_registered_packages_are_selected(
    catalog: Seq<PackageSpecView>,
    requests: Seq<PackageRequestView>,
    ordered: Seq<ResolvedPackageView>,
    index: int,
)
    requires
        version::consistently_ordered(catalog),
        resolve::resolution(catalog, requests) == Ok::<Seq<ResolvedPackageView>, Messages>(ordered),
        0 <= index < ordered.len(),
    ensures
        is_greatest(catalog, ordered[index]),
{
    let packages = resolve::resolved_from(catalog, requests, Seq::empty())->Ok_0;
    lemma_resolved_are_greatest(catalog, requests, Seq::empty());
    resolve_laws::lemma_ordering_keeps_the_selection(packages);
    assert(packages.contains(ordered[index]));
    let at = packages.index_of(ordered[index]);
    assert(is_greatest(catalog, packages[at]));
}

/// Whether a package is selected for a key, by a request of a mode and a source.
pub open spec fn is_selected_by(
    packages: Seq<ResolvedPackageView>,
    request: PackageRequestView,
    at: int,
) -> bool {
    &&& 0 <= at < packages.len()
    &&& packages[at].spec.name == request.name
    &&& packages[at].spec.namespace == request.namespace
    &&& packages[at].request == request.mode
    &&& packages[at].source == request.source
}

proof fn lemma_selected_by_stays(
    catalog: Seq<PackageSpecView>,
    pending: Seq<PackageRequestView>,
    packages: Seq<ResolvedPackageView>,
    request: PackageRequestView,
    at: int,
) -> (found: int)
    requires
        is_selected_by(packages, request, at),
        resolve::resolved_from(catalog, pending, packages) is Ok,
    ensures
        is_selected_by(
            resolve::resolved_from(catalog, pending, packages)->Ok_0,
            request,
            found,
        ),
    decreases resolve::unselected(catalog, packages), pending.len(),
{
    if pending.len() > 0 {
        let next = pending[0];
        resolve::lemma_admitted(catalog, next, packages);
        resolve::lemma_position(packages, next.key(), 0);
        resolve::lemma_slot(packages, next.key(), 0);
        let (after, brought) = resolve::admitted(catalog, next, packages)->Ok_0;
        let slot = resolve::slot(packages, next.key(), 0);
        let moved: int = if resolve::position(packages, next.key(), 0) is None && at >= slot {
            at + 1
        } else {
            at
        };
        assert(is_selected_by(after, request, moved));
        lemma_selected_by_stays(
            catalog,
            brought + pending.subrange(1, pending.len() as int),
            after,
            request,
            moved,
        )
    } else {
        at
    }
}

/// The first request of a manifest decides which version of its package is selected.
pub proof fn lemma_first_requests_decide(
    catalog: Seq<PackageSpecView>,
    requests: Seq<PackageRequestView>,
    ordered: Seq<ResolvedPackageView>,
)
    requires
        resolve::resolution(catalog, requests) == Ok::<Seq<ResolvedPackageView>, Messages>(ordered),
        requests.len() > 0,
    ensures
        exists|at: int| #[trigger] is_selected_by(ordered, requests[0], at),
{
    let none = Seq::<ResolvedPackageView>::empty();
    let request = requests[0];
    let packages = resolve::resolved_from(catalog, requests, none)->Ok_0;
    resolve::lemma_admitted(catalog, request, none);
    resolve::lemma_position(none, request.key(), 0);
    resolve::lemma_slot(none, request.key(), 0);
    resolve::lemma_candidates_have_key(catalog, request.key());
    version::lemma_selection_is_accepted(
        resolve::candidates(catalog, request.key()),
        request.mode,
    );
    let (after, brought) = resolve::admitted(catalog, request, none)->Ok_0;
    let spec = resolve::selected_for(catalog, request)->Ok_0;
    assert(spec.key() == request.key());
    assert(is_selected_by(after, request, 0));
    let at = lemma_selected_by_stays(
        catalog,
        brought + requests.subrange(1, requests.len() as int),
        after,
        request,
        0,
    );
    resolve_laws::lemma_requests_are_met(catalog, requests);
    resolve_laws::lemma_ordering_keeps_the_selection(packages);
    resolve_laws::lemma_selected_keys_are_distinct(catalog, requests);
    assert(resolve::has_key(ordered, packages[at].spec.key()));
    let j = choose|j: int|
        0 <= j < ordered.len() && (#[trigger] ordered[j]).spec.key() == packages[at].spec.key();
    let k = packages.index_of(ordered[j]);
    assert(packages[k].spec.key() == packages[at].spec.key());
    assert(k == at);
    assert(is_selected_by(ordered, request, j));
}

/// Whether the dependencies of packages are among them and can be ranked: each has a lower rank
/// than what depends on it.
pub open spec fn is_ranked(
    packages: Seq<ResolvedPackageView>,
    rank: spec_fn(PackageKeyView) -> nat,
) -> bool {
    forall|i: int, d: int|
        0 <= i < packages.len() && 0 <= d < packages[i].spec.depends.len() ==> resolve::has_key(
            packages,
            (#[trigger] packages[i].spec.depends[d]).key(),
        ) && rank(packages[i].spec.depends[d].key()) < rank(packages[i].spec.key())
}

/// Whether the keys on the way to a package are of higher rank, selected and none twice.
spec fn is_way(
    packages: Seq<ResolvedPackageView>,
    rank: spec_fn(PackageKeyView) -> nat,
    visiting: Seq<PackageKeyView>,
    key: PackageKeyView,
) -> bool {
    &&& visiting.no_duplicates()
    &&& forall|i: int|
        0 <= i < visiting.len() ==> resolve::has_key(packages, #[trigger] visiting[i]) && rank(key)
            < rank(visiting[i])
}

proof fn lemma_way_is_short(
    packages: Seq<ResolvedPackageView>,
    rank: spec_fn(PackageKeyView) -> nat,
    visiting: Seq<PackageKeyView>,
    key: PackageKeyView,
)
    requires
        is_way(packages, rank, visiting, key),
        resolve::has_key(packages, key),
    ensures
        !visiting.contains(key),
        visiting.len() < packages.len(),
        visiting.push(key).no_duplicates(),
{
    let all = visiting.push(key);
    let keys = packages.map_values(|package: ResolvedPackageView| package.spec.key());
    assert(all.no_duplicates());
    all.unique_seq_to_set();
    keys.lemma_cardinality_of_set();
    assert forall|k: PackageKeyView| all.to_set().contains(k) implies keys.to_set().contains(k) by {
        let i = all.index_of(k);
        assert(all.contains(k));
        assert(resolve::has_key(packages, k)) by {
            if i < visiting.len() {
                assert(visiting[i] == k);
            }
        }
        let p = choose|p: int| 0 <= p < packages.len() && (#[trigger] packages[p]).spec.key() == k;
        assert(keys[p] == k);
    }
    vstd::set_lib::lemma_len_subset(all.to_set(), keys.to_set());
}

proof fn lemma_visit_succeeds(
    packages: Seq<ResolvedPackageView>,
    rank: spec_fn(PackageKeyView) -> nat,
    key: PackageKeyView,
    visiting: Seq<PackageKeyView>,
    ordered: Seq<ResolvedPackageView>,
)
    requires
        is_ranked(packages, rank),
        resolve::has_key(packages, key),
        is_way(packages, rank, visiting, key),
    ensures
        resolve::visited(packages, key, visiting, ordered) is Ok,
    decreases packages.len() - visiting.len(), 0nat,
{
    lemma_way_is_short(packages, rank, visiting, key);
    if !resolve::has_key(ordered, key) {
        resolve::lemma_position(packages, key, 0);
        let index = resolve::position(packages, key, 0)->Some_0;
        let way = visiting.push(key);
        lemma_visits_succeed(packages, rank, index, 0, way, ordered);
    }
}

proof fn lemma_visits_succeed(
    packages: Seq<ResolvedPackageView>,
    rank: spec_fn(PackageKeyView) -> nat,
    index: int,
    from: int,
    visiting: Seq<PackageKeyView>,
    ordered: Seq<ResolvedPackageView>,
)
    requires
        is_ranked(packages, rank),
        0 <= index < packages.len(),
        0 <= from <= packages[index].spec.depends.len(),
        visiting.no_duplicates(),
        visiting.len() <= packages.len(),
        forall|i: int|
            0 <= i < visiting.len() ==> resolve::has_key(packages, #[trigger] visiting[i]) && rank(
                packages[index].spec.key(),
            ) <= rank(visiting[i]),
    ensures
        resolve::visited_all(packages, index, from, visiting, ordered) is Ok,
    decreases
        packages.len() - visiting.len(),
        (packages[index].spec.depends.len() - from + 1) as nat,
{
    if from < packages[index].spec.depends.len() {
        let key = packages[index].spec.depends[from].key();
        assert(is_way(packages, rank, visiting, key));
        lemma_visit_succeeds(packages, rank, key, visiting, ordered);
        let next = resolve::visited(packages, key, visiting, ordered)->Ok_0;
        lemma_visits_succeed(packages, rank, index, from + 1, visiting, next);
    }
}

proof fn lemma_order_succeeds(
    packages: Seq<ResolvedPackageView>,
    rank: spec_fn(PackageKeyView) -> nat,
    from: int,
    ordered: Seq<ResolvedPackageView>,
)
    requires
        is_ranked(packages, rank),
        0 <= from,
    ensures
        resolve::ordered_from(packages, from, ordered) is Ok,
    decreases packages.len() - from,
{
    if from < packages.len() {
        let key = packages[from].spec.key();
        assert(resolve::has_key(packages, key));
        lemma_visit_succeeds(packages, rank, key, Seq::empty(), ordered);
        let next = resolve::visited(packages, key, Seq::empty(), ordered)->Ok_0;
        lemma_order_succeeds(packages, rank, from + 1, next);
    }
}

/// Packages whose dependencies are among them and lead in no circle can be put in order.
pub proof fn lemma_ranked_packages_can_be_ordered(
    packages: Seq<ResolvedPackageView>,
    rank: spec_fn(PackageKeyView) -> nat,
)
    requires
        is_ranked(packages, rank),
    ensures
        resolve::topological(packages) is Ok,
{
    lemma_order_succeeds(packages, rank, 0, Seq::empty());
}

/// A request for a package without dependencies is met if and only if one of the registered
/// packages of its name and namespace is what it asks for, and not the system is asked.
pub proof fn lemma_sole_requests_are_met_where_possible(
    catalog: Seq<PackageSpecView>,
    request: PackageRequestView,
)
    requires
        forall|i: int| 0 <= i < catalog.len() ==> (#[trigger] catalog[i]).depends.len() == 0,
    ensures
        resolve::resolution(catalog, seq![request]) is Ok <==> request.source
            != RequestSource::System && exists|i: int|
            0 <= i < catalog.len() && is_named(#[trigger] catalog[i], request.key()) && suits(
                request.mode,
                catalog[i].version,
            ),
{
    let requests = seq![request];
    let none = Seq::<ResolvedPackageView>::empty();
    let found = resolve::candidates(catalog, request.key());
    let possible = exists|i: int|
        0 <= i < catalog.len() && is_named(#[trigger] catalog[i], request.key()) && suits(
            request.mode,
            catalog[i].version,
        );
    resolve::lemma_position(none, request.key(), 0);
    resolve::lemma_slot(none, request.key(), 0);
    lemma_candidates(catalog, request.key());
    version::lemma_selection_is_accepted(found, request.mode);
    if possible {
        let i = choose|i: int|
            0 <= i < catalog.len() && is_named(#[trigger] catalog[i], request.key()) && suits(
                request.mode,
                catalog[i].version,
            );
        assert(found.contains(catalog[i]));
        let at = found.index_of(catalog[i]);
        assert(version::accepts(request.mode, found[at].version));
    }
    if let Ok(spec) = resolve::selected_for(catalog, request) {
        let at = found.index_of(spec);
        assert(found[at] == spec);
        assert(catalog.contains(found[at]));
        let i = catalog.index_of(spec);
        assert(catalog[i] == spec);
        assert(possible);
        let package = resolve::first_asked(spec, request);
        let after = none.insert(0, package);
        let next = spec.depends + requests.subrange(1, 1);
        resolve::lemma_admitted(catalog, request, none);
        assert(resolve::admitted(catalog, request, none) == Ok::<
            (Seq<ResolvedPackageView>, Seq<PackageRequestView>),
            Messages,
        >((after, spec.depends)));
        assert(next =~= Seq::<PackageRequestView>::empty());
        reveal_with_fuel(resolve::resolved_from, 2);
        assert(resolve::resolved_from(catalog, requests, none) == Ok::<
            Seq<ResolvedPackageView>,
            Messages,
        >(after));
        let rank = |key: PackageKeyView| 0nat;
        assert(is_ranked(after, rank));
        lemma_ranked_packages_can_be_ordered(after, rank);
    } else {
        assert(resolve::admitted(catalog, request, none) is Err);
        assert(requests[0] == request);
        assert(resolve::resolved_from(catalog, requests, none) is Err);
    }
}

proof fn lemma_arches(packages: Seq<ResolvedPackageView>)
    ensures
        forall|i: int|
            0 <= i < packages.len() ==> resolve::target_arches(packages).contains(
                (#[trigger] packages[i]).spec.target_arch,
            ),
        forall|k: int|
            0 <= k < resolve::target_arches(packages).len() ==> exists|i: int|
                0 <= i < packages.len() && (#[trigger] packages[i]).spec.target_arch
                    == #[trigger] resolve::target_arches(packages)[k],
        packages.len() > 0 ==> resolve::target_arches(packages).len() > 0,
        packages.len() == 0 ==> resolve::target_arches(packages).len() == 0,
        resolve_laws::ascending(resolve::target_arches(packages)),
    decreases packages.len(),
{
    if packages.len() > 0 {
        let before = packages.drop_last();
        let last = packages.last().spec.target_arch;
        let known = resolve::target_arches(before);
        let all = resolve::target_arches(packages);
        lemma_arches(before);
        crate::render_laws::lemma_with_text_holds(known, last);
        resolve_laws::lemma_with_text(known, last);
        assert forall|i: int| 0 <= i < packages.len() implies all.contains(
            (#[trigger] packages[i]).spec.target_arch,
        ) by {
            if i < before.len() {
                assert(before[i] == packages[i]);
                assert(known.contains(packages[i].spec.target_arch));
            }
        }
        assert forall|k: int| 0 <= k < all.len() implies exists|i: int|
            0 <= i < packages.len() && (#[trigger] packages[i]).spec.target_arch
                == #[trigger] all[k] by {
            assert(all.contains(all[k]));
            if known.contains(all[k]) {
                let at = known.index_of(all[k]);
                let i = choose|i: int|
                    0 <= i < before.len() && (#[trigger] before[i]).spec.target_arch == known[at];
                assert(packages[i].spec.target_arch == all[k]);
            } else {
                assert(packages[packages.len() - 1].spec.target_arch == all[k]);
            }
        }
        assert(all.contains(last));
    }
}

/// Selected packages share a store only where they are all for one architecture, and then it is
/// that of this architecture; where nothing is selected, it is that of the host.
pub proof fn lemma_selected_packages_share_one_architecture(
    packages: Seq<ResolvedPackageView>,
    host: Text,
    i: int,
    j: int,
)
    requires
        packages.len() > 0 ==> 0 <= i < packages.len() && 0 <= j < packages.len(),
    ensures
        packages.len() == 0 ==> resolve::selected_variant(packages, host) == Ok::<Text, Messages>(
            arch::arch_variant(host),
        ),
        packages.len() > 0 && packages[i].spec.target_arch != packages[j].spec.target_arch
            ==> resolve::selected_variant(packages, host) is Err,
        packages.len() > 0 && (forall|k: int|
            0 <= k < packages.len() ==> (#[trigger] packages[k]).spec.target_arch
                == packages[i].spec.target_arch) ==> resolve::selected_variant(packages, host)
            == arch::target_variant(packages[i].spec.target_arch),
{
    let arches = resolve::target_arches(packages);
    lemma_arches(packages);
    if packages.len() > 0 {
        assert(arches.contains(packages[i].spec.target_arch));
        assert(arches.contains(packages[j].spec.target_arch));
        let a = arches.index_of(packages[i].spec.target_arch);
        let b = arches.index_of(packages[j].spec.target_arch);
        assert(arches[a] == packages[i].spec.target_arch);
        assert(arches[b] == packages[j].spec.target_arch);
        if forall|k: int|
            0 <= k < packages.len() ==> (#[trigger] packages[k]).spec.target_arch
                == packages[i].spec.target_arch {
            let wanted = packages[i].spec.target_arch;
            assert forall|k: int| 0 <= k < arches.len() implies #[trigger] arches[k] == wanted by {
                let m = choose|m: int|
                    0 <= m < packages.len() && (#[trigger] packages[m]).spec.target_arch
                        == arches[k];
                assert(packages[m].spec.target_arch == wanted);
            }
            if arches.len() > 1 {
                assert(text::text_order(arches[0], arches[1]) == Order::Less);
                text::lemma_order_equal(arches[0], arches[1], 0);
            }
        }
    }
}

/// Whether what a package depends on is not asked of the system, or is still to be looked at.
spec fn is_clear(pending: Seq<PackageRequestView>, spec: PackageSpecView) -> bool {
    forall|d: int|
        0 <= d < spec.depends.len() ==> (#[trigger] spec.depends[d]).source
            != RequestSource::System || pending.contains(spec.depends[d])
}

proof fn lemma_nothing_is_asked_of_the_system(
    catalog: Seq<PackageSpecView>,
    pending: Seq<PackageRequestView>,
    packages: Seq<ResolvedPackageView>,
)
    requires
        forall|i: int| 0 <= i < packages.len() ==> is_clear(pending, (#[trigger] packages[i]).spec),
    ensures
        resolve::resolved_from(catalog, pending, packages) matches Ok(result) ==> {
            &&& forall|i: int|
                0 <= i < pending.len() ==> (#[trigger] pending[i]).source != RequestSource::System
            &&& forall|i: int|
                0 <= i < result.len() ==> is_clear(Seq::empty(), (#[trigger] result[i]).spec)
        },
    decreases resolve::unselected(catalog, packages), pending.len(),
{
    if pending.len() == 0 {
        assert(pending =~= Seq::<PackageRequestView>::empty());
    } else {
        let request = pending[0];
        resolve::lemma_admitted(catalog, request, packages);
        resolve::lemma_position(packages, request.key(), 0);
        resolve::lemma_slot(packages, request.key(), 0);
        if let Ok((after, brought)) = resolve::admitted(catalog, request, packages) {
            let rest = pending.subrange(1, pending.len() as int);
            let next = brought + rest;
            assert(request.source != RequestSource::System);
            assert forall|i: int| 0 <= i < after.len() implies is_clear(
                next,
                (#[trigger] after[i]).spec,
            ) by {
                let spec = after[i].spec;
                if resolve::position(packages, request.key(), 0) is None && i == resolve::slot(
                    packages,
                    request.key(),
                    0,
                ) {
                    assert(spec.depends == brought);
                    assert forall|d: int| 0 <= d < spec.depends.len() implies next.contains(
                        #[trigger] spec.depends[d],
                    ) by {
                        assert(next[d] == spec.depends[d]);
                    }
                } else {
                    let known: int = if resolve::position(packages, request.key(), 0) is None && i
                        > resolve::slot(packages, request.key(), 0) {
                        i - 1
                    } else {
                        i
                    };
                    assert(packages[known].spec == spec);
                    assert(is_clear(pending, packages[known].spec));
                    assert forall|d: int| 0 <= d < spec.depends.len() implies (
                    #[trigger] spec.depends[d]).source != RequestSource::System || next.contains(
                        spec.depends[d],
                    ) by {
                        let wanted = spec.depends[d];
                        if wanted.source == RequestSource::System {
                            let p = pending.index_of(wanted);
                            assert(pending[p] == wanted);
                            assert(p > 0);
                            assert(next[brought.len() + p - 1] == wanted);
                        }
                    }
                }
            }
            lemma_nothing_is_asked_of_the_system(catalog, next, after);
            if resolve::resolved_from(catalog, next, after) is Ok {
                assert forall|i: int| 0 <= i < pending.len() implies (#[trigger] pending[i]).source
                    != RequestSource::System by {
                    if i > 0 {
                        assert(next[brought.len() + i - 1] == pending[i]);
                    }
                }
            }
        }
    }
}

/// A selection is refused where the system is asked for a package, by the manifest or by a package
/// that is selected.
pub proof fn lemma_the_system_cannot_be_asked(
    catalog: Seq<PackageSpecView>,
    requests: Seq<PackageRequestView>,
    ordered: Seq<ResolvedPackageView>,
)
    requires
        resolve::resolution(catalog, requests) == Ok::<Seq<ResolvedPackageView>, Messages>(ordered),
    ensures
        forall|i: int|
            0 <= i < requests.len() ==> (#[trigger] requests[i]).source != RequestSource::System,
        forall|i: int, d: int|
            0 <= i < ordered.len() && 0 <= d < ordered[i].spec.depends.len() ==> (
            #[trigger] ordered[i].spec.depends[d]).source != RequestSource::System,
{
    let packages = resolve::resolved_from(catalog, requests, Seq::empty())->Ok_0;
    lemma_nothing_is_asked_of_the_system(catalog, requests, Seq::empty());
    resolve_laws::lemma_ordering_keeps_the_selection(packages);
    assert forall|i: int, d: int|
        0 <= i < ordered.len() && 0 <= d < ordered[i].spec.depends.len() implies (
    #[trigger] ordered[i].spec.depends[d]).source != RequestSource::System by {
        assert(packages.contains(ordered[i]));
        let at = packages.index_of(ordered[i]);
        assert(is_clear(Seq::empty(), packages[at].spec));
        assert(packages[at] == ordered[i]);
    }
}

/// Packages and requests go together if and only if they have the same name and namespace.
pub proof fn lemma_names_and_namespaces_tell_packages_apart(
    spec: PackageSpecView,
    other: PackageSpecView,
    request: PackageRequestView,
)
    ensures
        spec.key() == other.key() <==> spec.name == other.name && spec.namespace
            == other.namespace,
        spec.key() == request.key() <==> spec.name == request.name && spec.namespace
            == request.namespace,
        spec.key().name == spec.name && spec.key().namespace == spec.namespace,
        request.key().name == request.name && request.key().namespace == request.namespace,
{
}

proof fn lemma_first_target(targets: Seq<TargetSpecView>, name: Text, from: int, at: int)
    requires
        0 <= from <= at < targets.len(),
        targets[at].name == name,
        forall|i: int| from <= i < at ==> (#[trigger] targets[i]).name != name,
    ensures
        model::target_position(targets, name, from) == Some(at),
    decreases at - from,
{
    if from < at {
        lemma_first_target(targets, name, from + 1, at);
    }
}

proof fn lemma_no_target(targets: Seq<TargetSpecView>, name: Text, from: int)
    requires
        0 <= from <= targets.len(),
        forall|i: int| from <= i < targets.len() ==> (#[trigger] targets[i]).name != name,
    ensures
        model::target_position(targets, name, from) is None,
    decreases targets.len() - from,
{
    if from < targets.len() {
        lemma_no_target(targets, name, from + 1);
    }
}

/// A package is stood for by the target that is named as its primary one, else by its first.
pub proof fn lemma_primary_targets_stand_for_packages(spec: PackageSpecView, index: int)
    ensures
        spec.primary_target_name is None && spec.targets.len() > 0 ==> spec.primary_index() == Some(
            0int,
        ),
        spec.primary_target_name is None && spec.targets.len() == 0 ==> spec.primary_index()
            is None,
        spec.primary_target_name is Some && 0 <= index < spec.targets.len()
            && spec.targets[index].name == spec.primary_target_name->Some_0 && (forall|i: int|
            0 <= i < index ==> (#[trigger] spec.targets[i]).name
                != spec.primary_target_name->Some_0) ==> spec.primary_index() == Some(index),
        spec.primary_target_name is Some && (forall|i: int|
            0 <= i < spec.targets.len() ==> (#[trigger] spec.targets[i]).name
                != spec.primary_target_name->Some_0) ==> spec.primary_index() is None,
{
    if let Some(name) = spec.primary_target_name {
        if 0 <= index < spec.targets.len() && spec.targets[index].name == name && forall|i: int|
            0 <= i < index ==> (#[trigger] spec.targets[i]).name != name {
            lemma_first_target(spec.targets, name, 0, index);
        }
        if forall|i: int|
            0 <= i < spec.targets.len() ==> (#[trigger] spec.targets[i]).name != name {
            lemma_no_target(spec.targets, name, 0);
        }
    }
}

} // verus!
