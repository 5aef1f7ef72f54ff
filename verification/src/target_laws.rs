//! What holds of the public names that packages export.

use vstd::prelude::*;
use crate::model::Text;
use crate::resolve::ResolvedPackageView;
use crate::targets;

verus! {

proof fn lemma_no_earlier_owner(
    owners: Seq<(Text, Text)>,
    name: Text,
    from: int,
    before: int,
    index: int,
)
    requires
        targets::earlier_owner(owners, name, from, before) is None,
        0 <= from <= index < before <= owners.len(),
    ensures
        owners[index].0 != name,
    decreases before - from,
{
    if from < index {
        lemma_no_earlier_owner(owners, name, from + 1, before, index);
    }
}

proof fn lemma_no_collision(owners: Seq<(Text, Text)>, from: int, i: int, j: int)
    requires
        targets::collision_from(owners, from) is None,
        0 <= from <= j,
        0 <= i < j < owners.len(),
    ensures
        owners[i].0 != owners[j].0,
    decreases owners.len() - from,
{
    if from < j {
        lemma_no_collision(owners, from + 1, i, j);
    } else {
        lemma_no_earlier_owner(owners, owners[j].0, 0, j, i);
    }
}

proof fn lemma_owners_name_the_bindings(selected: Seq<ResolvedPackageView>)
    ensures
        targets::owners_of(selected).len() == targets::all_bindings(selected).len(),
        forall|i: int|
            0 <= i < targets::all_bindings(selected).len() ==> targets::owners_of(selected)[i].0
                == (#[trigger] targets::all_bindings(selected)[i]).0,
    decreases selected.len(),
{
    if selected.len() > 0 {
        let rest = selected.drop_last();
        let package = selected.last();
        lemma_owners_name_the_bindings(rest);
        let own = targets::package_bindings(package, package.spec.targets.len() as int);
        let named = own.map_values(|binding: (Text, Text)| (binding.0, package.spec.id()));
        assert(targets::owners_of(selected) == targets::owners_of(rest) + named);
        assert(targets::all_bindings(selected) == targets::all_bindings(rest) + own);
        assert forall|i: int| 0 <= i < targets::all_bindings(selected).len() implies
            targets::owners_of(selected)[i].0 == (#[trigger] targets::all_bindings(selected)[i]).0 by {
            let count = targets::all_bindings(rest).len();
            if i < count {
                assert(targets::all_bindings(selected)[i] == targets::all_bindings(rest)[i]);
                assert(targets::owners_of(selected)[i] == targets::owners_of(rest)[i]);
            } else {
                assert(targets::all_bindings(selected)[i] == own[i - count]);
                assert(targets::owners_of(selected)[i] == named[i - count]);
            }
        }
    }
}

/// Where the check for collisions passes, no public name is exported twice.
pub proof fn lemma_public_names_are_distinct(selected: Seq<ResolvedPackageView>, i: int, j: int)
    requires
        targets::collision_check(selected) is Ok,
        0 <= i < j < targets::all_bindings(selected).len(),
    ensures
        targets::all_bindings(selected)[i].0 != targets::all_bindings(selected)[j].0,
{
    lemma_owners_name_the_bindings(selected);
    lemma_no_collision(targets::owners_of(selected), 0, i, j);
}

proof fn lemma_new_names_have_no_owner(
    owners: Seq<(Text, Text)>,
    name: Text,
    from: int,
    before: int,
)
    requires
        0 <= from,
        before <= owners.len(),
        forall|i: int| from <= i < before ==> (#[trigger] owners[i]).0 != name,
    ensures
        targets::earlier_owner(owners, name, from, before) is None,
    decreases before - from,
{
    if from < before {
        lemma_new_names_have_no_owner(owners, name, from + 1, before);
    }
}

proof fn lemma_distinct_names_do_not_collide(owners: Seq<(Text, Text)>, from: int)
    requires
        0 <= from <= owners.len(),
        forall|i: int, j: int|
            0 <= i < j < owners.len() ==> (#[trigger] owners[i]).0 != (#[trigger] owners[j]).0,
    ensures
        targets::collision_from(owners, from) is None,
    decreases owners.len() - from,
{
    if from < owners.len() {
        lemma_new_names_have_no_owner(owners, owners[from].0, 0, from);
        lemma_distinct_names_do_not_collide(owners, from + 1);
    }
}

/// Where no public name is exported twice, the check for collisions passes.
pub proof fn lemma_distinct_public_names_pass(selected: Seq<ResolvedPackageView>)
    requires
        forall|i: int, j: int|
            0 <= i < j < targets::all_bindings(selected).len() ==> (
            #[trigger] targets::all_bindings(selected)[i]).0 != (
            #[trigger] targets::all_bindings(selected)[j]).0,
    ensures
        targets::collision_check(selected) is Ok,
{
    let owners = targets::owners_of(selected);
    let all = targets::all_bindings(selected);
    lemma_owners_name_the_bindings(selected);
    assert forall|i: int, j: int| 0 <= i < j < owners.len() implies (#[trigger] owners[i]).0 != (
    #[trigger] owners[j]).0 by {
        assert(all[i].0 != all[j].0);
    }
    lemma_distinct_names_do_not_collide(owners, 0);
}

} // verus!
