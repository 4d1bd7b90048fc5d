//! The keys of a hash map or hash set as a list. Which order they come in is
//! up to the hasher: the contracts leave it open.

use std::collections::{HashMap, HashSet};
use vstd::prelude::*;

verus! {

broadcast use vstd::std_specs::hash::group_hash_axioms;

/// `order` lists exactly the elements of `set`, each once.
pub open spec fn enumerates(order: Seq<u64>, set: Set<u64>) -> bool {
    &&& order.no_duplicates()
    &&& order.to_set() == set
}

pub(crate) proof fn lemma_to_set_push(order: Seq<u64>, last: u64)
    ensures
        order.push(last).to_set() == order.to_set().insert(last),
{
    let pushed = order.push(last);
    assert forall|x: u64| #[trigger] pushed.to_set().contains(x) == order.to_set().insert(
        last,
    ).contains(x) by {
        if order.contains(x) {
            let i = choose|i: int| 0 <= i < order.len() && order[i] == x;
            assert(pushed[i] == x);
        }
        assert(pushed[order.len() as int] == last);
    }
    assert(pushed.to_set() =~= order.to_set().insert(last));
}

/// The elements of a set.
pub(crate) fn elements(set: &HashSet<u64>) -> (order: Vec<u64>)
    ensures
        enumerates(order@, set@),
{
    let mut order: Vec<u64> = Vec::new();
    for element in it: set.iter()
        invariant
            it.seq().unref().to_set() == set@,
            it.seq().no_duplicates(),
            order@ == it.seq().unref().take(it.index() as int),
            it.index() == it.seq().len() ==> order@ == it.seq().unref(),
    {
        order.push(*element);
        assert(it.seq().unref().take(it.index() + 1) =~= order@);
    }
    order
}

/// The keys of a map.
pub(crate) fn keys<V>(map: &HashMap<u64, V>) -> (order: Vec<u64>)
    ensures
        enumerates(order@, map@.dom()),
{
    let mut order: Vec<u64> = Vec::new();
    for key in it: map.keys()
        invariant
            it.seq().unref().to_set() == map@.dom(),
            it.seq().no_duplicates(),
            order@ == it.seq().unref().take(it.index() as int),
            it.index() == it.seq().len() ==> order@ == it.seq().unref(),
    {
        order.push(*key);
        assert(it.seq().unref().take(it.index() + 1) =~= order@);
    }
    order
}

/// A list of a set's elements holds each of them once and nothing else, so it
/// is as long as the set is large.
pub proof fn lists_hold_each_element_once(order: Seq<u64>, set: Set<u64>, x: u64, i: int, j: int)
    requires
        enumerates(order, set),
    ensures
        order.contains(x) <==> set.contains(x),
        0 <= i < order.len() && 0 <= j < order.len() && order[i] == order[j] ==> i == j,
        order.len() == set.len(),
{
    assert(order.to_set().contains(x) == order.contains(x));
    order.unique_seq_to_set();
}

} // verus!
