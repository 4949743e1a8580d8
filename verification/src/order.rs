//! Ordering directory entries so that the deepest ones come first.
use vstd::prelude::*;
use core::cmp::Ordering;
use itertools::Itertools;

verus! {

/// The order of two (depth, position) entries in which deeper entries come
/// first; entries of equal depth compare equal.
pub fn deeper_first(a: &(usize, usize), b: &(usize, usize)) -> (o: Ordering)
    ensures
        o == (if a.0 > b.0 {
            Ordering::Less
        } else if a.0 < b.0 {
            Ordering::Greater
        } else {
            Ordering::Equal
        }),
{
    if a.0 > b.0 {
        Ordering::Less
    } else if a.0 < b.0 {
        Ordering::Greater
    } else {
        Ordering::Equal
    }
}

/// `output` is `input` sorted by depth, deepest first, with entries of equal
/// depth in their input order; `p` gives for each output position the input
/// position it came from.
pub open spec fn deepest_first_by(input: Seq<(usize, usize)>, output: Seq<(usize, usize)>, p: Seq<int>) -> bool {
    &&& p.len() == input.len()
    &&& output.len() == input.len()
    &&& forall|k: int| 0 <= k < p.len() ==> 0 <= #[trigger] p[k] < input.len()
    &&& forall|k1: int, k2: int| 0 <= k1 < k2 < p.len() ==> #[trigger] p[k1] != #[trigger] p[k2]
    &&& forall|k: int| 0 <= k < p.len() ==> #[trigger] output[k] == input[p[k]]
    &&& forall|k1: int, k2: int|
        0 <= k1 < k2 < p.len() ==> (#[trigger] output[k1]).0 >= (#[trigger] output[k2]).0
    &&& forall|k1: int, k2: int|
        0 <= k1 < k2 < p.len() && (#[trigger] output[k1]).0 == (#[trigger] output[k2]).0 ==> p[k1]
            < p[k2]
}

/// `output` is a stable sort of `input` by depth, deepest first.
pub open spec fn sorted_deepest_first(input: Seq<(usize, usize)>, output: Seq<(usize, usize)>) -> bool {
    exists|p: Seq<int>| deepest_first_by(input, output, p)
}

/// Sorts `entries` with `Itertools::sorted_by` and `deeper_first`.  That
/// method collects the items into a `Vec` and sorts it with the standard
/// library's stable `sort_by`, so the result is a stable sort: deepest first,
/// entries of equal depth in their input order.
#[verifier::external_body]
fn sort_deepest_first(entries: Vec<(usize, usize)>) -> (sorted: Vec<(usize, usize)>)
    ensures
        sorted_deepest_first(entries@, sorted@),
{
    entries.into_iter().sorted_by(|a, b| deeper_first(a, b)).collect()
}

/// The order in which to remove the directories of a tree whose entries lie
/// at `depths`: each entry's position, deepest first, entries of equal depth
/// in their given order.
pub fn removal_order(depths: &Vec<usize>) -> (order: Vec<usize>)
    ensures
        order@.len() == depths@.len(),
        forall|k: int| 0 <= k < order@.len() ==> #[trigger] order@[k] < depths@.len(),
        forall|k1: int, k2: int|
            0 <= k1 < k2 < order@.len() ==> #[trigger] order@[k1] != #[trigger] order@[k2],
        forall|k1: int, k2: int|
            0 <= k1 < k2 < order@.len() ==> depths@[#[trigger] order@[k1] as int]
                >= depths@[#[trigger] order@[k2] as int],
        forall|k1: int, k2: int|
            0 <= k1 < k2 < order@.len() && depths@[#[trigger] order@[k1] as int]
                == depths@[#[trigger] order@[k2] as int] ==> order@[k1] < order@[k2],
{
    let mut entries: Vec<(usize, usize)> = Vec::new();
    let mut i: usize = 0;
    while i < depths.len()
        invariant
            i <= depths@.len(),
            entries@.len() == i,
            forall|k: int| 0 <= k < i ==> #[trigger] entries@[k] == (depths@[k], k as usize),
        decreases depths@.len() - i,
    {
        entries.push((depths[i], i));
        i = i + 1;
    }
    let ghost input = entries@;
    let sorted = sort_deepest_first(entries);
    let ghost p = choose|p: Seq<int>| deepest_first_by(input, sorted@, p);
    assert(deepest_first_by(input, sorted@, p));
    let mut order: Vec<usize> = Vec::new();
    let mut k: usize = 0;
    while k < sorted.len()
        invariant
            k <= sorted@.len(),
            sorted@.len() == depths@.len(),
            input.len() == depths@.len(),
            deepest_first_by(input, sorted@, p),
            forall|m: int| 0 <= m < input.len() ==> #[trigger] input[m] == (depths@[m], m as usize),
            order@.len() == k,
            forall|m: int| 0 <= m < k ==> #[trigger] order@[m] == p[m],
        decreases sorted@.len() - k,
    {
        assert(sorted@[k as int] == input[p[k as int]]);
        order.push(sorted[k].1);
        k = k + 1;
    }
    assert forall|k1: int, k2: int|
        0 <= k1 < k2 < order@.len() implies depths@[#[trigger] order@[k1] as int]
        >= depths@[#[trigger] order@[k2] as int] by {
        assert(sorted@[k1] == input[p[k1]]);
        assert(sorted@[k2] == input[p[k2]]);
        assert(sorted@[k1].0 >= sorted@[k2].0);
    }
    assert forall|k1: int, k2: int|
        0 <= k1 < k2 < order@.len() && depths@[#[trigger] order@[k1] as int]
            == depths@[#[trigger] order@[k2] as int] implies order@[k1] < order@[k2] by {
        assert(sorted@[k1] == input[p[k1]]);
        assert(sorted@[k2] == input[p[k2]]);
    }
    assert forall|k1: int, k2: int|
        0 <= k1 < k2 < order@.len() implies #[trigger] order@[k1] != #[trigger] order@[k2] by {
        assert(p[k1] != p[k2]);
    }
    assert forall|m: int| 0 <= m < order@.len() implies #[trigger] order@[m] < depths@.len() by {
        assert(0 <= p[m] < input.len());
    }
    order
}

} // verus!
