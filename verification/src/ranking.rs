//! Ordering of candidate items by predicted score.
//!
//! Every prediction made over one shared neighborhood carries the same
//! denominator — the sum of the similarity weights — so ranking scores is
//! ranking their numerators. Candidates are sorted as `(numerator,
//! position)` pairs: the position breaks ties, which makes the order total
//! and the sorted sequence unique, so the result of the sort is pinned
//! exactly by its contract.

use vstd::prelude::*;

use itertools::Itertools;

verus! {

/// The ranking order on `(score numerator, candidate position)` pairs:
/// ascending numerator, ties broken by ascending position.
pub open spec fn pair_leq(a: (i128, usize), b: (i128, usize)) -> bool {
    a.0 < b.0 || (a.0 == b.0 && a.1 <= b.1)
}

/// The ranking order as a relation value, the shape the sequence sorting
/// lemmas expect.
pub open spec fn pair_order() -> spec_fn((i128, usize), (i128, usize)) -> bool {
    |a: (i128, usize), b: (i128, usize)| pair_leq(a, b)
}

/// Law: the ranking order is a total ordering, so a sequence sorted by it
/// is unique among the permutations of its elements.
pub proof fn lemma_pair_order_total()
    ensures
        vstd::relations::total_ordering(pair_order()),
{
    let leq = pair_order();
    assert forall|a: (i128, usize), b: (i128, usize)| #[trigger] leq(a, b) && leq(b, a) implies a
        == b by {
        assert(a.0 == b.0 && a.1 == b.1);
    }
    assert(vstd::relations::reflexive(leq));
    assert(vstd::relations::antisymmetric(leq));
    assert(vstd::relations::transitive(leq));
    assert(vstd::relations::strongly_connected(leq));
}

/// Compare two `(score numerator, candidate position)` pairs in the ranking
/// order.
fn cmp_pairs(a: &(i128, usize), b: &(i128, usize)) -> (r: core::cmp::Ordering)
    ensures
        r is Equal <==> *a == *b,
        r is Less <==> (pair_leq(*a, *b) && *a != *b),
        r is Greater <==> (pair_leq(*b, *a) && *a != *b),
{
    if a.0 < b.0 {
        core::cmp::Ordering::Less
    } else if b.0 < a.0 {
        core::cmp::Ordering::Greater
    } else if a.1 < b.1 {
        core::cmp::Ordering::Less
    } else if b.1 < a.1 {
        core::cmp::Ordering::Greater
    } else {
        core::cmp::Ordering::Equal
    }
}

/// Law: ranking keeps every candidate and only rearranges them. Sorting by
/// the ranking order yields a sequence of the same length holding exactly
/// the same pairs, in ascending order; and because the tie-breaking
/// position makes the order total, that sorted arrangement is the only one,
/// so a ranking of the full candidate list is a sorted permutation of it.
pub proof fn lemma_ranking_sorted(pairs: Seq<(i128, usize)>)
    ensures
        pairs.sort_by(pair_order()).len() == pairs.len(),
        pairs.sort_by(pair_order()).to_multiset() == pairs.to_multiset(),
        vstd::relations::sorted_by(pairs.sort_by(pair_order()), pair_order()),
{
    broadcast use vstd::seq_lib::group_to_multiset_ensures;

    lemma_pair_order_total();
    pairs.lemma_sort_by_ensures(pair_order());
    vstd::seq_lib::to_multiset_len(pairs);
    vstd::seq_lib::to_multiset_len(pairs.sort_by(pair_order()));
}

/// Relies on `itertools::Itertools::sorted_by`, a stable sort through
/// `slice::sort_by`: the result holds exactly the input's elements, in the
/// ascending order that the comparator `cmp_pairs` decides.
#[verifier::external_body]
pub(crate) fn sorted_pairs(v: Vec<(i128, usize)>) -> (r: Vec<(i128, usize)>)
    ensures
        r@.len() == v@.len(),
        r@.to_multiset() == v@.to_multiset(),
        vstd::relations::sorted_by(r@, pair_order()),
{
    v.into_iter().sorted_by(|a, b| cmp_pairs(a, b)).collect()
}

} // verus!
