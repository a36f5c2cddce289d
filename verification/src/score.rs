//! Exact predicted scores and the mathematics of the adjusted weighted sum.
//!
//! The prediction formula is `avg(user) + deviation / sum`, where `sum` is
//! the total of the similarity weights and `deviation` weights each
//! neighbor's departure from their own mean rating. Both are integer sums,
//! so the score is the exact rational `(avg(user) * sum + deviation) / sum`
//! and never an approximation.

use vstd::prelude::*;

verus! {

/// An exact predicted score: the rational `num / den`. Scores produced by
/// prediction always carry a positive denominator.
#[derive(Clone, Copy, Debug, PartialEq, Eq, Structural)]
pub struct Score {
    pub num: i128,
    pub den: i128,
}

impl Score {
    /// A score is well formed when its denominator is positive.
    pub open spec fn wf(self) -> bool {
        self.den > 0
    }
}

/// The sum of the similarity weights of a neighborhood.
pub open spec fn sum_sims(sims: Seq<int>) -> int
    decreases sims.len(),
{
    if sims.len() == 0 {
        0
    } else {
        sum_sims(sims.drop_last()) + sims.last()
    }
}

/// The similarity-weighted sum of each neighbor's deviation from their own
/// mean rating: `sum over j of sims[j] * (ratings[j] - avgs[j])`.
pub open spec fn weighted_deviation(sims: Seq<int>, ratings: Seq<int>, avgs: Seq<int>) -> int
    recommends
        sims.len() == ratings.len(),
        sims.len() == avgs.len(),
    decreases sims.len(),
{
    if sims.len() == 0 {
        0
    } else {
        weighted_deviation(sims.drop_last(), ratings.drop_last(), avgs.drop_last())
            + sims.last() * (ratings.last() - avgs.last())
    }
}

/// The numerator of `avg_u + weighted_deviation / sum_sims` put over the
/// common denominator `sum_sims`, before sign normalization.
pub open spec fn raw_prediction_num(
    avg_u: int,
    sims: Seq<int>,
    ratings: Seq<int>,
    avgs: Seq<int>,
) -> int {
    avg_u * sum_sims(sims) + weighted_deviation(sims, ratings, avgs)
}

/// The numerator of the predicted score, with the sign arranged so that the
/// denominator `prediction_den` is nonnegative.
pub open spec fn prediction_num(
    avg_u: int,
    sims: Seq<int>,
    ratings: Seq<int>,
    avgs: Seq<int>,
) -> int {
    if sum_sims(sims) >= 0 {
        raw_prediction_num(avg_u, sims, ratings, avgs)
    } else {
        -raw_prediction_num(avg_u, sims, ratings, avgs)
    }
}

/// The denominator of the predicted score: the absolute value of the sum of
/// the similarity weights.
pub open spec fn prediction_den(sims: Seq<int>) -> int {
    if sum_sims(sims) >= 0 {
        sum_sims(sims)
    } else {
        -sum_sims(sims)
    }
}

/// A sum of equal similarity weights is the weight times the count.
proof fn lemma_sum_sims_const(sims: Seq<int>, s: int)
    requires
        forall|j: int| 0 <= j < sims.len() ==> sims[j] == s,
    ensures
        sum_sims(sims) == s * sims.len(),
    decreases sims.len(),
{
    if sims.len() == 0 {
    } else {
        lemma_sum_sims_const(sims.drop_last(), s);
        assert(s * (sims.len() - 1) + s == s * sims.len()) by (nonlinear_arith);
    }
}

/// With unit similarity weights and one common deviation `d` of every
/// rating from its neighbor's mean, the weighted deviation is `d` times the
/// neighborhood size.
proof fn lemma_weighted_deviation_unit(sims: Seq<int>, ratings: Seq<int>, avgs: Seq<int>, d: int)
    requires
        ratings.len() == sims.len(),
        avgs.len() == sims.len(),
        forall|j: int| 0 <= j < sims.len() ==> sims[j] == 1,
        forall|j: int| 0 <= j < sims.len() ==> ratings[j] - avgs[j] == d,
    ensures
        weighted_deviation(sims, ratings, avgs) == d * sims.len(),
    decreases sims.len(),
{
    if sims.len() == 0 {
    } else {
        lemma_weighted_deviation_unit(
            sims.drop_last(),
            ratings.drop_last(),
            avgs.drop_last(),
            d,
        );
        assert(d * (sims.len() - 1) + d == d * sims.len()) by (nonlinear_arith);
    }
}

/// When every rating equals its neighbor's mean, the weighted deviation
/// vanishes, whatever the weights.
proof fn lemma_weighted_deviation_vanishes(sims: Seq<int>, ratings: Seq<int>, avgs: Seq<int>)
    requires
        ratings.len() == sims.len(),
        avgs.len() == sims.len(),
        forall|j: int| 0 <= j < sims.len() ==> ratings[j] == avgs[j],
    ensures
        weighted_deviation(sims, ratings, avgs) == 0,
    decreases sims.len(),
{
    if sims.len() == 0 {
    } else {
        lemma_weighted_deviation_vanishes(sims.drop_last(), ratings.drop_last(), avgs.drop_last());
    }
}

/// Scaling every similarity weight by `k` scales their sum by `k`.
proof fn lemma_sum_sims_scaled(sims: Seq<int>, k: int)
    ensures
        sum_sims(sims.map_values(|s: int| k * s)) == k * sum_sims(sims),
    decreases sims.len(),
{
    let scaled = sims.map_values(|s: int| k * s);
    if sims.len() == 0 {
        assert(scaled.len() == 0);
    } else {
        lemma_sum_sims_scaled(sims.drop_last(), k);
        assert(scaled.drop_last() =~= sims.drop_last().map_values(|s: int| k * s));
        assert(scaled.last() == k * sims.last());
        assert(k * sum_sims(sims.drop_last()) + k * sims.last() == k * (sum_sims(
            sims.drop_last(),
        ) + sims.last())) by (nonlinear_arith);
    }
}

/// Scaling every similarity weight by `k` scales the weighted deviation
/// by `k`.
proof fn lemma_weighted_deviation_scaled(
    sims: Seq<int>,
    ratings: Seq<int>,
    avgs: Seq<int>,
    k: int,
)
    requires
        ratings.len() == sims.len(),
        avgs.len() == sims.len(),
    ensures
        weighted_deviation(sims.map_values(|s: int| k * s), ratings, avgs) == k
            * weighted_deviation(sims, ratings, avgs),
    decreases sims.len(),
{
    let scaled = sims.map_values(|s: int| k * s);
    if sims.len() == 0 {
        assert(scaled.len() == 0);
    } else {
        lemma_weighted_deviation_scaled(
            sims.drop_last(),
            ratings.drop_last(),
            avgs.drop_last(),
            k,
        );
        assert(scaled.drop_last() =~= sims.drop_last().map_values(|s: int| k * s));
        assert(scaled.last() == k * sims.last());
        let dev0 = weighted_deviation(sims.drop_last(), ratings.drop_last(), avgs.drop_last());
        let s = sims.last();
        let diff = ratings.last() - avgs.last();
        assert(k * dev0 + (k * s) * diff == k * (dev0 + s * diff)) by (nonlinear_arith);
    }
}

/// Law: over a neighborhood made only of copies of the user — every
/// neighbor carries the user's own mean rating, similarity weight 1, and
/// rated the item with one observed rating `c` — the prediction reduces to
/// that observed rating: the score is exactly `c`.
pub proof fn lemma_self_similarity(
    avg_u: int,
    sims: Seq<int>,
    ratings: Seq<int>,
    avgs: Seq<int>,
    c: int,
)
    requires
        sims.len() > 0,
        ratings.len() == sims.len(),
        avgs.len() == sims.len(),
        forall|j: int| 0 <= j < sims.len() ==> sims[j] == 1,
        forall|j: int| 0 <= j < sims.len() ==> avgs[j] == avg_u,
        forall|j: int| 0 <= j < sims.len() ==> ratings[j] == c,
    ensures
        prediction_den(sims) == sims.len(),
        prediction_num(avg_u, sims, ratings, avgs) == c * sims.len(),
        prediction_num(avg_u, sims, ratings, avgs) == c * prediction_den(sims),
{
    lemma_sum_sims_const(sims, 1);
    lemma_weighted_deviation_unit(sims, ratings, avgs, c - avg_u);
    let len = sims.len() as int;
    assert(avg_u * (1 * len) + (c - avg_u) * len == c * len) by (nonlinear_arith);
}

/// Law: scaling every similarity weight by one positive constant `k` leaves
/// the predicted score unchanged: its numerator and denominator both pick
/// up the factor `k`, so the scaled and the unscaled score denote the same
/// rational number.
pub proof fn lemma_normalization_invariance(
    avg_u: int,
    sims: Seq<int>,
    ratings: Seq<int>,
    avgs: Seq<int>,
    k: int,
)
    requires
        k > 0,
        ratings.len() == sims.len(),
        avgs.len() == sims.len(),
    ensures
        sum_sims(sims.map_values(|s: int| k * s)) == k * sum_sims(sims),
        prediction_num(avg_u, sims.map_values(|s: int| k * s), ratings, avgs) == k
            * prediction_num(avg_u, sims, ratings, avgs),
        prediction_den(sims.map_values(|s: int| k * s)) == k * prediction_den(sims),
        prediction_num(avg_u, sims.map_values(|s: int| k * s), ratings, avgs) * prediction_den(
            sims,
        ) == prediction_num(avg_u, sims, ratings, avgs) * prediction_den(
            sims.map_values(|s: int| k * s),
        ),
{
    let scaled = sims.map_values(|s: int| k * s);
    lemma_sum_sims_scaled(sims, k);
    lemma_weighted_deviation_scaled(sims, ratings, avgs, k);
    let ss = sum_sims(sims);
    let dev = weighted_deviation(sims, ratings, avgs);
    assert(avg_u * (k * ss) + k * dev == k * (avg_u * ss + dev)) by (nonlinear_arith);
    assert(k > 0 && ss >= 0 ==> k * ss >= 0) by (nonlinear_arith);
    assert(k > 0 && ss < 0 ==> k * ss < 0) by (nonlinear_arith);
    assert(k * (-(avg_u * ss + dev)) == -(k * (avg_u * ss + dev))) by (nonlinear_arith);
    assert(k * (-ss) == -(k * ss)) by (nonlinear_arith);
    let num = prediction_num(avg_u, sims, ratings, avgs);
    let den = prediction_den(sims);
    assert((k * num) * den == num * (k * den)) by (nonlinear_arith);
}

/// Law: when every neighbor's rating of the item equals that neighbor's own
/// mean rating and the similarity weights do not cancel to zero, the
/// prediction is exactly the user's own mean, whatever the weights are.
pub proof fn lemma_zero_deviation(avg_u: int, sims: Seq<int>, ratings: Seq<int>, avgs: Seq<int>)
    requires
        ratings.len() == sims.len(),
        avgs.len() == sims.len(),
        forall|j: int| 0 <= j < sims.len() ==> ratings[j] == avgs[j],
        sum_sims(sims) != 0,
    ensures
        weighted_deviation(sims, ratings, avgs) == 0,
        prediction_den(sims) > 0,
        prediction_num(avg_u, sims, ratings, avgs) == avg_u * prediction_den(sims),
{
    lemma_weighted_deviation_vanishes(sims, ratings, avgs);
    let ss = sum_sims(sims);
    if ss < 0 {
        assert(-(avg_u * ss + 0) == avg_u * (-ss)) by (nonlinear_arith);
    }
}

} // verus!

