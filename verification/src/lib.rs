//! Neighborhood-based collaborative filtering: predict the rating a user
//! would give an item from the ratings of similar users, and rank candidate
//! items by their predicted scores.
//!
//! Ratings and similarity values are plain integers; a host that works in
//! fractional units picks a fixed scale and multiplies through, which changes
//! nothing: the prediction formula is invariant under scaling of the
//! similarity weights, and rating units carry through linearly. Predicted
//! scores are exact rationals, so every score is comparable and no
//! degenerate division can slip through unnoticed.

use vstd::prelude::*;

pub mod domain;
pub mod ranking;
pub mod score;
pub mod table;

use crate::domain::{Item, SimilarityAlgorithm, User};
use crate::score::{
    prediction_den, prediction_num, sum_sims, weighted_deviation, Score,
};

verus! {

/// Failure cases of prediction and recommendation.
#[derive(Clone, Copy, Debug, PartialEq, Eq, Structural)]
pub enum PredictionError {
    /// The neighborhood is empty, or its similarity weights sum to zero, so
    /// the normalization term of the weighted sum is undefined.
    InvalidNeighborhood,
    /// The neighbor at position `neighbor` has no rating for the target item.
    MissingRating { neighbor: usize },
    /// A computed score admits no order. Exact rational scores always
    /// admit one, so prediction and recommendation never return this;
    /// the variant completes the failure taxonomy for hosts that compare
    /// scores of their own.
    IncomparableScore,
}

/// The similarity weight of each neighbor in `dom`, as the metric `S` sees
/// the pair `(user, neighbor)`.
pub open spec fn neighborhood_sims<U, I, S>(user: &U, dom: Seq<U>) -> Seq<int> where
    U: User<I>,
    I: Item,
    S: SimilarityAlgorithm<U>,
{
    Seq::new(dom.len(), |j: int| S::spec_similarity(user, &dom[j]))
}

/// The rating each neighbor in `dom` gave `item`; meaningful only where
/// every neighbor has rated `item`.
pub open spec fn neighborhood_ratings<U, I>(dom: Seq<U>, item: &I) -> Seq<int> where
    U: User<I>,
    I: Item,
{
    Seq::new(dom.len(), |j: int| dom[j].spec_rating(item)->Some_0)
}

/// The mean rating of each neighbor in `dom`.
pub open spec fn neighborhood_avgs<U, I>(dom: Seq<U>) -> Seq<int> where
    U: User<I>,
    I: Item,
{
    Seq::new(dom.len(), |j: int| dom[j].spec_average())
}

/// Whether every neighbor in `dom` has rated `item`.
pub open spec fn all_rated<U, I>(dom: Seq<U>, item: &I) -> bool where
    U: User<I>,
    I: Item,
{
    forall|j: int| 0 <= j < dom.len() ==> #[trigger] dom[j].spec_rating(item) is Some
}

/// The `(score numerator, position)` pair of every candidate item, under
/// the shared denominator that one neighborhood gives every prediction.
pub open spec fn prediction_pairs<U, I, S>(user: &U, items: Seq<I>, dom: Seq<U>) -> Seq<
    (i128, usize),
> where U: User<I>, I: Item, S: SimilarityAlgorithm<U> {
    Seq::new(
        items.len(),
        |i: int|
            (
                prediction_num(
                    user.spec_average(),
                    neighborhood_sims::<U, I, S>(user, dom),
                    neighborhood_ratings(dom, &items[i]),
                    neighborhood_avgs::<U, I>(dom),
                ) as i128,
                i as usize,
            ),
    )
}

/// Everything `predict` promises of a result `r` computed for `user`,
/// `item` and the neighborhood `dom`; `predict`'s contract is exactly this
/// predicate, and `lemma_predict_deterministic` shows it admits one result
/// only.
pub open spec fn predict_post<U, I, S>(
    user: &U,
    item: &I,
    dom: Seq<U>,
    r: Result<(&I, Score), PredictionError>,
) -> bool where U: User<I>, I: Item, S: SimilarityAlgorithm<U> {
    let sims = neighborhood_sims::<U, I, S>(user, dom);
    let ratings = neighborhood_ratings(dom, item);
    let avgs = neighborhood_avgs::<U, I>(dom);
    &&& (dom.len() == 0 || sum_sims(sims) == 0) <==> (r matches Err(
        PredictionError::InvalidNeighborhood,
    ))
    &&& (dom.len() > 0 && sum_sims(sims) != 0 && !all_rated(dom, item)) <==> (r matches Err(
        PredictionError::MissingRating { neighbor: _ },
    ))
    &&& (r matches Err(PredictionError::MissingRating { neighbor }) ==> {
        &&& 0 <= neighbor < dom.len()
        &&& dom[neighbor as int].spec_rating(item) is None
        &&& forall|k: int| 0 <= k < neighbor ==> #[trigger] dom[k].spec_rating(item) is Some
    })
    &&& (dom.len() > 0 && sum_sims(sims) != 0 && all_rated(dom, item)) <==> r is Ok
    &&& (r matches Ok(p) ==> {
        &&& p.0 == item
        &&& p.1.num == prediction_num(user.spec_average(), sims, ratings, avgs)
        &&& p.1.den == prediction_den(sims)
        &&& p.1.wf()
    })
}

/// Everything `recommend` promises of a result `r` computed for `user`,
/// the candidates `items`, the neighborhood `dom` and the cutoff `n`;
/// `recommend`'s contract is exactly this predicate, and
/// `lemma_recommend_deterministic` shows all results it admits carry the
/// same value.
pub open spec fn recommend_post<U, I, S>(
    user: &U,
    items: Seq<I>,
    dom: Seq<U>,
    n: int,
    r: Result<Vec<&I>, PredictionError>,
) -> bool where U: User<I>, I: Item, S: SimilarityAlgorithm<U> {
    let sims = neighborhood_sims::<U, I, S>(user, dom);
    &&& items.len() == 0 ==> (r matches Ok(v) && v@.len() == 0)
    &&& (items.len() > 0 && (dom.len() == 0 || sum_sims(sims) == 0)) <==> (r matches Err(
        PredictionError::InvalidNeighborhood,
    ))
    &&& (items.len() > 0 && dom.len() > 0 && sum_sims(sims) != 0 && !(forall|i: int|
        0 <= i < items.len() ==> #[trigger] all_rated(dom, &items[i]))) <==> (r matches Err(
        PredictionError::MissingRating { neighbor: _ },
    ))
    &&& (r matches Err(PredictionError::MissingRating { neighbor })
        ==> exists|i: int|
        {
            &&& 0 <= i < items.len()
            &&& !(#[trigger] all_rated(dom, &items[i]))
            &&& forall|k: int| 0 <= k < i ==> #[trigger] all_rated(dom, &items[k])
            &&& 0 <= neighbor < dom.len()
            &&& dom[neighbor as int].spec_rating(&items[i]) is None
            &&& forall|k: int|
                0 <= k < neighbor ==> #[trigger] dom[k].spec_rating(&items[i]) is Some
        })
    &&& (items.len() == 0 || (dom.len() > 0 && sum_sims(sims) != 0 && forall|i: int|
        0 <= i < items.len() ==> #[trigger] all_rated(dom, &items[i]))) <==> r is Ok
    &&& (r matches Ok(v) ==> {
        let sorted = prediction_pairs::<U, I, S>(user, items, dom).sort_by(
            crate::ranking::pair_order(),
        );
        &&& v@.len() == (if n <= items.len() {
            n
        } else {
            items.len() as int
        })
        &&& forall|k: int| 0 <= k < v@.len() ==> *(#[trigger] v@[k]) == items[sorted[k].1 as int]
    })
}

/// Law: prediction is deterministic. For one user, item and neighborhood,
/// the contract `predict_post` admits exactly one result: any two results
/// satisfying it are equal. The rating source and the similarity metric
/// enter the contract only through their specification functions, so two
/// calls of `predict` on identical inputs with a deterministic metric
/// return identical output.
pub proof fn lemma_predict_deterministic<U, I, S>(
    user: &U,
    item: &I,
    dom: Seq<U>,
    r1: Result<(&I, Score), PredictionError>,
    r2: Result<(&I, Score), PredictionError>,
) where U: User<I>, I: Item, S: SimilarityAlgorithm<U>
    requires
        predict_post::<U, I, S>(user, item, dom, r1),
        predict_post::<U, I, S>(user, item, dom, r2),
    ensures
        r1 == r2,
{
    let sims = neighborhood_sims::<U, I, S>(user, dom);
    if dom.len() == 0 || sum_sims(sims) == 0 {
        assert(r1 matches Err(PredictionError::InvalidNeighborhood));
        assert(r2 matches Err(PredictionError::InvalidNeighborhood));
    } else if !all_rated(dom, item) {
        match (r1, r2) {
            (
                Err(PredictionError::MissingRating { neighbor: a }),
                Err(PredictionError::MissingRating { neighbor: b }),
            ) => {
                if a < b {
                    assert(dom[a as int].spec_rating(item) is Some);
                    assert(false);
                }
                if b < a {
                    assert(dom[b as int].spec_rating(item) is Some);
                    assert(false);
                }
            },
            _ => {
                assert(false);
            },
        }
    } else {
        match (r1, r2) {
            (Ok(p1), Ok(p2)) => {
                assert(p1.0 == item && p2.0 == item);
                assert(p1.1.num == p2.1.num && p1.1.den == p2.1.den);
            },
            _ => {
                assert(false);
            },
        }
    }
}

/// Law: recommendation is deterministic. For one user, candidate list,
/// neighborhood and cutoff, any two results that the contract
/// `recommend_post` admits carry the same value: the same error, or
/// rankings of the same length naming the same items in the same order.
pub proof fn lemma_recommend_deterministic<U, I, S>(
    user: &U,
    items: Seq<I>,
    dom: Seq<U>,
    n: int,
    r1: Result<Vec<&I>, PredictionError>,
    r2: Result<Vec<&I>, PredictionError>,
) where U: User<I>, I: Item, S: SimilarityAlgorithm<U>
    requires
        recommend_post::<U, I, S>(user, items, dom, n, r1),
        recommend_post::<U, I, S>(user, items, dom, n, r2),
    ensures
        r1 is Ok <==> r2 is Ok,
        (r1 is Err && r2 is Err) ==> r1->Err_0 == r2->Err_0,
        (r1 is Ok && r2 is Ok) ==> (r1->Ok_0)@.len() == (r2->Ok_0)@.len() && forall|k: int|
            0 <= k < (r1->Ok_0)@.len() ==> *(#[trigger] (r1->Ok_0)@[k]) == *((r2->Ok_0)@[k]),
{
    if r1 is Ok && r2 is Ok {
    } else {
        match (r1, r2) {
            (
                Err(PredictionError::MissingRating { neighbor: a }),
                Err(PredictionError::MissingRating { neighbor: b }),
            ) => {
                let i1 = choose|i: int|
                    {
                        &&& 0 <= i < items.len()
                        &&& !(#[trigger] all_rated(dom, &items[i]))
                        &&& forall|k: int| 0 <= k < i ==> #[trigger] all_rated(dom, &items[k])
                        &&& 0 <= a < dom.len()
                        &&& dom[a as int].spec_rating(&items[i]) is None
                        &&& forall|k: int|
                            0 <= k < a ==> #[trigger] dom[k].spec_rating(&items[i]) is Some
                    };
                let i2 = choose|i: int|
                    {
                        &&& 0 <= i < items.len()
                        &&& !(#[trigger] all_rated(dom, &items[i]))
                        &&& forall|k: int| 0 <= k < i ==> #[trigger] all_rated(dom, &items[k])
                        &&& 0 <= b < dom.len()
                        &&& dom[b as int].spec_rating(&items[i]) is None
                        &&& forall|k: int|
                            0 <= k < b ==> #[trigger] dom[k].spec_rating(&items[i]) is Some
                    };
                if i1 < i2 {
                    assert(all_rated(dom, &items[i1]));
                    assert(false);
                }
                if i2 < i1 {
                    assert(all_rated(dom, &items[i2]));
                    assert(false);
                }
                if a < b {
                    assert(dom[a as int].spec_rating(&items[i1]) is Some);
                    assert(false);
                }
                if b < a {
                    assert(dom[b as int].spec_rating(&items[i1]) is Some);
                    assert(false);
                }
            },
            _ => {},
        }
    }
}

/// The entry point of the library: rating prediction and top-N
/// recommendation over a neighborhood of similar users.
pub struct Recommender;

impl Recommender {
    /// Rank the candidate `items` for `user` and return references to the
    /// `n` of them with the lowest predicted scores, in ascending score
    /// order.
    ///
    /// Every candidate is scored by `predict` against the one shared
    /// `neighborhood`; the scored candidates are sorted in ascending score
    /// order (ties in ascending candidate order), and the first `n` survive.
    /// All predictions share the neighborhood's similarity-weight sum as
    /// their denominator, so the ascending score order is the ascending
    /// order of the numerators. `users` is accepted for the host's
    /// convenience and not consulted: the same fixed neighborhood backs
    /// every candidate's prediction. The first failing prediction — taking
    /// the candidates in order — aborts the whole call with its error;
    /// no partial ranking is returned. The neighborhood must fit the
    /// 128-bit arithmetic budget of the scores, which caps its length.
    pub fn recommend<'a, U, I, S>(
        user: &'a U,
        items: &'a [I],
        neighborhood: &'a [U],
        users: &'a [U],
        similarity_algorithm: S,
        n: usize,
    ) -> (r: Result<Vec<&'a I>, PredictionError>) where
        U: User<I>,
        I: Item,
        S: SimilarityAlgorithm<U>,
        requires
            neighborhood@.len() <= 0x1_0000_0000,
        ensures
            recommend_post::<U, I, S>(user, items@, neighborhood@, n as int, r),
    {
        let user_domain = neighborhood;
        let ghost gpairs = prediction_pairs::<U, I, S>(user, items@, neighborhood@);
        let mut pairs: Vec<(i128, usize)> = Vec::new();
        for idx in 0..items.len()
            invariant
                neighborhood@.len() <= 0x1_0000_0000,
                user_domain == neighborhood,
                gpairs == prediction_pairs::<U, I, S>(user, items@, neighborhood@),
                pairs@ == gpairs.take(idx as int),
                idx > 0 ==> neighborhood@.len() > 0 && sum_sims(
                    neighborhood_sims::<U, I, S>(user, neighborhood@),
                ) != 0,
                forall|i: int|
                    0 <= i < idx ==> #[trigger] all_rated(neighborhood@, &items@[i]),
        {
            match Self::predict::<U, I, S>(user, &items[idx], user_domain) {
                Ok(p) => {
                    pairs.push((p.1.num, idx));
                    proof {
                        assert(pairs@ =~= gpairs.take(idx as int + 1));
                    }
                },
                Err(e) => {
                    return Err(e);
                },
            }
        }
        proof {
            assert(gpairs.take(items@.len() as int) =~= gpairs);
        }

        let sorted = crate::ranking::sorted_pairs(pairs);
        proof {
            crate::ranking::lemma_pair_order_total();
            gpairs.lemma_sort_by_ensures(crate::ranking::pair_order());
            vstd::seq_lib::lemma_sorted_unique(
                sorted@,
                gpairs.sort_by(crate::ranking::pair_order()),
                crate::ranking::pair_order(),
            );
            broadcast use vstd::seq_lib::group_to_multiset_ensures;

            assert forall|k: int| 0 <= k < sorted@.len() implies (((#[trigger] sorted@[k]).1
                as int) < items@.len()) by {
                assert(sorted@.to_multiset().contains(sorted@[k]));
                assert(gpairs.to_multiset().contains(sorted@[k]));
                assert(gpairs.contains(sorted@[k]));
                let i = choose|i: int| 0 <= i < gpairs.len() && gpairs[i] == sorted@[k];
                assert(gpairs[i].1 == i as usize);
            }
        }

        let count = if n < sorted.len() {
            n
        } else {
            sorted.len()
        };
        let mut recs: Vec<&'a I> = Vec::new();
        for k in 0..count
            invariant
                count <= sorted@.len(),
                sorted@ == prediction_pairs::<U, I, S>(user, items@, neighborhood@).sort_by(
                    crate::ranking::pair_order(),
                ),
                forall|k2: int|
                    0 <= k2 < sorted@.len() ==> ((#[trigger] sorted@[k2]).1 as int)
                        < items@.len(),
                recs@.len() == k,
                forall|j: int|
                    0 <= j < k ==> *(#[trigger] recs@[j]) == items@[sorted@[j].1 as int],
        {
            let target = sorted[k].1;
            recs.push(&items[target]);
        }
        Ok(recs)
    }

    /// Predict what `user` would rate `item` from the ratings that the users
    /// in `user_domain` — the neighborhood of `user` restricted to users who
    /// have rated `item` — gave it, by the adjusted weighted sum: the user's
    /// own mean plus the similarity-weighted mean deviation of the neighbors
    /// from their respective means.
    ///
    /// The returned score is the exact rational
    /// `avg(user) + (sum of sim * (rating - avg(neighbor))) / (sum of sim)`,
    /// normalized to a positive denominator, paired with the item it was
    /// computed for. An empty neighborhood or similarity weights that cancel
    /// to zero give `InvalidNeighborhood`; a neighbor without a rating for
    /// `item` gives `MissingRating` with the position of the first such
    /// neighbor. The neighborhood must fit the 128-bit arithmetic budget of
    /// the score, which caps its length.
    pub fn predict<'a, U, I, S>(user: &'a U, item: &'a I, user_domain: &[U]) -> (r: Result<
        (&'a I, Score),
        PredictionError,
    >) where
        U: User<I>,
        I: Item,
        S: SimilarityAlgorithm<U>,
        requires
            user_domain@.len() <= 0x1_0000_0000,
        ensures
            predict_post::<U, I, S>(user, item, user_domain@, r),
    {
        let n = user_domain.len();
        let ghost sims = neighborhood_sims::<U, I, S>(user, user_domain@);
        let ghost ratings = neighborhood_ratings(user_domain@, item);
        let ghost avgs = neighborhood_avgs::<U, I>(user_domain@);

        let mut simsum: i128 = 0;
        for j in 0..n
            invariant
                n == user_domain@.len() <= 0x1_0000_0000,
                sims == neighborhood_sims::<U, I, S>(user, user_domain@),
                simsum == sum_sims(sims.take(j as int)),
                -0x8000_0000i128 * (j as i128) <= simsum <= 0x8000_0000i128 * (j as i128),
        {
            let s = S::similarity(user, &user_domain[j]);
            proof {
                assert(sims.take(j + 1).drop_last() =~= sims.take(j as int));
                assert(sims.take(j + 1).last() == s as int);
            }
            simsum = simsum + s as i128;
        }
        proof {
            assert(sims.take(n as int) =~= sims);
        }

        if n == 0 || simsum == 0 {
            return Err(PredictionError::InvalidNeighborhood);
        }

        let average_rating = user.average_ratings();
        let mut deviation: i128 = 0;
        for j in 0..n
            invariant
                n == user_domain@.len() <= 0x1_0000_0000,
                n > 0,
                simsum == sum_sims(sims),
                simsum != 0,
                -0x8000_0000_0000_0000i128 <= simsum <= 0x8000_0000_0000_0000i128,
                sims == neighborhood_sims::<U, I, S>(user, user_domain@),
                ratings == neighborhood_ratings(user_domain@, item),
                avgs == neighborhood_avgs::<U, I>(user_domain@),
                deviation == weighted_deviation(
                    sims.take(j as int),
                    ratings.take(j as int),
                    avgs.take(j as int),
                ),
                -0x8000_0000_0000_0000i128 * (j as i128) <= deviation
                    <= 0x8000_0000_0000_0000i128 * (j as i128),
                forall|k: int|
                    0 <= k < j ==> #[trigger] user_domain@[k].spec_rating(item) is Some,
        {
            let rating = match user_domain[j].rated(item) {
                Some(rating) => rating,
                None => {
                    return Err(PredictionError::MissingRating { neighbor: j });
                },
            };
            let s = S::similarity(user, &user_domain[j]);
            let avg = user_domain[j].average_ratings();
            let diff: i128 = rating as i128 - avg as i128;
            assert((s as i128) * diff <= 0x8000_0000_0000_0000i128 && -0x8000_0000_0000_0000i128
                <= (s as i128) * diff) by (nonlinear_arith)
                requires
                    -0x8000_0000 <= s as i128 <= 0x8000_0000,
                    -0x1_0000_0000 <= diff <= 0x1_0000_0000,
            ;
            let term: i128 = (s as i128) * diff;
            proof {
                assert(sims.take(j + 1).drop_last() =~= sims.take(j as int));
                assert(ratings.take(j + 1).drop_last() =~= ratings.take(j as int));
                assert(avgs.take(j + 1).drop_last() =~= avgs.take(j as int));
                assert(sims.take(j + 1).last() == s as int);
                assert(ratings.take(j + 1).last() == rating as int);
                assert(avgs.take(j + 1).last() == avg as int);
            }
            deviation = deviation + term;
        }
        proof {
            assert(sims.take(n as int) =~= sims);
            assert(ratings.take(n as int) =~= ratings);
            assert(avgs.take(n as int) =~= avgs);
        }

        let avg_wide: i128 = average_rating as i128;
        assert(avg_wide * simsum <= 0x4000_0000_0000_0000_0000_0000i128
            && -0x4000_0000_0000_0000_0000_0000i128 <= avg_wide * simsum) by (nonlinear_arith)
            requires
                -0x8000_0000 <= avg_wide <= 0x8000_0000,
                -0x8000_0000_0000_0000i128 <= simsum <= 0x8000_0000_0000_0000i128,
        ;
        let raw: i128 = avg_wide * simsum + deviation;
        let score = if simsum > 0 {
            Score { num: raw, den: simsum }
        } else {
            Score { num: -raw, den: -simsum }
        };
        Ok((item, score))
    }
}

} // verus!
