use recommender::domain::User;
use recommender::score::Score;
use recommender::table::{StoredSimilarity, TableItem, TableUser};
use recommender::{PredictionError, Recommender};

fn user(avg: i32, sim: i32, table: Vec<(u32, i32)>) -> TableUser {
    TableUser::new(avg, sim, table)
}

fn item(id: u32) -> TableItem {
    TableItem { id }
}

fn predict(
    target: &TableUser,
    it: &TableItem,
    neighborhood: &[TableUser],
) -> Result<(u32, Score), PredictionError> {
    Recommender::predict::<TableUser, TableItem, StoredSimilarity>(target, it, neighborhood)
        .map(|(i, score)| (i.id, score))
}

fn recommend(
    target: &TableUser,
    items: &[TableItem],
    neighborhood: &[TableUser],
    n: usize,
) -> Result<Vec<u32>, PredictionError> {
    Recommender::recommend::<TableUser, TableItem, StoredSimilarity>(
        target,
        items,
        neighborhood,
        &[],
        StoredSimilarity,
        n,
    )
    .map(|items| items.iter().map(|i| i.id).collect())
}

#[test]
fn it_works() {}

// User U has mean 3; V (mean 4, rated X = 5, similarity 0.5) and W (mean 2,
// rated X = 1, similarity 0.5) form the neighborhood. With the similarity
// weights written as 1 = 2 * 0.5: norm = 1/2, deviation =
// 1*(5-4) + 1*(1-2) = 0, predicted score = 3 + 0/2 = 3.
#[test]
fn predict_concrete_scenario() {
    let u = user(3, 0, vec![]);
    let v = user(4, 1, vec![(7, 5)]);
    let w = user(2, 1, vec![(7, 1)]);
    let x = item(7);
    let (id, score) = predict(&u, &x, &[v, w]).unwrap();
    assert_eq!(id, 7);
    assert!(score.den > 0);
    assert_eq!(score.num, 3 * score.den);
    assert_eq!(score, Score { num: 6, den: 2 });
}

// A prediction with a fractional value comes back as the exact rational:
// mean 3 plus deviation (2*(5-4) + 1*(1-2)) = 1 over weight sum 3 is 10/3.
#[test]
fn predict_exact_fraction() {
    let u = user(3, 0, vec![]);
    let v = user(4, 2, vec![(5, 5)]);
    let w = user(2, 1, vec![(5, 1)]);
    let (_, score) = predict(&u, &item(5), &[v, w]).unwrap();
    assert_eq!(score, Score { num: 10, den: 3 });
}

// A negative similarity-weight sum is normalized away: the denominator
// comes back positive and the value is unchanged. Here the raw numerator is
// 3*(-3) + (-2*(5-4) + -1*(1-2)) = -10 over -3, normalized to 10/3.
#[test]
fn predict_negative_weight_sum_normalizes() {
    let u = user(3, 0, vec![]);
    let v = user(4, -2, vec![(5, 5)]);
    let w = user(2, -1, vec![(5, 1)]);
    let (_, score) = predict(&u, &item(5), &[v, w]).unwrap();
    assert!(score.den > 0);
    assert_eq!(score, Score { num: 10, den: 3 });
}

// The rating table answers with the first entry recorded under an id.
#[test]
fn table_first_entry_wins() {
    let u = user(0, 0, vec![(1, 5), (1, 2)]);
    assert_eq!(u.rated(&item(1)), Some(5));
    assert_eq!(u.rated(&item(2)), None);
}

// A neighborhood made of copies of the user (the user's own mean, weight 1)
// that rated the item `c` predicts exactly `c`.
#[test]
fn predict_self_copies_return_copy_rating() {
    let u = user(3, 0, vec![]);
    let copies = vec![
        user(3, 1, vec![(9, 5)]),
        user(3, 1, vec![(9, 5)]),
        user(3, 1, vec![(9, 5)]),
    ];
    let (_, score) = predict(&u, &item(9), &copies).unwrap();
    assert!(score.den > 0);
    assert_eq!(score.num, 5 * score.den);
}

// Scaling every similarity weight by the same positive constant leaves the
// predicted score unchanged as a rational number.
#[test]
fn predict_scaled_similarities_same_score() {
    let u = user(10, 0, vec![]);
    let base = vec![
        user(4, 1, vec![(3, 9)]),
        user(6, 3, vec![(3, 2)]),
    ];
    let scaled = vec![
        user(4, 2, vec![(3, 9)]),
        user(6, 6, vec![(3, 2)]),
    ];
    let (_, s1) = predict(&u, &item(3), &base).unwrap();
    let (_, s2) = predict(&u, &item(3), &scaled).unwrap();
    assert_eq!(s1.num * s2.den, s2.num * s1.den);
}

// When every neighbor rated the item exactly at that neighbor's own mean,
// the prediction is the user's own mean, whatever the weights.
#[test]
fn predict_zero_deviation_returns_user_mean() {
    let u = user(42, 0, vec![]);
    let neighborhood = vec![
        user(4, 2, vec![(1, 4)]),
        user(-7, 5, vec![(1, -7)]),
    ];
    let (_, score) = predict(&u, &item(1), &neighborhood).unwrap();
    assert!(score.den > 0);
    assert_eq!(score.num, 42 * score.den);
}

// An empty neighborhood must be signalled, never turned into a score.
#[test]
fn predict_empty_neighborhood_is_invalid() {
    let u = user(3, 0, vec![]);
    let r = predict(&u, &item(7), &[]);
    assert_eq!(r, Err(PredictionError::InvalidNeighborhood));
}

// Similarity weights that cancel to zero leave the normalization undefined.
#[test]
fn predict_cancelling_similarities_are_invalid() {
    let u = user(3, 0, vec![]);
    let neighborhood = vec![
        user(4, 5, vec![(7, 5)]),
        user(2, -5, vec![(7, 1)]),
    ];
    let r = predict(&u, &item(7), &neighborhood);
    assert_eq!(r, Err(PredictionError::InvalidNeighborhood));
}

// A neighbor without a rating for the item is reported by position, and the
// position is the first such neighbor's.
#[test]
fn predict_missing_rating_names_first_neighbor() {
    let u = user(3, 0, vec![]);
    let neighborhood = vec![
        user(4, 1, vec![(7, 5)]),
        user(2, 1, vec![(8, 1)]),
        user(5, 1, vec![]),
    ];
    let r = predict(&u, &item(7), &neighborhood);
    assert_eq!(r, Err(PredictionError::MissingRating { neighbor: 1 }));
}

// The ranking is ascending by predicted score: the lowest-scored item comes
// first. This locks in the sort direction.
#[test]
fn recommend_ranks_ascending() {
    let u = user(0, 0, vec![]);
    // One neighbor with mean 0 and weight 1: each item's score is the
    // neighbor's rating of it.
    let neighborhood = vec![user(0, 1, vec![(1, 5), (2, 1), (3, 3)])];
    let items = vec![item(1), item(2), item(3)];
    let r = recommend(&u, &items, &neighborhood, 3).unwrap();
    assert_eq!(r, vec![2, 3, 1]);
}

// Never more than min(n, number of candidates) items.
#[test]
fn recommend_caps_at_n() {
    let u = user(0, 0, vec![]);
    let neighborhood = vec![user(0, 1, vec![(1, 5), (2, 1), (3, 3)])];
    let items = vec![item(1), item(2), item(3)];
    let r = recommend(&u, &items, &neighborhood, 2).unwrap();
    assert_eq!(r, vec![2, 3]);
}

// n = 0 yields an empty list, not an error.
#[test]
fn recommend_zero_n_is_empty() {
    let u = user(0, 0, vec![]);
    let neighborhood = vec![user(0, 1, vec![(1, 5)])];
    let items = vec![item(1)];
    let r = recommend(&u, &items, &neighborhood, 0).unwrap();
    assert_eq!(r, Vec::<u32>::new());
}

// n beyond the number of candidates returns every candidate, sorted.
#[test]
fn recommend_returns_all_sorted_when_n_large() {
    let u = user(0, 0, vec![]);
    let neighborhood = vec![user(0, 1, vec![(1, 5), (2, 1), (3, 3)])];
    let items = vec![item(1), item(2), item(3)];
    let r = recommend(&u, &items, &neighborhood, 100).unwrap();
    assert_eq!(r, vec![2, 3, 1]);
}

// No candidates: an empty ranking, even though the neighborhood is empty
// too, because no prediction is ever attempted.
#[test]
fn recommend_no_candidates_is_empty() {
    let u = user(0, 0, vec![]);
    let r = recommend(&u, &[], &[], 5).unwrap();
    assert_eq!(r, Vec::<u32>::new());
}

// Equal scores keep the candidates' own order.
#[test]
fn recommend_breaks_ties_by_candidate_order() {
    let u = user(0, 0, vec![]);
    let neighborhood = vec![user(0, 1, vec![(1, 3), (2, 3), (3, 1)])];
    let items = vec![item(1), item(2), item(3)];
    let r = recommend(&u, &items, &neighborhood, 3).unwrap();
    assert_eq!(r, vec![3, 1, 2]);
}

// Two identical calls give identical output.
#[test]
fn recommend_is_deterministic() {
    let u = user(2, 0, vec![]);
    let neighborhood = vec![
        user(1, 2, vec![(1, 5), (2, 1), (3, 3), (4, 4)]),
        user(3, 1, vec![(1, 1), (2, 4), (3, 3), (4, 2)]),
    ];
    let items = vec![item(1), item(2), item(3), item(4)];
    let r1 = recommend(&u, &items, &neighborhood, 3).unwrap();
    let r2 = recommend(&u, &items, &neighborhood, 3).unwrap();
    assert_eq!(r1, r2);
}

// A failing prediction aborts the whole ranking: an empty neighborhood with
// candidates present.
#[test]
fn recommend_propagates_invalid_neighborhood() {
    let u = user(3, 0, vec![]);
    let items = vec![item(1), item(2)];
    let r = recommend(&u, &items, &[], 2);
    assert_eq!(r, Err(PredictionError::InvalidNeighborhood));
}

// A neighbor that missed one candidate aborts the whole ranking, naming the
// neighbor's position.
#[test]
fn recommend_propagates_missing_rating() {
    let u = user(3, 0, vec![]);
    let neighborhood = vec![
        user(4, 1, vec![(1, 5), (2, 4)]),
        user(2, 1, vec![(1, 2)]),
    ];
    let items = vec![item(1), item(2)];
    let r = recommend(&u, &items, &neighborhood, 2);
    assert_eq!(r, Err(PredictionError::MissingRating { neighbor: 1 }));
}
