//! Capability traits through which the host application plugs its own data
//! model into the recommender: items, users with their rating history, and a
//! similarity metric over users.

use vstd::prelude::*;

verus! {

/// An item that can be rated and recommended. Items are opaque to the core:
/// they serve only as lookup keys and as the payload of a recommendation.
pub trait Item {}

/// A user as the rating source: a mean rating over everything the user has
/// rated, and a partial lookup from items to this user's rating of them.
///
/// Each executable method returns exactly the value of its specification
/// counterpart, so the core's contracts can speak about rating data
/// abstractly, whatever the host's storage looks like.
pub trait User<I: Item>: Sized {
    /// The user's mean rating, as the contracts see it.
    spec fn spec_average(&self) -> int;

    /// The rating this user gave `item`, as the contracts see it;
    /// `None` where the user has not rated `item`.
    spec fn spec_rating(&self, item: &I) -> Option<int>;

    /// The user's mean rating over all items the user has rated.
    fn average_ratings(&self) -> (r: i32)
        ensures
            r as int == self.spec_average(),
    ;

    /// The rating this user gave `item`, or `None` if the user has not
    /// rated it.
    fn rated(&self, item: &I) -> (r: Option<i32>)
        ensures
            match r {
                Some(v) => self.spec_rating(item) == Some(v as int),
                None => self.spec_rating(item) is None,
            },
    ;
}

/// A similarity metric over users. Implementations should be symmetric
/// (`similarity(a, b) == similarity(b, a)`); the core assumes but does not
/// check this, and never divides by a single similarity value, only by the
/// whole neighborhood's sum, which it checks against zero.
pub trait SimilarityAlgorithm<U>: Sized {
    /// The similarity of `u1` and `u2`, as the contracts see it.
    spec fn spec_similarity(u1: &U, u2: &U) -> int;

    /// How alike the rating behavior of `u1` and `u2` is. Sign and
    /// magnitude are metric-defined; the metric must be total.
    fn similarity(u1: &U, u2: &U) -> (r: i32)
        ensures
            r as int == Self::spec_similarity(u1, u2),
    ;
}

} // verus!
