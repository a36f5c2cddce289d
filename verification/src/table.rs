//! A minimal in-memory implementation of the capability traits, for hosts
//! that keep their rating data in plain tables: items keyed by an id, users
//! holding their mean, their similarity weight, and a rating table, and a
//! metric that reads the stored weight back.

use vstd::prelude::*;

use crate::domain::{Item, SimilarityAlgorithm, User};

verus! {

/// An item keyed by a plain id.
pub struct TableItem {
    pub id: u32,
}

impl Item for TableItem {

}

/// The first rating in `table` recorded under `id`, or `None` where no
/// entry carries `id`.
pub open spec fn table_lookup(table: Seq<(u32, i32)>, id: u32) -> Option<int>
    decreases table.len(),
{
    if table.len() == 0 {
        None
    } else if table[0].0 == id {
        Some(table[0].1 as int)
    } else {
        table_lookup(table.drop_first(), id)
    }
}

/// A user backed by an in-memory rating table: a precomputed mean rating, a
/// stored similarity weight relative to the host's target user, and the
/// ratings the user gave, keyed by item id.
pub struct TableUser {
    pub avg: i32,
    pub sim: i32,
    pub table: Vec<(u32, i32)>,
}

impl TableUser {
    /// A table user with the given mean, similarity weight, and ratings.
    pub fn new(avg: i32, sim: i32, table: Vec<(u32, i32)>) -> (r: TableUser)
        ensures
            r.avg == avg,
            r.sim == sim,
            r.table@ == table@,
    {
        TableUser { avg, sim, table }
    }
}

impl User<TableItem> for TableUser {
    open spec fn spec_average(&self) -> int {
        self.avg as int
    }

    open spec fn spec_rating(&self, item: &TableItem) -> Option<int> {
        table_lookup(self.table@, item.id)
    }

    fn average_ratings(&self) -> (r: i32) {
        self.avg
    }

    fn rated(&self, item: &TableItem) -> (r: Option<i32>) {
        let n = self.table.len();
        proof {
            assert(self.table@.skip(0) =~= self.table@);
        }
        for i in 0..n
            invariant
                n == self.table@.len(),
                table_lookup(self.table@, item.id) == table_lookup(
                    self.table@.skip(i as int),
                    item.id,
                ),
        {
            let (id, rating) = self.table[i];
            if id == item.id {
                assert(self.table@.skip(i as int)[0] == self.table@[i as int]);
                return Some(rating);
            }
            proof {
                assert(self.table@.skip(i as int).drop_first() =~= self.table@.skip(i + 1));
                assert(self.table@.skip(i as int)[0] == self.table@[i as int]);
            }
        }
        proof {
            assert(self.table@.skip(n as int).len() == 0);
        }
        None
    }
}

/// A metric that reads back the similarity weight stored on the neighbor:
/// the host precomputes each neighbor's similarity to the target user and
/// stores it on the neighbor itself.
pub struct StoredSimilarity;

impl SimilarityAlgorithm<TableUser> for StoredSimilarity {
    open spec fn spec_similarity(u1: &TableUser, u2: &TableUser) -> int {
        u2.sim as int
    }

    fn similarity(u1: &TableUser, u2: &TableUser) -> (r: i32) {
        u2.sim
    }
}

} // verus!
