//! What the operations are for: how what they leave behind and what they tell relates to what
//! they were given, and how one call relates to another.

use vstd::prelude::*;
use crate::campaign::{index_of, lemma_row, lemma_update, listed, ordered, put, row};
use crate::rows::Row;

pub mod barter;
pub mod checks;
pub mod combat;
pub mod content;
pub mod encounters;
pub mod entries;
pub mod inventory;
pub mod journeys;
pub mod log;
pub mod makings;
pub mod map;
pub mod numbers;
pub mod people;
pub mod refusals;
pub mod rests;
pub mod turns;

verus! {

/// Whether the two tables have the same rows but for the one with this id.
pub open spec fn only_changes<R: Row>(a: Seq<R>, b: Seq<R>, id: i64) -> bool {
    &&& a.len() == b.len()
    &&& forall|i: int| 0 <= i < a.len() && (#[trigger] a[i]).key() != id ==> b[i] == a[i]
}

/// Putting a row in place of the one with its id changes no other.
pub proof fn lemma_put_changes<R: Row>(rows: Seq<R>, r: R)
    requires
        ordered(rows),
        listed(rows, r.key()),
    ensures
        only_changes(rows, put(rows, r), r.key()),
        row(put(rows, r), r.key()) == r,
        ordered(put(rows, r)),
        put(rows, r).len() == rows.len(),
        forall|id: i64| #[trigger] listed(put(rows, r), id) == listed(rows, id),
{
    lemma_row(rows, r.key());
    let k = index_of(rows, r.key());
    lemma_update(rows, k, r);
}

} // verus!
