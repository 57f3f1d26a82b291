//! The library's source of chance.

use vstd::prelude::*;
use rand::Rng;
use rand::seq::SliceRandom;
use crate::tower::targeting::Candidate;

verus! {

/// Draws a number between `low` and `high`, both included.
///
/// Calls `Rng::gen_range` of the `rand` crate with an inclusive range on
/// the thread's generator. Nothing is proved of it; it is taken to return
/// a number of the range, as `rand` documents. `gen_range` panics on an
/// empty range, which `low <= high` rules out.
#[verifier::external_body]
pub(crate) fn roll_inclusive(low: u32, high: u32) -> (r: u32)
    requires
        low <= high,
    ensures
        low <= r <= high,
{
    rand::thread_rng().gen_range(low..=high)
}

/// Picks one of the candidates at random.
///
/// Calls `SliceRandom::choose` of the `rand` crate on the thread's
/// generator. Nothing is proved of it; it is taken to return nothing for
/// an empty slice and an element of the slice otherwise, as `rand`
/// documents.
#[verifier::external_body]
pub(crate) fn choose_candidate(found: &Vec<Candidate>) -> (r: Option<Candidate>)
    ensures
        found@.len() == 0 ==> r is None,
        found@.len() > 0 ==> r is Some && found@.contains(r.unwrap()),
{
    found.choose(&mut rand::thread_rng()).copied()
}

} // verus!
