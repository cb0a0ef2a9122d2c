//! The one place where chance enters: a draw from the thread's generator.

use vstd::prelude::*;

verus! {

/// Draws an integer between `low` and `high`, both included, by
/// `rand::Rng::gen_range` on `rand::thread_rng()` with the range
/// `low..=high`. The draw panics on an empty range, which `requires` leaves
/// out. Of the result only its range is claimed: which value comes is left
/// to the generator.
#[verifier::external_body]
pub(crate) fn gen_range_inclusive(low: i32, high: i32) -> (drawn: i32)
    requires
        low <= high,
    ensures
        low <= drawn <= high,
{
    rand::Rng::gen_range(&mut rand::thread_rng(), low..=high)
}

} // verus!
