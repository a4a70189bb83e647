//! The source of secrets.

use rand::Rng;
use vstd::prelude::*;

verus! {

/// Draws a number between `low` and `high`, both included.
///
/// Calls `rand::Rng::gen_range` with the inclusive range `low..=high` on the
/// thread's generator, which `rand::thread_rng` hands out. Believed of that
/// call, and not proved: the number it returns lies within the range.
/// `gen_range` panics on an empty range, which `low <= high` rules out.
/// Nothing is said of which number comes back: two draws need not agree.
#[verifier::external_body]
pub(crate) fn next_in_range(low: u32, high: u32) -> (drawn: u32)
    requires
        low <= high,
    ensures
        low <= drawn <= high,
{
    rand::thread_rng().gen_range(low..=high)
}

} // verus!
