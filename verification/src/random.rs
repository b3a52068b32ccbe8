//! The random source that the generator draws from.

use vstd::prelude::*;

verus! {

/// Largest upper bound that a draw from above zero may be given.
pub const RANDOM_RANGE_LIMIT: u32 = 0x10_0000;

/// One draw from the random source that `macroquad::rand::srand` seeds,
/// made by `macroquad::rand::gen_range`.
///
/// That function takes a random 32-bit number `k`, computes
/// `low + (high - low) * (k / 2^32)` in double precision and drops the
/// fraction. With bounds up to [`RANDOM_RANGE_LIMIT`] no step of this
/// rounds. With `low` at zero the one step that may round is the product,
/// which lies below `high` by more than the rounding can make up for. In
/// both cases the draw is at least `low`, and below `high` unless the two
/// are equal. Which number is drawn depends on the source's state, and
/// nothing more is claimed of it.
#[verifier::external_body]
pub(crate) fn random_in_range(low: u32, high: u32) -> (r: u32)
    requires
        low <= high,
        low == 0 || high <= RANDOM_RANGE_LIMIT,
    ensures
        low <= r <= high,
        low < high ==> r < high,
{
    macroquad::rand::gen_range(low, high)
}

} // verus!
