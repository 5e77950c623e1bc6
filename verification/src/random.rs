//! Draws from the thread's random number generator. Nothing is known of a
//! draw but the range it lies in.

use vstd::prelude::*;
use rand::Rng;

verus! {

/// Calls `rand::Rng::gen_range` on the thread's generator. The draw lies
/// in `low..high`; the generator panics on an empty range.
#[verifier::external_body]
pub(crate) fn range(low: i64, high: i64) -> (drawn: i64)
    requires
        low < high,
    ensures
        low <= drawn < high,
{
    rand::thread_rng().gen_range(low, high)
}

/// Calls `rand::random` for a `bool`: a fair coin, of which nothing is
/// known beforehand.
#[verifier::external_body]
pub(crate) fn coin() -> (heads: bool) {
    rand::random()
}

/// Calls `rand::Rng::gen_ratio` on the thread's generator: `true` with a
/// probability of `numerator` in `denominator`. The generator panics on a
/// denominator of 0 and on a numerator above the denominator; it is
/// certain to say `true` for a ratio of 1 and `false` for a ratio of 0.
#[verifier::external_body]
pub(crate) fn chance(numerator: u32, denominator: u32) -> (hit: bool)
    requires
        0 < denominator,
        numerator <= denominator,
    ensures
        numerator == denominator ==> hit,
        numerator == 0 ==> !hit,
{
    rand::thread_rng().gen_ratio(numerator, denominator)
}

} // verus!
