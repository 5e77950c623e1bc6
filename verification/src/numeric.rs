use vstd::prelude::*;

verus! {

/// `input`, brought into the range from `min` to `max`.
pub open spec fn clamped(input: int, min: int, max: int) -> int {
    if input < min {
        min
    } else if input > max {
        max
    } else {
        input
    }
}

/// Calls `num::clamp`, which hands back `min` for an input below it, `max`
/// for an input above it and the input otherwise. It checks in debug builds
/// that `min` is not above `max`.
#[verifier::external_body]
pub(crate) fn clamp(input: i64, min: i64, max: i64) -> (bounded: i64)
    requires
        min <= max,
    ensures
        bounded == clamped(input as int, min as int, max as int),
{
    num::clamp(input, min, max)
}

} // verus!
