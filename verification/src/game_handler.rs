//! The pace of the frame loop.

use vstd::prelude::*;
use crate::numeric::{clamp, clamped};

verus! {

/// The milliseconds that every frame is given.
pub const FRAME_MILLIS: u64 = 8;

/// The width and height of the window when it is opened.
pub const WINDOW_SIZE: (u32, u32) = (800, 600);

/// How long the loop sleeps after a frame that took `elapsed_millis`: what
/// is left of the frame's eight milliseconds, and nothing after a frame
/// that took longer.
pub fn frame_pause(elapsed_millis: u128) -> (pause: u64)
    ensures
        pause == FRAME_MILLIS - clamped(elapsed_millis as int, 0, FRAME_MILLIS as int),
{
    let elapsed: i64 = if elapsed_millis > 0x7fff_ffff_ffff_ffff {
        0x7fff_ffff_ffff_ffff
    } else {
        elapsed_millis as i64
    };
    let delay = clamp(elapsed, 0, FRAME_MILLIS as i64);
    (FRAME_MILLIS as i64 - delay) as u64
}

} // verus!
