use vstd::prelude::*;

verus! {

/// An RGBA colour.
///
/// Every channel counts 255ths of full intensity: 255 stands for the
/// normalised value 1.0 and 0 for 0.0. Values outside `0..=255` are kept as
/// they are; the renderer divides each channel by 255 when it hands the
/// colour to the GPU.
#[derive(Clone, Copy, Debug, PartialEq, Eq, Structural)]
pub struct Color {
    pub red: i32,
    pub green: i32,
    pub blue: i32,
    pub alpha: i32,
}

impl Color {
    /// The colour whose channels are `x`, `y`, `z` and `a` 255ths.
    pub fn from_int(x: i32, y: i32, z: i32, a: i32) -> (color: Color)
        ensures
            color == (Color { red: x, green: y, blue: z, alpha: a }),
    {
        Color { red: x, green: y, blue: z, alpha: a }
    }
}

} // verus!
