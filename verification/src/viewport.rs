use vstd::prelude::*;
use crate::font::Ratio;

verus! {

/// The rectangle of the window that is drawn into, in physical pixels.
#[derive(Clone, Copy, Debug, PartialEq, Eq, Structural)]
pub struct Viewport {
    pub x: i32,
    pub y: i32,
    pub w: i32,
    pub h: i32,
}

impl Viewport {
    /// The viewport that covers a window of the given physical size.
    pub fn for_window(physical_size: (i32, i32)) -> (viewport: Viewport)
        ensures
            viewport == (Viewport { x: 0, y: 0, w: physical_size.0, h: physical_size.1 }),
    {
        Viewport { x: 0, y: 0, w: physical_size.0, h: physical_size.1 }
    }

    /// Takes over the physical size of the window after it was resized,
    /// and hands it back.
    pub fn update_size(&mut self, physical_size: (i32, i32)) -> (size: (i32, i32))
        ensures
            *final(self) == (Viewport { w: physical_size.0, h: physical_size.1, ..*old(self) }),
            size == physical_size,
    {
        self.w = physical_size.0;
        self.h = physical_size.1;
        physical_size
    }

    /// Width over height.
    pub fn aspect_ratio(&self) -> (ratio: Ratio)
        ensures
            ratio == (Ratio { numerator: self.w, denominator: self.h }),
    {
        Ratio { numerator: self.w, denominator: self.h }
    }
}

} // verus!
