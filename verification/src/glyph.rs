use vstd::prelude::*;
use crate::color::Color;

verus! {

/// One coloured character, as it is stored in a grid cell. A stored glyph is
/// never edited: putting a character into an occupied cell replaces the
/// whole glyph.
#[derive(Clone, Copy, Debug, PartialEq, Eq, Structural)]
pub struct Glyph {
    pub character: char,
    pub background: Color,
    pub foreground: Color,
}

impl Glyph {
    pub fn new(character: char, background: Color, foreground: Color) -> (glyph: Glyph)
        ensures
            glyph == (Glyph { character, background, foreground }),
    {
        Glyph { character, background, foreground }
    }
}

} // verus!
