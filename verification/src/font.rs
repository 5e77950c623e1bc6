//! The font atlas: where each character's image lies in the atlas texture.

use vstd::prelude::*;
use std::collections::HashMap;

verus! {

/// A quotient of two integers that has not been carried out. Texture
/// coordinates are handed on in this form; the renderer does the division.
#[derive(Clone, Copy, Debug, PartialEq, Eq, Structural)]
pub struct Ratio {
    pub numerator: i32,
    pub denominator: i32,
}

/// `x` over `y`.
pub fn s_d(x: i32, y: i32) -> (ratio: Ratio)
    ensures
        ratio == (Ratio { numerator: x, denominator: y }),
{
    Ratio { numerator: x, denominator: y }
}

/// The rectangle of atlas pixels that holds one character: columns `x1` to
/// `x2`, rows `y1` to `y2`.
#[derive(Clone, Copy, Debug, PartialEq, Eq, Structural)]
pub struct BoundingBox {
    pub x1: i32,
    pub x2: i32,
    pub y1: i32,
    pub y2: i32,
}

impl BoundingBox {
    pub fn new(x1: i32, x2: i32, y1: i32, y2: i32) -> (rect: BoundingBox)
        ensures
            rect == (BoundingBox { x1, x2, y1, y2 }),
    {
        BoundingBox { x1, x2, y1, y2 }
    }

    pub open spec fn spec_top_left(&self, scale: (i32, i32)) -> (Ratio, Ratio) {
        (
            Ratio { numerator: self.x1, denominator: scale.0 },
            Ratio { numerator: self.y2, denominator: scale.1 },
        )
    }

    pub open spec fn spec_top_right(&self, scale: (i32, i32)) -> (Ratio, Ratio) {
        (
            Ratio { numerator: self.x2, denominator: scale.0 },
            Ratio { numerator: self.y2, denominator: scale.1 },
        )
    }

    pub open spec fn spec_bottom_left(&self, scale: (i32, i32)) -> (Ratio, Ratio) {
        (
            Ratio { numerator: self.x1, denominator: scale.0 },
            Ratio { numerator: self.y1, denominator: scale.1 },
        )
    }

    pub open spec fn spec_bottom_right(&self, scale: (i32, i32)) -> (Ratio, Ratio) {
        (
            Ratio { numerator: self.x2, denominator: scale.0 },
            Ratio { numerator: self.y1, denominator: scale.1 },
        )
    }

    /// The number of pixel columns the box spans.
    pub fn width(&self) -> (w: u32)
        requires
            0 <= self.x2 - self.x1 <= i32::MAX,
        ensures
            w == self.x2 - self.x1,
    {
        (self.x2 - self.x1) as u32
    }

    /// The number of pixel rows the box spans.
    pub fn height(&self) -> (h: u32)
        requires
            0 <= self.y2 - self.y1 <= i32::MAX,
        ensures
            h == self.y2 - self.y1,
    {
        (self.y2 - self.y1) as u32
    }

    /// The corner `(x1, y2)` as a fraction of an atlas of `scale` pixels.
    #[verifier::when_used_as_spec(spec_top_left)]
    pub fn top_left(&self, scale: (i32, i32)) -> (uv: (Ratio, Ratio))
        ensures
            uv == self.spec_top_left(scale),
    {
        (s_d(self.x1, scale.0), s_d(self.y2, scale.1))
    }

    /// The corner `(x2, y2)` as a fraction of an atlas of `scale` pixels.
    #[verifier::when_used_as_spec(spec_top_right)]
    pub fn top_right(&self, scale: (i32, i32)) -> (uv: (Ratio, Ratio))
        ensures
            uv == self.spec_top_right(scale),
    {
        (s_d(self.x2, scale.0), s_d(self.y2, scale.1))
    }

    /// The corner `(x1, y1)` as a fraction of an atlas of `scale` pixels.
    #[verifier::when_used_as_spec(spec_bottom_left)]
    pub fn bottom_left(&self, scale: (i32, i32)) -> (uv: (Ratio, Ratio))
        ensures
            uv == self.spec_bottom_left(scale),
    {
        (s_d(self.x1, scale.0), s_d(self.y1, scale.1))
    }

    /// The corner `(x2, y1)` as a fraction of an atlas of `scale` pixels.
    #[verifier::when_used_as_spec(spec_bottom_right)]
    pub fn bottom_right(&self, scale: (i32, i32)) -> (uv: (Ratio, Ratio))
        ensures
            uv == self.spec_bottom_right(scale),
    {
        (s_d(self.x2, scale.0), s_d(self.y1, scale.1))
    }
}

/// Two characters have the same code point only if they are the same.
proof fn lemma_code_points_differ(a: char, b: char)
    ensures
        a as u32 == b as u32 <==> a == b,
{
}

/// The lookup side of a font atlas: the box of every character that was
/// rasterised, and the atlas's size in pixels. The texture itself stays with
/// the renderer.
pub struct FontInfo {
    glyph_map: HashMap<u32, BoundingBox>,
    texture_scale: (i32, i32),
}

impl View for FontInfo {
    type V = Map<char, BoundingBox>;

    closed spec fn view(&self) -> Map<char, BoundingBox> {
        Map::new(
            |c: char| self.glyph_map@.contains_key(c as u32),
            |c: char| self.glyph_map@[c as u32],
        )
    }
}

impl FontInfo {
    /// The atlas's width and height in pixels.
    pub closed spec fn scale(&self) -> (i32, i32) {
        self.texture_scale
    }

    /// An atlas of the given size that holds no character yet.
    pub fn new(texture_scale: (i32, i32)) -> (font: FontInfo)
        ensures
            font@ == Map::<char, BoundingBox>::empty(),
            font.scale() == texture_scale,
    {
        let font = FontInfo { glyph_map: HashMap::new(), texture_scale };
        assert(font@ =~= Map::<char, BoundingBox>::empty());
        font
    }

    /// Records where `character` lies, replacing what was recorded for it.
    pub fn insert(&mut self, character: char, rect: BoundingBox)
        ensures
            final(self)@ == old(self)@.insert(character, rect),
            final(self).scale() == old(self).scale(),
    {
        self.glyph_map.insert(character as u32, rect);
        assert forall|c: char| #[trigger] self@.contains_key(c) == old(self)@.insert(character, rect).contains_key(c) by {
            lemma_code_points_differ(c, character);
        }
        assert forall|c: char| #[trigger] self@.contains_key(c) implies self@[c] == old(self)@.insert(character, rect)[c] by {
            lemma_code_points_differ(c, character);
        }
        assert(self@ =~= old(self)@.insert(character, rect));
    }

    /// The box of `character`, if the atlas holds it.
    pub fn bounding_box(&self, character: char) -> (found: Option<BoundingBox>)
        ensures
            found == (if self@.contains_key(character) {
                Some(self@[character])
            } else {
                None
            }),
    {
        let code: u32 = character as u32;
        match self.glyph_map.get(&code) {
            Some(rect) => Some(*rect),
            None => None,
        }
    }

    /// Whether the atlas holds `character`.
    pub fn contains(&self, character: char) -> (held: bool)
        ensures
            held == self@.contains_key(character),
    {
        let code: u32 = character as u32;
        self.glyph_map.contains_key(&code)
    }

    /// The atlas's width and height in pixels.
    pub fn texture_scale(&self) -> (scale: (i32, i32))
        ensures
            scale == self.scale(),
    {
        self.texture_scale
    }
}

impl Clone for FontInfo {
    fn clone(&self) -> (copy: FontInfo)
        ensures
            copy@ == self@,
            copy.scale() == self.scale(),
    {
        let copy = FontInfo { glyph_map: self.glyph_map.clone(), texture_scale: self.texture_scale };
        assert(copy@ =~= self@);
        copy
    }
}

/// The smallest rectangle of pixels that holds the outline of a glyph
/// which was laid out.
#[derive(Clone, Copy, Debug, PartialEq, Eq, Structural)]
pub struct PixelBounds {
    pub min_x: i32,
    pub min_y: i32,
    pub max_x: i32,
    pub max_y: i32,
}

/// What the rasteriser reports of one glyph of a line of text: the column
/// at which the glyph was placed, and the bounds of its outline, if it has
/// one.
#[derive(Clone, Copy, Debug, PartialEq, Eq, Structural)]
pub struct PlacedGlyph {
    pub position_x: i32,
    pub bounds: Option<PixelBounds>,
}

/// Why no atlas can be made of a line of glyphs.
#[derive(Clone, Copy, Debug, PartialEq, Eq, Structural)]
pub enum FontError {
    /// The line holds no glyph.
    NoGlyphs,
    /// The glyph at `index` has no outline.
    MissingOutline { index: usize },
    /// There are more glyphs than characters.
    Unnamed,
    /// The atlas would be wider or higher than a texture can be.
    Oversized,
}

/// The characters that every atlas is asked to hold, in the order in which
/// they are laid out in it. A space is added to every atlas besides.
pub fn repertoire() -> (text: &'static str)
    ensures
        text@ == "╚║╗╝═╔╚║╗╝abcdefghijklmnopqrstuvwxyzABCDEFGHIJKLMNOPQRSTUVWXYZ12345567890!@#$%^&/\\*()?<>|,.1234567890:-'\""@,
{
    "╚║╗╝═╔╚║╗╝abcdefghijklmnopqrstuvwxyzABCDEFGHIJKLMNOPQRSTUVWXYZ12345567890!@#$%^&/\\*()?<>|,.1234567890:-'\""
}

/// The pixel height at which the glyphs of an atlas are rasterised.
pub const GLYPH_HEIGHT: u32 = 100;

/// The box of a glyph with an outline: from the column at which it was
/// placed to the right edge of its outline, over the full height.
pub open spec fn glyph_box(glyph: PlacedGlyph, height: int) -> BoundingBox {
    BoundingBox { x1: glyph.position_x, x2: glyph.bounds->0.max_x, y1: 0, y2: height as i32 }
}

/// The box of the space: one pixel right of the last glyph, where the
/// atlas is blank.
pub open spec fn space_box(glyphs_width: int) -> BoundingBox {
    BoundingBox { x1: glyphs_width as i32, x2: (glyphs_width + 1) as i32, y1: 0, y2: 1 }
}

/// The boxes of the first `count` glyphs, each under the character at its
/// place in `text`. Where a character occurs twice, its later glyph counts.
pub open spec fn boxes_of(text: Seq<char>, glyphs: Seq<PlacedGlyph>, height: int, count: int) -> Map<
    char,
    BoundingBox,
>
    decreases count,
{
    if count <= 0 {
        Map::empty()
    } else {
        boxes_of(text, glyphs, height, count - 1).insert(
            text[count - 1],
            glyph_box(glyphs[count - 1], height),
        )
    }
}

/// The pixel columns from the left edge of the first glyph's outline to
/// the right edge of the last one's.
pub open spec fn span(glyphs: Seq<PlacedGlyph>) -> int {
    glyphs.last().bounds->0.max_x - glyphs.first().bounds->0.min_x
}

/// Every glyph has an outline.
pub open spec fn outlined(glyphs: Seq<PlacedGlyph>) -> bool {
    forall|i: int| 0 <= i < glyphs.len() ==> (#[trigger] glyphs[i]).bounds is Some
}

/// The atlas fits a texture: its width, which is the span of the glyphs
/// and one glyph height more, and its height are sizes of an image, and
/// there is a column for the space.
pub open spec fn fits_texture(glyphs: Seq<PlacedGlyph>, height: int, glyphs_height: int) -> bool {
    &&& 0 <= span(glyphs) < i32::MAX
    &&& span(glyphs) + height <= i32::MAX
    &&& glyphs_height <= i32::MAX
}

/// Makes the lookup side of an atlas of a line of glyphs as the rasteriser
/// laid them out: `glyphs[i]` is the glyph of the `i`-th character of
/// `text`, rasterised `height` pixels high into an image that is
/// `glyphs_height` pixels high.
///
/// An atlas needs at least one glyph, an outline for every glyph and a
/// character for every glyph, and it has to fit a texture. The first of
/// these that fails is reported.
pub fn build_font(text: &str, glyphs: &Vec<PlacedGlyph>, height: u32, glyphs_height: u32) -> (made:
    Result<FontInfo, FontError>)
    ensures
        made == Err::<FontInfo, FontError>(FontError::NoGlyphs) <==> glyphs@.len() == 0,
        made matches Err(FontError::MissingOutline { index }) ==> {
            &&& index < glyphs@.len()
            &&& glyphs@[index as int].bounds is None
            &&& forall|i: int| 0 <= i < index ==> (#[trigger] glyphs@[i]).bounds is Some
        },
        made matches Err(FontError::MissingOutline { .. }) <==> !outlined(glyphs@),
        made == Err::<FontInfo, FontError>(FontError::Unnamed) <==> glyphs@.len() > 0 && outlined(
            glyphs@,
        ) && glyphs@.len() > text@.len(),
        made == Err::<FontInfo, FontError>(FontError::Oversized) <==> 0 < glyphs@.len()
            <= text@.len() && outlined(glyphs@) && !fits_texture(
            glyphs@,
            height as int,
            glyphs_height as int,
        ),
        made matches Ok(font) ==> {
            &&& font@ == boxes_of(text@, glyphs@, height as int, glyphs@.len() as int).insert(
                ' ',
                space_box(span(glyphs@)),
            )
            &&& font.scale() == ((span(glyphs@) + height) as i32, glyphs_height as i32)
        },
{
    if glyphs.len() == 0 {
        return Err(FontError::NoGlyphs);
    }
    let mut checked: usize = 0;
    while checked < glyphs.len()
        invariant
            checked <= glyphs@.len(),
            forall|i: int| 0 <= i < checked ==> (#[trigger] glyphs@[i]).bounds is Some,
        decreases glyphs@.len() - checked,
    {
        if glyphs[checked].bounds.is_none() {
            return Err(FontError::MissingOutline { index: checked });
        }
        checked = checked + 1;
    }
    if glyphs.len() > text.unicode_len() {
        return Err(FontError::Unnamed);
    }
    let min_x = glyphs[0].bounds.unwrap().min_x;
    let max_x = glyphs[glyphs.len() - 1].bounds.unwrap().max_x;
    let wide: i64 = max_x as i64 - min_x as i64;
    if wide < 0 || wide >= i32::MAX as i64 || wide + height as i64 > i32::MAX as i64
        || glyphs_height > i32::MAX as u32 {
        return Err(FontError::Oversized);
    }
    let glyphs_width = wide as u32;
    let mut font = FontInfo::new(((glyphs_width + height) as i32, glyphs_height as i32));
    let mut counter: usize = 0;
    while counter < glyphs.len()
        invariant
            counter <= glyphs@.len() <= text@.len(),
            outlined(glyphs@),
            font@ == boxes_of(text@, glyphs@, height as int, counter as int),
            font.scale() == ((glyphs_width + height) as i32, glyphs_height as i32),
            glyphs_width < i32::MAX,
            glyphs_width + height <= i32::MAX,
            glyphs_height <= i32::MAX,
        decreases glyphs@.len() - counter,
    {
        let glyph = glyphs[counter];
        let bounding_box = glyph.bounds.unwrap();
        font.insert(
            text.get_char(counter),
            BoundingBox { x1: glyph.position_x, x2: bounding_box.max_x, y1: 0, y2: height as i32 },
        );
        counter = counter + 1;
    }
    font.insert(
        ' ',
        BoundingBox { x1: glyphs_width as i32, x2: glyphs_width as i32 + 1, y1: 0, y2: 1 },
    );
    Ok(font)
}

/// Where the atlas holds a character of the text: the box of the last
/// glyph that was laid out for it.
pub proof fn lemma_later_glyph_counts(
    text: Seq<char>,
    glyphs: Seq<PlacedGlyph>,
    height: int,
    count: int,
    character: char,
)
    requires
        0 <= count <= text.len(),
    ensures
        boxes_of(text, glyphs, height, count).contains_key(character) <==> exists|i: int|
            0 <= i < count && #[trigger] text[i] == character,
        forall|i: int|
            0 <= i < count && #[trigger] text[i] == character && (forall|j: int|
                i < j < count ==> #[trigger] text[j] != character) ==> boxes_of(
                text,
                glyphs,
                height,
                count,
            )[character] == glyph_box(glyphs[i], height),
    decreases count,
{
    if count > 0 {
        lemma_later_glyph_counts(text, glyphs, height, count - 1, character);
        if text[count - 1] != character {
            assert forall|i: int|
                0 <= i < count && #[trigger] text[i] == character && (forall|j: int|
                    i < j < count ==> #[trigger] text[j] != character) implies boxes_of(
                text,
                glyphs,
                height,
                count,
            )[character] == glyph_box(glyphs[i], height) by {
                assert(forall|j: int| i < j < count - 1 ==> #[trigger] text[j] != character);
            }
        } else {
            assert forall|i: int|
                0 <= i < count && #[trigger] text[i] == character && (forall|j: int|
                    i < j < count ==> #[trigger] text[j] != character) implies boxes_of(
                text,
                glyphs,
                height,
                count,
            )[character] == glyph_box(glyphs[i], height) by {
                if i < count - 1 {
                    assert(text[count - 1] != character);
                }
            }
        }
    }
}

} // verus!
