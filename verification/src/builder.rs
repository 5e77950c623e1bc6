//! Configuring a console before it is made.

use vstd::prelude::*;
use crate::color::Color;
use crate::colors;
use crate::console::{Console, ConsoleView};
use crate::font::{BoundingBox, FontInfo};

verus! {

/// The settings of a console that is yet to be made, as far as they are
/// whole numbers, names and colours. Where the console lies on the screen
/// is settled by the renderer.
pub struct ConsoleBuilder {
    size: (u32, u32),
    layer: u32,
    background: Color,
    font: String,
    centered: bool,
    font_info: Option<FontInfo>,
}

/// The settings of a builder.
pub struct BuilderView {
    /// Columns and rows.
    pub size: (u32, u32),
    /// The depth budget of the console.
    pub layer: u32,
    /// The background of glyphs that are put without one.
    pub background: Color,
    /// The name of the font file.
    pub font: Seq<char>,
    /// Whether the console is placed by its middle.
    pub centered: bool,
    /// The atlas of another console that this one is to share, with its
    /// size in pixels.
    pub shared: Option<(Map<char, BoundingBox>, (i32, i32))>,
}

impl View for ConsoleBuilder {
    type V = BuilderView;

    closed spec fn view(&self) -> BuilderView {
        BuilderView {
            size: self.size,
            layer: self.layer,
            background: self.background,
            font: self.font@,
            centered: self.centered,
            shared: match self.font_info {
                Some(font) => Some((font@, font.scale())),
                None => None,
            },
        }
    }
}

impl BuilderView {
    /// The console that `build` makes of these settings, with `loaded`
    /// as its atlas where none is shared.
    pub open spec fn built(self, loaded: Option<(Map<char, BoundingBox>, (i32, i32))>) -> ConsoleView {
        let atlas = match self.shared {
            Some(shared) => shared,
            None => loaded->0,
        };
        ConsoleView {
            dimensions: self.size,
            height: self.layer,
            default_background: self.background,
            font: atlas.0,
            texture_scale: atlas.1,
            grid: Map::empty(),
            dirty: true,
            uploaded: Map::empty(),
            drawn: 0,
        }
    }
}

impl ConsoleBuilder {
    /// The settings of a console of `size` columns and rows: depth budget
    /// 1, a black background, the stock font, placed by its corner, with an
    /// atlas of its own.
    pub fn with_dimensions(size: (u32, u32)) -> (builder: ConsoleBuilder)
        ensures
            builder@ == (BuilderView {
                size,
                layer: 1,
                background: colors::black(),
                font: "droid-sans-mono.ttf"@,
                centered: false,
                shared: None,
            }),
    {
        ConsoleBuilder {
            size,
            layer: 1,
            background: colors::black(),
            font: "droid-sans-mono.ttf".to_owned(),
            centered: false,
            font_info: None,
        }
    }

    /// Sets the number of columns and rows.
    pub fn dimensions(&mut self, size: (u32, u32)) -> (builder: &mut ConsoleBuilder)
        ensures
            builder@ == (BuilderView { size, ..old(self)@ }),
            final(self)@ == final(builder)@,
    {
        self.size = size;
        self
    }

    /// Sets the depth budget.
    pub fn layer(&mut self, layer: u32) -> (builder: &mut ConsoleBuilder)
        ensures
            builder@ == (BuilderView { layer, ..old(self)@ }),
            final(self)@ == final(builder)@,
    {
        self.layer = layer;
        self
    }

    /// Sets the background of glyphs that are put without one.
    pub fn background(&mut self, background: Color) -> (builder: &mut ConsoleBuilder)
        ensures
            builder@ == (BuilderView { background, ..old(self)@ }),
            final(self)@ == final(builder)@,
    {
        self.background = background;
        self
    }

    /// Sets the name of the font file.
    pub fn font(&mut self, font: &str) -> (builder: &mut ConsoleBuilder)
        ensures
            builder@ == (BuilderView { font: font@, ..old(self)@ }),
            final(self)@ == final(builder)@,
    {
        self.font = font.to_owned();
        self
    }

    /// Sets whether the console is placed by its middle.
    pub fn centered(&mut self, centered: bool) -> (builder: &mut ConsoleBuilder)
        ensures
            builder@ == (BuilderView { centered, ..old(self)@ }),
            final(self)@ == final(builder)@,
    {
        self.centered = centered;
        self
    }

    /// Lets the console share the atlas of `console`.
    pub fn font_from(&mut self, console: &Console) -> (builder: &mut ConsoleBuilder)
        ensures
            builder@ == (BuilderView {
                shared: Some((console@.font, console@.texture_scale)),
                ..old(self)@
            }),
            final(self)@ == final(builder)@,
    {
        self.font_info = Some(console.font().clone());
        self
    }

    /// The name of the font file.
    pub fn font_name(&self) -> (name: &str)
        ensures
            name@ == self@.font,
    {
        self.font.as_str()
    }

    /// Whether the console is placed by its middle.
    pub fn is_centered(&self) -> (centered: bool)
        ensures
            centered == self@.centered,
    {
        self.centered
    }

    /// Columns and rows.
    pub fn size(&self) -> (size: (u32, u32))
        ensures
            size == self@.size,
    {
        self.size
    }

    /// Whether an atlas has to be rasterised for the console, because it
    /// shares none.
    pub fn needs_font(&self) -> (needed: bool)
        ensures
            needed == (self@.shared is None),
    {
        self.font_info.is_none()
    }

    /// Makes the console: empty, dirty, with the shared atlas if there is
    /// one and with `loaded` otherwise.
    pub fn build(&self, loaded: Option<FontInfo>) -> (console: Console)
        requires
            self@.shared is None ==> loaded is Some,
        ensures
            console.wf(),
            console@ == self@.built(
                match loaded {
                    Some(font) => Some((font@, font.scale())),
                    None => None,
                },
            ),
    {
        let font = match &self.font_info {
            Some(shared) => shared.clone(),
            None => loaded.unwrap(),
        };
        Console::new(self.size, self.background, self.layer, font)
    }
}

} // verus!
