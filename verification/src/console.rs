//! A console: one text grid with its font, its dirty flag and the record of
//! what was last uploaded.

use vstd::prelude::*;
use crate::batch::{
    batch_indices, batch_vertices, cell_coordinates, cell_index, lemma_batch_indices_len,
    lemma_coordinates_round_trip, lemma_grid_cells, lemma_index_round_trip, quad_indices,
    quad_vertices, Batch, Corner, Position, Vertex,
};
use crate::color::Color;
use crate::font::{BoundingBox, FontInfo};
use crate::glyph::Glyph;
use crate::grid::{lists, GlyphGrid};

verus! {

/// The number of glyphs that the last upload put on the GPU.
#[derive(Clone, Copy, Debug, PartialEq, Eq, Structural)]
pub struct Num(pub i32);

impl Num {
    pub fn set(&mut self, v: i32)
        ensures
            final(self).0 == v,
    {
        self.0 = v;
    }
}

/// Whether the grid was changed after the last upload.
#[derive(Clone, Copy, Debug, PartialEq, Eq, Structural)]
pub struct Dirty(pub bool);

impl Dirty {
    pub fn set(&mut self, v: bool)
        ensures
            final(self).0 == v,
    {
        self.0 = v;
    }
}

/// One text grid: what is drawn in it, the atlas it is drawn with, and
/// what the GPU holds of it.
pub struct Console {
    is_dirty: Dirty,
    num_vert: Num,
    font_info: FontInfo,
    glyphs: GlyphGrid,
    dimensions: (u32, u32),
    height: u32,
    default_background: Color,
    uploaded: Ghost<Map<(u32, u32), Glyph>>,
}

/// What a console is, as far as its callers can tell.
pub struct ConsoleView {
    /// Columns and rows.
    pub dimensions: (u32, u32),
    /// The depth budget: a glyph on layer `l` is drawn `l / 255 * height`
    /// nearer to the camera than layer 0.
    pub height: u32,
    /// The background of a glyph that is put without one.
    pub default_background: Color,
    /// The atlas box of every character that can be drawn.
    pub font: Map<char, BoundingBox>,
    /// The atlas's size in pixels.
    pub texture_scale: (i32, i32),
    /// The glyph at each `(cell index, layer)`.
    pub grid: Map<(u32, u32), Glyph>,
    /// Whether the grid was changed after the last upload.
    pub dirty: bool,
    /// The grid as it was at the last upload; empty before the first.
    pub uploaded: Map<(u32, u32), Glyph>,
    /// The number of quads that a draw call shows.
    pub drawn: i32,
}

impl ConsoleView {
    /// What holds of every console: while it is clean the GPU holds
    /// exactly the grid, and the draw count is that of the upload.
    pub open spec fn consistent(self) -> bool {
        &&& self.grid.dom().finite()
        &&& self.uploaded.dom().finite()
        &&& !self.dirty ==> self.grid == self.uploaded
        &&& self.drawn == self.uploaded.len()
        &&& 6 * self.drawn <= i32::MAX
    }

    /// Every character in the grid has a box in the atlas.
    pub open spec fn drawable(self) -> bool {
        forall|key: (u32, u32)| #[trigger]
            self.grid.contains_key(key) ==> self.font.contains_key(self.grid[key].character)
    }

    /// The glyph that `put_char` stores: without a background of its own
    /// it takes the console's.
    pub open spec fn glyph_for(self, c: char, foreground: Color, background: Option<Color>) -> Glyph {
        Glyph {
            character: c,
            background: match background {
                Some(b) => b,
                None => self.default_background,
            },
            foreground,
        }
    }

    /// The key under which the cell in column `x` and row `y` stores its
    /// glyph of `layer`.
    pub open spec fn key(self, x: int, y: int, layer: u32) -> (u32, u32) {
        (cell_index(self.dimensions.0 as int, x, y) as u32, layer)
    }

    /// The console after `c` was put into column `x`, row `y` on `layer`:
    /// as it was if the column or the row is negative, and else dirty, with
    /// the glyph under the key of that cell and layer.
    pub open spec fn put_char(
        self,
        c: char,
        x: int,
        y: int,
        foreground: Color,
        background: Option<Color>,
        layer: u32,
    ) -> ConsoleView {
        if x < 0 || y < 0 {
            self
        } else {
            ConsoleView {
                grid: self.grid.insert(self.key(x, y, layer), self.glyph_for(c, foreground, background)),
                dirty: true,
                ..self
            }
        }
    }

    /// The console after `clear`: dirty, with nothing drawn.
    pub open spec fn clear(self) -> ConsoleView {
        ConsoleView { grid: Map::empty(), dirty: true, ..self }
    }

    /// The console after the characters of `text` were put into row `y`,
    /// the first in column `x` and each next one a column further right.
    pub open spec fn put_text(
        self,
        text: Seq<char>,
        x: int,
        y: int,
        foreground: Color,
        background: Option<Color>,
        layer: u32,
    ) -> ConsoleView
        decreases text.len(),
    {
        if text.len() == 0 {
            self
        } else {
            self.put_text(text.drop_last(), x, y, foreground, background, layer).put_char(
                text.last(),
                x + text.len() - 1,
                y,
                foreground,
                background,
                layer,
            )
        }
    }

    /// The number of cells of the grid.
    pub open spec fn cells(self) -> int {
        self.dimensions.0 * self.dimensions.1
    }

    /// The cell in column `x`, row `y` has an index, unless a glyph put
    /// there is dropped anyway.
    pub open spec fn has_index(self, x: int, y: int) -> bool {
        x >= 0 && y >= 0 ==> x + y * self.dimensions.0 <= u32::MAX
    }

    /// A text of `len` characters can be put from column `x` of row `y`:
    /// its characters can be counted, its columns can be named, and the
    /// cell of its last character has an index.
    pub open spec fn has_room(self, len: int, x: int, y: int) -> bool {
        &&& len - 1 <= i32::MAX
        &&& len > 0 ==> x + len - 1 <= i32::MAX
        &&& len > 0 && x + len > 0 && y >= 0 ==> x + len - 1 + y * self.dimensions.0 <= u32::MAX
    }

    /// The background can be filled: every cell of the grid has an index,
    /// and its column and row can be named.
    pub open spec fn can_fill(self) -> bool {
        &&& self.cells() <= u32::MAX
        &&& self.cells() > 0 ==> self.dimensions.0 <= 0x8000_0000 && self.dimensions.1
            <= 0x8000_0000
    }

    /// The console after `fill_background`: every cell of the grid holds
    /// a space in `background` on layer 1, and nothing else has changed.
    pub open spec fn fill_background(self, background: Color) -> ConsoleView {
        ConsoleView {
            grid: Map::new(
                |key: (u32, u32)| self.grid.contains_key(key) || (key.1 == 1 && key.0 < self.cells()),
                |key: (u32, u32)|
                    if key.1 == 1 && key.0 < self.cells() {
                        background_glyph(background)
                    } else {
                        self.grid[key]
                    },
            ),
            dirty: self.dirty || self.cells() > 0,
            ..self
        }
    }

    /// The console while `fill_background` stands at column `x`, row `y`.
    spec fn partly_filled(self, background: Color, x: int, y: int) -> ConsoleView {
        ConsoleView {
            grid: Map::new(
                |key: (u32, u32)| self.grid.contains_key(key) || (key.1 == 1 && self.swept(x, y, key.0 as int)),
                |key: (u32, u32)|
                    if key.1 == 1 && self.swept(x, y, key.0 as int) {
                        background_glyph(background)
                    } else {
                        self.grid[key]
                    },
            ),
            dirty: self.dirty || (x > 0 && self.dimensions.1 > 0) || y > 0,
            ..self
        }
    }

    /// Whether the sweep over the grid, column by column and in each column
    /// row by row, has passed the cell `index` when it stands at column `x`,
    /// row `y`.
    spec fn swept(self, x: int, y: int, index: int) -> bool {
        let place = cell_coordinates(self.dimensions.0 as int, index);
        0 <= index < self.cells() && (place.0 < x || (place.0 == x && place.1 < y))
    }

    /// The buffers hold the geometry of this console's grid: the quads of
    /// its glyphs in ascending key order, and the indices of as many quads.
    pub open spec fn shown_by(self, vertices: Seq<Vertex>, indices: Seq<u32>) -> bool {
        exists|entries: Seq<((u32, u32), Glyph)>|
            {
                &&& #[trigger] lists(entries, self.grid)
                &&& vertices == batch_vertices(
                    self.font,
                    self.texture_scale,
                    self.dimensions.0,
                    entries,
                )
                &&& indices == batch_indices(entries.len())
            }
    }

    /// The grid can be turned into buffers: its characters are in the
    /// atlas, its cells have coordinates, and the index count of its quads
    /// fits the draw call.
    pub open spec fn can_upload(self) -> bool {
        &&& self.drawable()
        &&& self.dimensions.0 > 0 || self.grid.len() == 0
        &&& 6 * self.grid.len() <= i32::MAX
    }

    /// The console after `render`: clean, with the grid on the GPU.
    pub open spec fn rendered(self) -> ConsoleView {
        if self.dirty {
            ConsoleView {
                dirty: false,
                uploaded: self.grid,
                drawn: self.grid.len() as i32,
                ..self
            }
        } else {
            self
        }
    }

    /// `frame` is what `render` hands out for this console: buffers that
    /// show the grid if and only if the console is dirty, and the index
    /// count of the grid that is on the GPU after the frame.
    pub open spec fn draws(self, frame: Frame) -> bool {
        &&& frame.upload is Some <==> self.dirty
        &&& frame.upload matches Some(batch) ==> {
            &&& self.shown_by(batch.vertices@, batch.indices@)
            &&& batch.vertices@.len() == 4 * self.grid.len()
            &&& batch.indices@.len() == 6 * self.grid.len()
        }
        &&& frame.index_count == 6 * self.rendered().drawn
    }
}

/// The glyph that fills a cell's background: a space, both of whose colours
/// are `background`.
pub open spec fn background_glyph(background: Color) -> Glyph {
    Glyph { character: ' ', background, foreground: background }
}

/// What one call of `render` asks of the GPU.
#[derive(Debug)]
pub struct Frame {
    /// The buffers to upload before drawing; `None` when those of the last
    /// upload still hold.
    pub upload: Option<Batch>,
    /// The number of indices of the draw call.
    pub index_count: i32,
}

impl View for Console {
    type V = ConsoleView;

    closed spec fn view(&self) -> ConsoleView {
        ConsoleView {
            dimensions: self.dimensions,
            height: self.height,
            default_background: self.default_background,
            font: self.font_info@,
            texture_scale: self.font_info.scale(),
            grid: self.glyphs@,
            dirty: self.is_dirty.0,
            uploaded: self.uploaded@,
            drawn: self.num_vert.0,
        }
    }
}

impl Console {
    /// Well-formedness: every constructor establishes it and every method
    /// keeps it.
    pub open spec fn wf(&self) -> bool {
        self@.consistent()
    }

    /// An empty console of `map_size` columns and rows. Nothing has been
    /// uploaded for it, so it starts dirty.
    pub fn new(map_size: (u32, u32), background: Color, height: u32, font: FontInfo) -> (console:
        Console)
        ensures
            console.wf(),
            console@ == (ConsoleView {
                dimensions: map_size,
                height,
                default_background: background,
                font: font@,
                texture_scale: font.scale(),
                grid: Map::empty(),
                dirty: true,
                uploaded: Map::empty(),
                drawn: 0,
            }),
    {
        Console {
            is_dirty: Dirty(true),
            num_vert: Num(0),
            font_info: font,
            glyphs: GlyphGrid::new(),
            dimensions: map_size,
            height,
            default_background: background,
            uploaded: Ghost(Map::empty()),
        }
    }

    /// Columns and rows.
    pub fn dimensions(&self) -> (size: (u32, u32))
        ensures
            size == self@.dimensions,
    {
        self.dimensions
    }

    /// The console's font atlas.
    pub fn font(&self) -> (font: &FontInfo)
        ensures
            font@ == self@.font,
            font.scale() == self@.texture_scale,
    {
        &self.font_info
    }

    /// The console's depth budget.
    pub fn height(&self) -> (height: u32)
        ensures
            height == self@.height,
    {
        self.height
    }

    /// Whether the next `render` will upload.
    pub fn is_dirty(&self) -> (dirty: bool)
        ensures
            dirty == self@.dirty,
    {
        self.is_dirty.0
    }

    /// The number of glyphs in the grid, over all cells and layers.
    pub fn glyph_count(&self) -> (count: usize)
        ensures
            count == self@.grid.len(),
    {
        self.glyphs.len()
    }

    /// The glyph in column `x`, row `y` on `layer`, if one is drawn there.
    pub fn glyph_at(&self, x: u32, y: u32, layer: u32) -> (found: Option<Glyph>)
        requires
            x + y * self@.dimensions.0 <= u32::MAX,
        ensures
            found == (if self@.grid.contains_key(self@.key(x as int, y as int, layer)) {
                Some(self@.grid[self@.key(x as int, y as int, layer)])
            } else {
                None
            }),
    {
        let index = self.coordinates_to_index(x, y);
        self.glyphs.get(index, layer)
    }

    /// The index of the cell in column `x` and row `y`.
    pub fn coordinates_to_index(&self, x: u32, y: u32) -> (index: u32)
        requires
            x + y * self@.dimensions.0 <= u32::MAX,
        ensures
            index == cell_index(self@.dimensions.0 as int, x as int, y as int),
    {
        assert(y * self.dimensions.0 >= 0) by (nonlinear_arith);
        x + y * self.dimensions.0
    }

    /// The column and row of the cell with the given index.
    pub fn index_to_coordinates(&self, index: u32) -> (place: (u32, u32))
        requires
            self@.dimensions.0 > 0,
        ensures
            (place.0 as int, place.1 as int) == cell_coordinates(
                self@.dimensions.0 as int,
                index as int,
            ),
    {
        (index % self.dimensions.0, index / self.dimensions.0)
    }

    /// Whether a glyph can be put into column `x`, row `y`.
    pub fn can_put(&self, x: i32, y: i32) -> (ok: bool)
        ensures
            ok == self@.has_index(x as int, y as int),
    {
        if x < 0 || y < 0 {
            return true;
        }
        let cols = self.dimensions.0 as u64;
        assert(y * cols <= 0x7fff_ffff * 0xffff_ffff) by (nonlinear_arith)
            requires
                0 <= y <= 0x7fff_ffff,
                0 <= cols <= 0xffff_ffff,
        ;
        x as u64 + y as u64 * cols <= 0xffff_ffff
    }

    /// Whether `text` can be put from column `x` of row `y`.
    pub fn can_put_text(&self, text: &String, x: i32, y: i32) -> (ok: bool)
        ensures
            ok == self@.has_room(text@.len() as int, x as int, y as int),
    {
        let len = text.as_str().unicode_len();
        if len == 0 {
            return true;
        }
        if len - 1 > 0x7fff_ffff {
            return false;
        }
        let last: i64 = x as i64 + (len - 1) as i64;
        if last > 0x7fff_ffff {
            return false;
        }
        if last < 0 || y < 0 {
            return true;
        }
        let cols = self.dimensions.0 as u64;
        assert(y * cols <= 0x7fff_ffff * 0xffff_ffff) by (nonlinear_arith)
            requires
                0 <= y <= 0x7fff_ffff,
                0 <= cols <= 0xffff_ffff,
        ;
        last as u64 + y as u64 * cols <= 0xffff_ffff
    }

    /// Whether the background can be filled.
    pub fn can_fill(&self) -> (ok: bool)
        ensures
            ok == self@.can_fill(),
    {
        let cols = self.dimensions.0 as u64;
        let rows = self.dimensions.1 as u64;
        assert(cols * rows <= 0xffff_ffff * 0xffff_ffff && (cols * rows > 0 <==> cols > 0 && rows
            > 0)) by (nonlinear_arith)
            requires
                0 <= cols <= 0xffff_ffff,
                0 <= rows <= 0xffff_ffff,
        ;
        let cells = cols * rows;
        cells <= 0xffff_ffff && (cells == 0 || (cols <= 0x8000_0000 && rows <= 0x8000_0000))
    }

    /// Marks the console as changed, so that the next `render` uploads.
    pub fn set_dirty(&mut self)
        requires
            old(self).wf(),
        ensures
            final(self).wf(),
            final(self)@ == (ConsoleView { dirty: true, ..old(self)@ }),
    {
        self.is_dirty.set(true);
    }

    /// Empties the grid.
    pub fn clear(&mut self)
        requires
            old(self).wf(),
        ensures
            final(self).wf(),
            final(self)@ == old(self)@.clear(),
    {
        self.glyphs.clear();
        self.is_dirty.set(true);
    }

    /// Draws `c` in column `x`, row `y` on `layer`, in place of what that
    /// layer of the cell held. A negative `x` or `y` is dropped: the call
    /// then changes nothing.
    pub fn put_char(
        &mut self,
        c: char,
        x: i32,
        y: i32,
        foreground: Color,
        background: Option<Color>,
        layer: u32,
    )
        requires
            old(self).wf(),
            old(self)@.has_index(x as int, y as int),
        ensures
            final(self).wf(),
            final(self)@ == old(self)@.put_char(c, x as int, y as int, foreground, background, layer),
            x < 0 || y < 0 ==> final(self)@ == old(self)@,
    {
        if x < 0 || y < 0 {
            return ;
        }
        let background = match background {
            Some(b) => b,
            None => self.default_background,
        };
        self.is_dirty.set(true);
        let index = self.coordinates_to_index(x as u32, y as u32);
        self.glyphs.put(index, layer, Glyph::new(c, background, foreground));
    }

    /// Draws the characters of `text` in row `y`, the first in column `x`
    /// and each next one a column further right. The text is not wrapped.
    pub fn put_text(
        &mut self,
        text: &String,
        x: i32,
        y: i32,
        foreground: Color,
        background: Option<Color>,
        layer: u32,
    )
        requires
            old(self).wf(),
            old(self)@.has_room(text@.len() as int, x as int, y as int),
        ensures
            final(self).wf(),
            final(self)@ == old(self)@.put_text(
                text@,
                x as int,
                y as int,
                foreground,
                background,
                layer,
            ),
            final(self)@ == (ConsoleView {
                grid: final(self)@.grid,
                dirty: final(self)@.dirty,
                ..old(self)@
            }),
    {
        let mut column: i64 = x as i64;
        for c in it: text.as_str().chars()
            invariant
                it.seq() == text@,
                column == x + it.index(),
                self.wf(),
                self@ == (ConsoleView { grid: self@.grid, dirty: self@.dirty, ..old(self)@ }),
                old(self)@.has_room(text@.len() as int, x as int, y as int),
                self@ == old(self)@.put_text(
                    text@.take(it.index()),
                    x as int,
                    y as int,
                    foreground,
                    background,
                    layer,
                ),
        {
            proof {
                let prefix = text@.take(it.index() + 1);
                assert(prefix.drop_last() =~= text@.take(it.index()));
                assert(prefix.last() == c);
                if column >= 0 && y >= 0 {
                    assert(column + y * self@.dimensions.0 <= x + text@.len() - 1 + y
                        * self@.dimensions.0);
                }
            }
            self.put_char(c, column as i32, y, foreground, background, layer);
            column = column + 1;
        }
        proof {
            assert(text@.take(text@.len() as int) =~= text@);
        }
    }

    /// Puts a space in `background` into every cell of the grid, on
    /// layer 1.
    pub fn fill_background(&mut self, background: Color)
        requires
            old(self).wf(),
            old(self)@.can_fill(),
        ensures
            final(self).wf(),
            final(self)@ == old(self)@.fill_background(background),
    {
        let cols = self.dimensions.0;
        let rows = self.dimensions.1;
        let ghost start = self@;
        proof {
            assert(cols * rows > 0 <==> cols > 0 && rows > 0) by (nonlinear_arith);
            assert(self@.grid =~= start.partly_filled(background, 0, 0).grid);
        }
        let mut x: u32 = 0;
        while x < cols
            invariant
                start == old(self)@,
                start.dimensions == (cols, rows),
                start.cells() <= u32::MAX,
                start.cells() > 0 <==> cols > 0 && rows > 0,
                start.cells() > 0 ==> cols <= 0x8000_0000 && rows <= 0x8000_0000,
                x <= cols,
                self.wf(),
                self@ == start.partly_filled(background, x as int, 0),
            decreases cols - x,
        {
            let mut y: u32 = 0;
            while y < rows
                invariant
                    start.dimensions == (cols, rows),
                    start.cells() <= u32::MAX,
                    start.cells() > 0 <==> cols > 0 && rows > 0,
                    start.cells() > 0 ==> cols <= 0x8000_0000 && rows <= 0x8000_0000,
                    x < cols,
                    y <= rows,
                    self.wf(),
                    self@ == start.partly_filled(background, x as int, y as int),
                decreases rows - y,
            {
                proof {
                    lemma_grid_cells(cols as int, rows as int, x as int, y as int);
                    lemma_coordinates_round_trip(cols as int, x as int, y as int);
                }
                let ghost before = self@;
                self.put_char(' ', x as i32, y as i32, background, Some(background), 1);
                proof {
                    let after = start.partly_filled(background, x as int, y + 1);
                    let index = cell_index(cols as int, x as int, y as int);
                    assert forall|key: (u32, u32)| #[trigger]
                        self@.grid.contains_key(key) == after.grid.contains_key(key) && (
                        self@.grid.contains_key(key) ==> self@.grid[key] == after.grid[key]) by {
                        lemma_index_round_trip(cols as int, key.0 as int);
                    }
                    assert(self@.grid =~= after.grid);
                }
                y = y + 1;
            }
            proof {
                let after = start.partly_filled(background, x + 1, 0);
                assert forall|key: (u32, u32)| #[trigger]
                    self@.grid.contains_key(key) == after.grid.contains_key(key) && (
                    self@.grid.contains_key(key) ==> self@.grid[key] == after.grid[key]) by {
                    lemma_index_round_trip(cols as int, key.0 as int);
                    let place = cell_coordinates(cols as int, key.0 as int);
                    lemma_grid_cells(cols as int, rows as int, place.0, place.1);
                }
                assert(self@.grid =~= after.grid);
            }
            x = x + 1;
        }
        proof {
            let after = start.fill_background(background);
            assert forall|key: (u32, u32)| #[trigger]
                self@.grid.contains_key(key) == after.grid.contains_key(key) && (
                self@.grid.contains_key(key) ==> self@.grid[key] == after.grid[key]) by {
                if cols > 0 {
                    lemma_index_round_trip(cols as int, key.0 as int);
                }
            }
            assert(self@.grid =~= after.grid);
        }
    }

    /// Turns the grid into vertex and index buffers: one quad for each
    /// glyph, in ascending key order.
    pub fn build_batch(&self) -> (batch: Batch)
        requires
            self@.drawable(),
            self@.dimensions.0 > 0 || self@.grid.len() == 0,
            4 * self@.grid.len() <= u32::MAX,
        ensures
            self@.shown_by(batch.vertices@, batch.indices@),
            batch.vertices@.len() == 4 * self@.grid.len(),
            batch.indices@.len() == 6 * self@.grid.len(),
    {
        let entries = self.glyphs.entries();
        let scale = self.font_info.texture_scale();
        let mut vertices: Vec<Vertex> = Vec::new();
        let mut indices: Vec<u32> = Vec::new();
        let mut done: usize = 0;
        while done < entries.len()
            invariant
                self@.drawable(),
                lists(entries@, self@.grid),
                entries@.len() == self@.grid.len(),
                4 * entries@.len() <= u32::MAX,
                self@.dimensions.0 > 0 || entries@.len() == 0,
                scale == self@.texture_scale,
                done <= entries.len(),
                vertices@ == batch_vertices(
                    self@.font,
                    self@.texture_scale,
                    self@.dimensions.0,
                    entries@.take(done as int),
                ),
                indices@ == batch_indices(done as nat),
                vertices@.len() == 4 * done,
            decreases entries.len() - done,
        {
            let entry = entries[done];
            let key = entry.0;
            let glyph = entry.1;
            assert(self@.grid.contains_key(entries@[done as int].0));
            let rect = self.font_info.bounding_box(glyph.character).unwrap();
            let cell = self.index_to_coordinates(key.0);
            let layer = key.1;
            let index_offset = vertices.len() as u32;
            let ghost before = vertices@;
            let ghost indices_before = indices@;
            vertices.push(
                Vertex {
                    position: Position { cell, corner: Corner::TopRight, layer },
                    texture: rect.top_right(scale),
                    background: glyph.background,
                    foreground: glyph.foreground,
                },
            );
            vertices.push(
                Vertex {
                    position: Position { cell, corner: Corner::BottomRight, layer },
                    texture: rect.bottom_right(scale),
                    background: glyph.background,
                    foreground: glyph.foreground,
                },
            );
            vertices.push(
                Vertex {
                    position: Position { cell, corner: Corner::BottomLeft, layer },
                    texture: rect.bottom_left(scale),
                    background: glyph.background,
                    foreground: glyph.foreground,
                },
            );
            vertices.push(
                Vertex {
                    position: Position { cell, corner: Corner::TopLeft, layer },
                    texture: rect.top_left(scale),
                    background: glyph.background,
                    foreground: glyph.foreground,
                },
            );
            indices.push(index_offset);
            indices.push(1 + index_offset);
            indices.push(3 + index_offset);
            indices.push(1 + index_offset);
            indices.push(2 + index_offset);
            indices.push(3 + index_offset);
            proof {
                let prefix = entries@.take(done as int + 1);
                assert(prefix.drop_last() =~= entries@.take(done as int));
                assert(prefix.last() == entries@[done as int]);
                assert(vertices@ =~= before + quad_vertices(
                    self@.font,
                    self@.texture_scale,
                    self@.dimensions.0,
                    entry,
                ));
                assert(indices@ =~= indices_before + quad_indices(4 * done));
            }
            done = done + 1;
        }
        proof {
            assert(entries@.take(done as int) =~= entries@);
            lemma_batch_indices_len(done as nat);
        }
        Batch { vertices, indices }
    }

    /// One frame. A dirty console rebuilds its buffers, hands them out for
    /// upload and becomes clean; a clean one hands out nothing. Either way
    /// the frame names the number of indices to draw.
    pub fn render(&mut self) -> (frame: Frame)
        requires
            old(self).wf(),
            old(self)@.dirty ==> old(self)@.can_upload(),
        ensures
            final(self).wf(),
            final(self)@ == old(self)@.rendered(),
            old(self)@.draws(frame),
    {
        let mut upload: Option<Batch> = None;
        if self.is_dirty.0 {
            let batch = self.build_batch();
            let num_glyphs = self.glyphs.len() as i32;
            self.is_dirty.set(false);
            self.num_vert.set(num_glyphs);
            self.uploaded = Ghost(self.glyphs@);
            upload = Some(batch);
        }
        Frame { upload, index_count: self.num_vert.0 * 6 }
    }

    /// Whether the grid can be turned into buffers.
    pub fn can_upload(&self) -> (ok: bool)
        ensures
            ok == self@.can_upload(),
    {
        let entries = self.glyphs.entries();
        if entries.len() > 357913941 {
            return false;
        }
        if self.dimensions.0 == 0 && entries.len() > 0 {
            return false;
        }
        let mut checked: usize = 0;
        while checked < entries.len()
            invariant
                lists(entries@, self@.grid),
                checked <= entries.len(),
                forall|i: int|
                    0 <= i < checked ==> self@.font.contains_key((#[trigger] entries@[i]).1.character),
            decreases entries.len() - checked,
        {
            if !self.font_info.contains(entries[checked].1.character) {
                assert(self@.grid.contains_key(entries@[checked as int].0));
                return false;
            }
            checked = checked + 1;
        }
        assert forall|key: (u32, u32)| #[trigger] self@.grid.contains_key(key) implies self@.font.contains_key(
            self@.grid[key].character,
        ) by {
            let i = choose|i: int| 0 <= i < entries@.len() && #[trigger] entries@[i].0 == key;
            assert(self@.font.contains_key(entries@[i].1.character));
        }
        true
    }

    /// One frame, if the grid can be shown: `render` where a dirty grid can
    /// be turned into buffers, and otherwise `None` with the console as it
    /// was.
    pub fn checked_render(&mut self) -> (frame: Option<Frame>)
        requires
            old(self).wf(),
        ensures
            final(self).wf(),
            frame is Some <==> (old(self)@.dirty ==> old(self)@.can_upload()),
            frame is None ==> final(self)@ == old(self)@,
            frame matches Some(shown) ==> final(self)@ == old(self)@.rendered() && old(self)@.draws(
                shown,
            ),
    {
        if self.is_dirty.0 && !self.can_upload() {
            None
        } else {
            Some(self.render())
        }
    }
}

} // verus!
