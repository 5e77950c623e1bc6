//! The geometry of a console: four vertices and six indices for each glyph.
//!
//! A vertex names its place by grid cell and corner, and its texture
//! coordinate as a pair of undivided quotients. Turning these into
//! normalised device coordinates is the renderer's part.

use vstd::prelude::*;
use crate::color::Color;
use crate::font::{BoundingBox, Ratio};
use crate::glyph::Glyph;

verus! {

/// The corners of a glyph's quad, in the order in which its vertices are
/// emitted.
#[derive(Clone, Copy, Debug, PartialEq, Eq, Structural)]
pub enum Corner {
    TopRight,
    BottomRight,
    BottomLeft,
    TopLeft,
}

/// Where a vertex lies: at `corner` of the grid cell `cell` (column, row),
/// at the depth of `layer`.
#[derive(Clone, Copy, Debug, PartialEq, Eq)]
pub struct Position {
    pub cell: (u32, u32),
    pub corner: Corner,
    pub layer: u32,
}

/// One corner of one glyph's quad.
#[derive(Clone, Copy, Debug, PartialEq, Eq)]
pub struct Vertex {
    pub position: Position,
    pub texture: (Ratio, Ratio),
    pub background: Color,
    pub foreground: Color,
}

/// Vertex and index buffers, ready to be converted and uploaded.
#[derive(Debug)]
pub struct Batch {
    pub vertices: Vec<Vertex>,
    pub indices: Vec<u32>,
}

/// The index of the cell in column `x` and row `y` of a grid `cols` wide.
pub open spec fn cell_index(cols: int, x: int, y: int) -> int {
    x + y * cols
}

/// The column and row of the cell with the given index.
pub open spec fn cell_coordinates(cols: int, index: int) -> (int, int) {
    (index % cols, index / cols)
}

/// Coordinates survive the trip through the cell index: for a column inside
/// the grid and any row, the index leads back to the same column and row.
pub proof fn lemma_coordinates_round_trip(cols: int, x: int, y: int)
    requires
        0 <= x < cols,
        0 <= y,
    ensures
        cell_coordinates(cols, cell_index(cols, x, y)) == (x, y),
        0 <= cell_index(cols, x, y),
{
    vstd::arithmetic::div_mod::lemma_fundamental_div_mod_converse(x + y * cols, cols, y, x);
    assert(y * cols >= 0) by (nonlinear_arith)
        requires
            y >= 0,
            cols > 0,
    ;
}

/// Every index is the index of its own coordinates, and its column lies
/// inside the grid.
pub proof fn lemma_index_round_trip(cols: int, index: int)
    requires
        0 < cols,
        0 <= index,
    ensures
        cell_index(cols, cell_coordinates(cols, index).0, cell_coordinates(cols, index).1) == index,
        0 <= cell_coordinates(cols, index).0 < cols,
        0 <= cell_coordinates(cols, index).1 <= index,
{
    vstd::arithmetic::div_mod::lemma_fundamental_div_mod(index, cols);
    vstd::arithmetic::div_mod::lemma_div_pos_is_pos(index, cols);
    assert(cols * (index / cols) == (index / cols) * cols) by (nonlinear_arith);
    assert((index / cols) * cols >= index / cols) by (nonlinear_arith)
        requires
            index / cols >= 0,
            cols > 0,
    ;
}

/// The cells of a grid of `cols` columns and `rows` rows are the cells
/// with an index below `cols * rows`.
pub proof fn lemma_grid_cells(cols: int, rows: int, x: int, y: int)
    requires
        0 <= x < cols,
        0 <= y,
    ensures
        y < rows <==> cell_index(cols, x, y) < cols * rows,
{
    if y < rows {
        assert(x + y * cols < cols * rows) by (nonlinear_arith)
            requires
                0 <= x < cols,
                0 <= y < rows,
        ;
    } else {
        assert(x + y * cols >= cols * rows) by (nonlinear_arith)
            requires
                0 <= x < cols,
                y >= rows,
        ;
    }
}

/// The point of the lattice of cell corners at which a vertex lies: the
/// lower left corner of the cell in column `x`, row `y` is the point
/// `(x, y)`, and its upper right corner the point `(x + 1, y + 1)`.
pub open spec fn corner_point(position: Position) -> (int, int) {
    let x = position.cell.0 as int;
    let y = position.cell.1 as int;
    match position.corner {
        Corner::TopRight => (x + 1, y + 1),
        Corner::BottomRight => (x + 1, y),
        Corner::BottomLeft => (x, y),
        Corner::TopLeft => (x, y + 1),
    }
}

/// The atlas corner that is drawn at `corner` of a quad.
pub open spec fn corner_texture(rect: BoundingBox, scale: (i32, i32), corner: Corner) -> (
    Ratio,
    Ratio,
) {
    match corner {
        Corner::TopRight => rect.spec_top_right(scale),
        Corner::BottomRight => rect.spec_bottom_right(scale),
        Corner::BottomLeft => rect.spec_bottom_left(scale),
        Corner::TopLeft => rect.spec_top_left(scale),
    }
}

pub open spec fn corner_vertex(
    cell: (u32, u32),
    layer: u32,
    rect: BoundingBox,
    scale: (i32, i32),
    glyph: Glyph,
    corner: Corner,
) -> Vertex {
    Vertex {
        position: Position { cell, corner, layer },
        texture: corner_texture(rect, scale, corner),
        background: glyph.background,
        foreground: glyph.foreground,
    }
}

/// The four vertices of the quad that shows `entry`, a glyph with its key.
pub open spec fn quad_vertices(
    font: Map<char, BoundingBox>,
    scale: (i32, i32),
    cols: u32,
    entry: ((u32, u32), Glyph),
) -> Seq<Vertex> {
    let rect = font[entry.1.character];
    let place = cell_coordinates(cols as int, entry.0.0 as int);
    let cell = (place.0 as u32, place.1 as u32);
    let layer = entry.0.1;
    seq![
        corner_vertex(cell, layer, rect, scale, entry.1, Corner::TopRight),
        corner_vertex(cell, layer, rect, scale, entry.1, Corner::BottomRight),
        corner_vertex(cell, layer, rect, scale, entry.1, Corner::BottomLeft),
        corner_vertex(cell, layer, rect, scale, entry.1, Corner::TopLeft),
    ]
}

/// The two triangles of the quad whose first vertex has index `first`: they
/// share the edge from its second to its fourth vertex.
pub open spec fn quad_indices(first: int) -> Seq<u32> {
    seq![
        first as u32,
        (first + 1) as u32,
        (first + 3) as u32,
        (first + 1) as u32,
        (first + 2) as u32,
        (first + 3) as u32,
    ]
}

/// The vertex buffer for `entries`: their quads, one after the other.
pub open spec fn batch_vertices(
    font: Map<char, BoundingBox>,
    scale: (i32, i32),
    cols: u32,
    entries: Seq<((u32, u32), Glyph)>,
) -> Seq<Vertex>
    decreases entries.len(),
{
    if entries.len() == 0 {
        Seq::empty()
    } else {
        batch_vertices(font, scale, cols, entries.drop_last()) + quad_vertices(
            font,
            scale,
            cols,
            entries.last(),
        )
    }
}

/// The index buffer for `quads` quads laid out one after the other.
pub open spec fn batch_indices(quads: nat) -> Seq<u32>
    decreases quads,
{
    if quads == 0 {
        Seq::empty()
    } else {
        batch_indices((quads - 1) as nat) + quad_indices(4 * (quads - 1))
    }
}

/// A batch has four vertices for each entry.
pub proof fn lemma_batch_vertices_len(
    font: Map<char, BoundingBox>,
    scale: (i32, i32),
    cols: u32,
    entries: Seq<((u32, u32), Glyph)>,
)
    ensures
        batch_vertices(font, scale, cols, entries).len() == 4 * entries.len(),
    decreases entries.len(),
{
    if entries.len() > 0 {
        lemma_batch_vertices_len(font, scale, cols, entries.drop_last());
    }
}

/// A batch has six indices for each quad.
pub proof fn lemma_batch_indices_len(quads: nat)
    ensures
        batch_indices(quads).len() == 6 * quads,
    decreases quads,
{
    if quads > 0 {
        lemma_batch_indices_len((quads - 1) as nat);
    }
}

/// The `n`-th quad of a batch is the quad of the `n`-th entry, and its six
/// indices point at its own four vertices.
pub proof fn lemma_batch_quad(
    font: Map<char, BoundingBox>,
    scale: (i32, i32),
    cols: u32,
    entries: Seq<((u32, u32), Glyph)>,
    n: int,
)
    requires
        0 <= n < entries.len(),
    ensures
        batch_vertices(font, scale, cols, entries).subrange(4 * n, 4 * n + 4) == quad_vertices(
            font,
            scale,
            cols,
            entries[n],
        ),
        batch_indices(entries.len()).subrange(6 * n, 6 * n + 6) == quad_indices(4 * n),
    decreases entries.len(),
{
    let all = batch_vertices(font, scale, cols, entries);
    let front = batch_vertices(font, scale, cols, entries.drop_last());
    let indices = batch_indices(entries.len());
    let front_indices = batch_indices((entries.len() - 1) as nat);
    lemma_batch_vertices_len(font, scale, cols, entries.drop_last());
    lemma_batch_indices_len((entries.len() - 1) as nat);
    if n == entries.len() - 1 {
        assert(all.subrange(4 * n, 4 * n + 4) =~= quad_vertices(font, scale, cols, entries[n]));
        assert(indices.subrange(6 * n, 6 * n + 6) =~= quad_indices(4 * n));
    } else {
        lemma_batch_quad(font, scale, cols, entries.drop_last(), n);
        assert(entries.drop_last()[n] == entries[n]);
        assert(all.subrange(4 * n, 4 * n + 4) =~= front.subrange(4 * n, 4 * n + 4));
        assert(indices.subrange(6 * n, 6 * n + 6) =~= front_indices.subrange(6 * n, 6 * n + 6));
    }
}

} // verus!
