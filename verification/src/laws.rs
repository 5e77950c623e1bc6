//! What holds of consoles in general, stated over their views.

use vstd::prelude::*;
use crate::batch::{
    batch_indices, batch_vertices, cell_coordinates, corner_point, lemma_batch_indices_len,
    lemma_batch_quad, lemma_index_round_trip, quad_indices, quad_vertices, Vertex,
};
use crate::font::BoundingBox;
use crate::color::Color;
use crate::console::{background_glyph, ConsoleView};
use crate::glyph::Glyph;
use crate::grid::{lemma_listing_is_unique, lists};

verus! {

/// One step in the life of a console.
pub enum Edit {
    PutChar { c: char, x: int, y: int, foreground: Color, background: Option<Color>, layer: u32 },
    Clear,
    FillBackground { color: Color },
    SetDirty,
    Render,
}

/// The console after one step.
pub open spec fn apply(view: ConsoleView, edit: Edit) -> ConsoleView {
    match edit {
        Edit::PutChar { c, x, y, foreground, background, layer } => view.put_char(
            c,
            x,
            y,
            foreground,
            background,
            layer,
        ),
        Edit::Clear => view.clear(),
        Edit::FillBackground { color } => view.fill_background(color),
        Edit::SetDirty => ConsoleView { dirty: true, ..view },
        Edit::Render => view.rendered(),
    }
}

/// The console after a sequence of steps, the first of them first.
pub open spec fn apply_all(view: ConsoleView, edits: Seq<Edit>) -> ConsoleView
    decreases edits.len(),
{
    if edits.len() == 0 {
        view
    } else {
        apply(apply_all(view, edits.drop_last()), edits.last())
    }
}

/// A console whose grid differs from what was last uploaded is dirty.
pub open spec fn tracks_upload(view: ConsoleView) -> bool {
    view.grid != view.uploaded ==> view.dirty
}

/// The dirty flag never misses a change: whatever is put, cleared, filled
/// and rendered, in whatever order, a console whose grid differs from what
/// was last uploaded is dirty.
pub proof fn lemma_dirty_flag_tracks_upload(view: ConsoleView, edits: Seq<Edit>)
    requires
        tracks_upload(view),
    ensures
        tracks_upload(apply_all(view, edits)),
    decreases edits.len(),
{
    if edits.len() > 0 {
        lemma_dirty_flag_tracks_upload(view, edits.drop_last());
        let before = apply_all(view, edits.drop_last());
        match edits.last() {
            Edit::FillBackground { color } => {
                if before.cells() <= 0 {
                    assert(before.fill_background(color).grid =~= before.grid);
                }
            },
            _ => {},
        }
    }
}

/// Whether `key` is the key of a cell of the grid on the background layer
/// that does not hold the background glyph of `color`.
pub open spec fn unfilled(view: ConsoleView, color: Color, key: (u32, u32)) -> bool {
    &&& key.1 == 1
    &&& key.0 < view.cells()
    &&& !(view.grid.contains_key(key) && view.grid[key] == background_glyph(color))
}

/// Whether the step changes nothing that is drawn, though it marks the
/// console: it puts the glyph that is there already, clears what is empty,
/// fills what is filled, or marks the console by hand.
pub open spec fn is_idle(view: ConsoleView, edit: Edit) -> bool {
    match edit {
        Edit::PutChar { c, x, y, foreground, background, layer } => {
            &&& x >= 0
            &&& y >= 0
            &&& view.grid.contains_key(view.key(x, y, layer))
            &&& view.grid[view.key(x, y, layer)] == view.glyph_for(c, foreground, background)
        },
        Edit::Clear => forall|key: (u32, u32)| !view.grid.contains_key(key),
        Edit::FillBackground { color } => {
            &&& view.cells() > 0
            &&& forall|key: (u32, u32)| !#[trigger] unfilled(view, color, key)
        },
        Edit::SetDirty => true,
        Edit::Render => false,
    }
}

/// One step from a clean console leaves it dirty exactly when the grid
/// then differs from what is uploaded; only a step that changes nothing
/// that is drawn marks the console without need.
pub proof fn lemma_dirty_exactly_when_changed(view: ConsoleView, edit: Edit)
    requires
        !view.dirty,
        view.grid == view.uploaded,
        !is_idle(view, edit),
    ensures
        apply(view, edit).dirty <==> apply(view, edit).grid != apply(view, edit).uploaded,
{
    let after = apply(view, edit);
    match edit {
        Edit::PutChar { c, x, y, foreground, background, layer } => {
            if x >= 0 && y >= 0 {
                let key = view.key(x, y, layer);
                assert(after.grid.contains_key(key));
                assert(after.grid[key] == view.glyph_for(c, foreground, background));
            }
        },
        Edit::Clear => {
            let key = choose|key: (u32, u32)| view.grid.contains_key(key);
            assert(!after.grid.contains_key(key));
        },
        Edit::FillBackground { color } => {
            if view.cells() > 0 {
                let key = choose|key: (u32, u32)| unfilled(view, color, key);
                assert(unfilled(view, color, key));
                assert(after.grid.contains_key(key));
                assert(after.grid[key] == background_glyph(color));
            } else {
                assert(after.grid =~= view.grid);
            }
        },
        Edit::SetDirty => {},
        Edit::Render => {},
    }
}

/// Rendering leaves a console clean, and rendering a clean console changes
/// nothing: of two renders with no change between them only the first can
/// upload, and both draw the same number of quads.
pub proof fn lemma_second_render_is_idle(view: ConsoleView)
    requires
        tracks_upload(view),
    ensures
        !view.rendered().dirty,
        view.rendered().rendered() == view.rendered(),
        view.rendered().grid == view.grid,
        view.rendered().uploaded == view.rendered().grid,
{
}

/// A character put at a negative column or row is dropped: the console is
/// what it was.
pub proof fn lemma_negative_coordinates_are_dropped(
    view: ConsoleView,
    c: char,
    x: int,
    y: int,
    foreground: Color,
    background: Option<Color>,
    layer: u32,
)
    requires
        x < 0 || y < 0,
    ensures
        view.put_char(c, x, y, foreground, background, layer) == view,
{
}

/// Layers do not occlude each other: after two characters were put into
/// the same cell on different layers, the grid holds both.
pub proof fn lemma_layers_coexist(
    view: ConsoleView,
    x: int,
    y: int,
    lower: (char, Color, Option<Color>, u32),
    upper: (char, Color, Option<Color>, u32),
)
    requires
        0 <= x,
        0 <= y,
        lower.3 != upper.3,
    ensures
        ({
            let after = view.put_char(lower.0, x, y, lower.1, lower.2, lower.3).put_char(
                upper.0,
                x,
                y,
                upper.1,
                upper.2,
                upper.3,
            );
            &&& after.grid.contains_key(view.key(x, y, lower.3))
            &&& after.grid[view.key(x, y, lower.3)] == view.glyph_for(lower.0, lower.1, lower.2)
            &&& after.grid.contains_key(view.key(x, y, upper.3))
            &&& after.grid[view.key(x, y, upper.3)] == view.glyph_for(upper.0, upper.1, upper.2)
            &&& view.key(x, y, lower.3) != view.key(x, y, upper.3)
        }),
{
}

/// Every glyph of the grid is drawn: buffers that show a console hold,
/// for each of its glyphs, that glyph's quad and six indices into it.
pub proof fn lemma_every_glyph_is_drawn(
    view: ConsoleView,
    vertices: Seq<Vertex>,
    indices: Seq<u32>,
    key: (u32, u32),
)
    requires
        view.shown_by(vertices, indices),
        view.grid.contains_key(key),
    ensures
        exists|n: int|
            {
                &&& 0 <= n
                &&& 4 * n + 4 <= vertices.len()
                &&& 6 * n + 6 <= indices.len()
                &&& #[trigger] vertices.subrange(4 * n, 4 * n + 4) == quad_vertices(
                    view.font,
                    view.texture_scale,
                    view.dimensions.0,
                    (key, view.grid[key]),
                )
                &&& indices.subrange(6 * n, 6 * n + 6) == quad_indices(4 * n)
            },
{
    let entries = choose|entries: Seq<((u32, u32), Glyph)>|
        {
            &&& #[trigger] lists(entries, view.grid)
            &&& vertices == batch_vertices(
                view.font,
                view.texture_scale,
                view.dimensions.0,
                entries,
            )
            &&& indices == batch_indices(entries.len())
        };
    let n = choose|n: int| 0 <= n < entries.len() && #[trigger] entries[n].0 == key;
    lemma_batch_quad(view.font, view.texture_scale, view.dimensions.0, entries, n);
    crate::batch::lemma_batch_vertices_len(
        view.font,
        view.texture_scale,
        view.dimensions.0,
        entries,
    );
    crate::batch::lemma_batch_indices_len(entries.len());
    assert(entries[n] == (key, view.grid[key]));
    assert(vertices.subrange(4 * n, 4 * n + 4) == quad_vertices(
        view.font,
        view.texture_scale,
        view.dimensions.0,
        (key, view.grid[key]),
    ));
}

/// Different cells lie at different places: two cell indices that differ
/// do not have the same column and row, so the quads of different cells
/// never cover each other.
pub proof fn lemma_cells_do_not_collide(cols: int, first: int, second: int)
    requires
        0 < cols,
        0 <= first,
        0 <= second,
        first != second,
    ensures
        cell_coordinates(cols, first) != cell_coordinates(cols, second),
{
    lemma_index_round_trip(cols, first);
    lemma_index_round_trip(cols, second);
}

/// The quad of a glyph is its cell: its four vertices lie at the four
/// corners of the cell whose index is in the glyph's key, in the order upper
/// right, lower right, lower left, upper left. For a cell of the grid none
/// of them lies outside the grid, so that no coordinate leaves the range
/// from -1 to 1 when columns and rows are mapped to it.
pub proof fn lemma_quad_is_its_cell(
    font: Map<char, BoundingBox>,
    scale: (i32, i32),
    cols: u32,
    rows: u32,
    entry: ((u32, u32), Glyph),
)
    requires
        0 < cols,
    ensures
        ({
            let quad = quad_vertices(font, scale, cols, entry);
            let place = cell_coordinates(cols as int, entry.0.0 as int);
            &&& quad.len() == 4
            &&& corner_point(quad[0].position) == (place.0 + 1, place.1 + 1)
            &&& corner_point(quad[1].position) == (place.0 + 1, place.1)
            &&& corner_point(quad[2].position) == (place.0, place.1)
            &&& corner_point(quad[3].position) == (place.0, place.1 + 1)
            &&& forall|i: int|
                0 <= i < 4 ==> {
                    let point = corner_point((#[trigger] quad[i]).position);
                    &&& -cols <= 2 * point.0 - cols <= cols
                    &&& entry.0.0 < cols * rows ==> -rows <= 2 * point.1 - rows <= rows
                }
        }),
{
    lemma_index_round_trip(cols as int, entry.0.0 as int);
    let place = cell_coordinates(cols as int, entry.0.0 as int);
    if entry.0.0 < cols * rows {
        crate::batch::lemma_grid_cells(cols as int, rows as int, place.0, place.1);
    }
}

/// Every index of a batch points at a vertex of the batch, and the six
/// indices of a quad point at the four vertices of that quad.
pub proof fn lemma_indices_stay_in_their_quad(quads: nat, i: int)
    requires
        4 * quads <= u32::MAX,
        0 <= i < 6 * quads,
    ensures
        batch_indices(quads).len() == 6 * quads,
        4 * (i / 6) <= batch_indices(quads)[i] < 4 * (i / 6) + 4,
        batch_indices(quads)[i] < 4 * quads,
    decreases quads,
{
    lemma_batch_indices_len(quads);
    lemma_batch_indices_len((quads - 1) as nat);
    if i < 6 * (quads - 1) {
        lemma_indices_stay_in_their_quad((quads - 1) as nat, i);
        assert(batch_indices(quads)[i] == batch_indices((quads - 1) as nat)[i]);
    } else {
        let k = i - 6 * (quads - 1);
        assert(batch_indices(quads)[i] == quad_indices(4 * (quads - 1))[k]);
        assert(i / 6 == quads - 1);
    }
}

/// The geometry is a function of the console: two pairs of buffers that
/// show the same console are equal.
pub proof fn lemma_geometry_is_determined(
    view: ConsoleView,
    first: (Seq<Vertex>, Seq<u32>),
    second: (Seq<Vertex>, Seq<u32>),
)
    requires
        view.shown_by(first.0, first.1),
        view.shown_by(second.0, second.1),
    ensures
        first == second,
{
    let a = choose|entries: Seq<((u32, u32), Glyph)>|
        {
            &&& #[trigger] lists(entries, view.grid)
            &&& first.0 == batch_vertices(
                view.font,
                view.texture_scale,
                view.dimensions.0,
                entries,
            )
            &&& first.1 == batch_indices(entries.len())
        };
    let b = choose|entries: Seq<((u32, u32), Glyph)>|
        {
            &&& #[trigger] lists(entries, view.grid)
            &&& second.0 == batch_vertices(
                view.font,
                view.texture_scale,
                view.dimensions.0,
                entries,
            )
            &&& second.1 == batch_indices(entries.len())
        };
    lemma_listing_is_unique(a, b, view.grid);
}

/// The place in a text, put from column `x` of row `y`, of the character
/// that is stored under a key with the cell index `index`.
pub open spec fn text_place(cols: int, x: int, y: int, index: int) -> int {
    index - y * cols - x
}

/// Whether `put_text` writes under `key`.
pub open spec fn text_key(view: ConsoleView, len: int, x: int, y: int, layer: u32, key: (u32, u32)) -> bool {
    let place = text_place(view.dimensions.0 as int, x, y, key.0 as int);
    key.1 == layer && y >= 0 && x + place >= 0 && 0 <= place < len
}

/// What `put_text` leaves behind, cell by cell: the `i`-th character stands
/// `i` columns right of `x`, unless that column or the row is negative; every
/// other key holds what it held; the console is dirty if anything was
/// written; and nothing else changes.
pub proof fn lemma_put_text_cells(
    view: ConsoleView,
    text: Seq<char>,
    x: int,
    y: int,
    foreground: Color,
    background: Option<Color>,
    layer: u32,
)
    requires
        text.len() > 0 && x + text.len() > 0 && y >= 0 ==> x + text.len() - 1 + y
            * view.dimensions.0 <= u32::MAX,
    ensures
        view.put_text(text, x, y, foreground, background, layer) == (ConsoleView {
            grid: Map::new(
                |key: (u32, u32)|
                    view.grid.contains_key(key) || text_key(view, text.len() as int, x, y, layer, key),
                |key: (u32, u32)|
                    if text_key(view, text.len() as int, x, y, layer, key) {
                        view.glyph_for(
                            text[text_place(view.dimensions.0 as int, x, y, key.0 as int)],
                            foreground,
                            background,
                        )
                    } else {
                        view.grid[key]
                    },
            ),
            dirty: view.dirty || (text.len() > 0 && x + text.len() > 0 && y >= 0),
            ..view
        }),
    decreases text.len(),
{
    let cols = view.dimensions.0 as int;
    let after = view.put_text(text, x, y, foreground, background, layer);
    let closed = Map::new(
        |key: (u32, u32)|
            view.grid.contains_key(key) || text_key(view, text.len() as int, x, y, layer, key),
        |key: (u32, u32)|
            if text_key(view, text.len() as int, x, y, layer, key) {
                view.glyph_for(text[text_place(cols, x, y, key.0 as int)], foreground, background)
            } else {
                view.grid[key]
            },
    );
    if text.len() == 0 {
        assert(after.grid =~= closed);
    } else {
        let front = text.drop_last();
        let last = text.len() - 1;
        let before = view.put_text(front, x, y, foreground, background, layer);
        lemma_put_text_cells(view, front, x, y, foreground, background, layer);
        if y >= 0 {
            assert(y * cols >= 0) by (nonlinear_arith)
                requires
                    y >= 0,
                    cols >= 0,
            ;
        }
        assert forall|key: (u32, u32)| #[trigger]
            after.grid.contains_key(key) == closed.contains_key(key) && (after.grid.contains_key(
            key,
        ) ==> after.grid[key] == closed[key]) by {
            let place = text_place(cols, x, y, key.0 as int);
            if 0 <= place < last {
                assert(front[place] == text[place]);
            }
        }
        assert(after.grid =~= closed);
    }
}

} // verus!
