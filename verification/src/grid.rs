//! The sparse store behind a console: at most one glyph for each cell index
//! and layer.

use vstd::prelude::*;
use std::collections::BTreeMap;
use vstd::std_specs::btree::spec_btree_map_iter;
use vstd::std_specs::btree::increasing_seq;
use vstd::std_specs::iter::IteratorSpec;
use vstd::std_specs::cmp::OrdSpec;
use crate::glyph::Glyph;

verus! {

/// Keys are ordered by cell index first and by layer second.
pub open spec fn key_before(a: (u32, u32), b: (u32, u32)) -> bool {
    a.0 < b.0 || (a.0 == b.0 && a.1 < b.1)
}

/// `entries` holds every glyph of `grid` once, with its key, keys ascending.
pub open spec fn lists(entries: Seq<((u32, u32), Glyph)>, grid: Map<(u32, u32), Glyph>) -> bool {
    &&& forall|i: int|
        0 <= i < entries.len() ==> grid.contains_key(#[trigger] entries[i].0) && grid[entries[i].0]
            == entries[i].1
    &&& forall|key: (u32, u32)|
        grid.contains_key(key) ==> exists|i: int|
            0 <= i < entries.len() && #[trigger] entries[i].0 == key
    &&& forall|i: int, j: int|
        0 <= i < j < entries.len() ==> key_before(#[trigger] entries[i].0, #[trigger] entries[j].0)
}

/// A mapping from `(cell index, layer)` to the glyph drawn there. A key that
/// is absent is a cell that is not drawn at that layer.
pub struct GlyphGrid {
    cells: BTreeMap<(u32, u32), Glyph>,
}

impl View for GlyphGrid {
    type V = Map<(u32, u32), Glyph>;

    closed spec fn view(&self) -> Map<(u32, u32), Glyph> {
        self.cells@
    }
}

impl GlyphGrid {
    /// The grid in which nothing is drawn.
    pub fn new() -> (grid: GlyphGrid)
        ensures
            grid@ == Map::<(u32, u32), Glyph>::empty(),
    {
        GlyphGrid { cells: BTreeMap::new() }
    }

    /// Removes every glyph.
    pub fn clear(&mut self)
        ensures
            final(self)@ == Map::<(u32, u32), Glyph>::empty(),
    {
        self.cells.clear();
    }

    /// Draws `glyph` at cell `index` on `layer`, in place of what was there.
    /// Other layers of the same cell keep their glyphs.
    pub fn put(&mut self, index: u32, layer: u32, glyph: Glyph)
        ensures
            final(self)@ == old(self)@.insert((index, layer), glyph),
    {
        self.cells.insert((index, layer), glyph);
    }

    /// The glyph at cell `index` on `layer`, if one is drawn there.
    pub fn get(&self, index: u32, layer: u32) -> (found: Option<Glyph>)
        ensures
            found == (if self@.contains_key((index, layer)) {
                Some(self@[(index, layer)])
            } else {
                None
            }),
    {
        let key: (u32, u32) = (index, layer);
        match self.cells.get(&key) {
            Some(glyph) => Some(*glyph),
            None => None,
        }
    }

    /// The number of glyphs drawn, over all cells and layers.
    pub fn len(&self) -> (count: usize)
        ensures
            count == self@.len(),
            self@.dom().finite(),
    {
        self.cells.len()
    }

    /// Every glyph with its key, in ascending key order.
    pub fn entries(&self) -> (list: Vec<((u32, u32), Glyph)>)
        ensures
            lists(list@, self@),
            list@.len() == self@.len(),
            self@.dom().finite(),
    {
        let mut list: Vec<((u32, u32), Glyph)> = Vec::new();
        for entry in it: self.cells.iter()
            invariant
                it.seq() == spec_btree_map_iter(&self.cells).remaining(),
                list@.len() == it.index(),
                forall|i: int|
                    0 <= i < list@.len() ==> #[trigger] list@[i] == (*it.seq()[i].0, *it.seq()[i].1),
        {
            let (key, glyph) = entry;
            list.push((*key, *glyph));
        }
        proof {
            let all = spec_btree_map_iter(&self.cells).remaining();
            assert forall|key: (u32, u32)| self@.contains_key(key) implies exists|i: int|
                0 <= i < list@.len() && #[trigger] list@[i].0 == key by {
                assert(all.contains((&key, &self.cells@[key])));
                let i = choose|i: int| 0 <= i < all.len() && all[i] == (&key, &self.cells@[key]);
                assert(list@[i].0 == key);
            }
            let keys = all.map_values(|kv: (&(u32, u32), &Glyph)| *kv.0);
            assert(increasing_seq(keys));
            assert forall|i: int, j: int| 0 <= i < j < list@.len() implies key_before(
                #[trigger] list@[i].0,
                #[trigger] list@[j].0,
            ) by {
                assert(keys[i] == list@[i].0);
                assert(keys[j] == list@[j].0);
                assert(keys[i].cmp_spec(&keys[j]) is Less);
            }
        }
        list
    }
}

/// A grid has one listing only: two listings of the same grid are equal.
pub proof fn lemma_listing_is_unique(
    a: Seq<((u32, u32), Glyph)>,
    b: Seq<((u32, u32), Glyph)>,
    grid: Map<(u32, u32), Glyph>,
)
    requires
        lists(a, grid),
        lists(b, grid),
    ensures
        a == b,
    decreases a.len(),
{
    if a.len() == 0 {
        if b.len() > 0 {
            assert(grid.contains_key(b[0].0));
        }
        assert(a =~= b);
    } else {
        let last = a.last();
        assert(grid.contains_key(a[a.len() - 1].0));
        let j = choose|j: int| 0 <= j < b.len() && #[trigger] b[j].0 == last.0;
        // The greatest key of `a` is also the greatest key of `b`.
        if j < b.len() - 1 {
            let greater = b[b.len() - 1];
            assert(key_before(b[j].0, b[b.len() - 1].0));
            assert(grid.contains_key(b[b.len() - 1].0));
            let i = choose|i: int| 0 <= i < a.len() && #[trigger] a[i].0 == greater.0;
            if i < a.len() - 1 {
                assert(key_before(a[i].0, a[a.len() - 1].0));
            }
        }
        assert(j == b.len() - 1);
        let rest = grid.remove(last.0);
        let a0 = a.drop_last();
        let b0 = b.drop_last();
        assert(lists(a0, rest)) by {
            assert forall|i: int| 0 <= i < a0.len() implies rest.contains_key(#[trigger] a0[i].0)
                && rest[a0[i].0] == a0[i].1 by {
                assert(a0[i] == a[i]);
                assert(key_before(a[i].0, a[a.len() - 1].0));
            }
            assert forall|key: (u32, u32)| rest.contains_key(key) implies exists|i: int|
                0 <= i < a0.len() && #[trigger] a0[i].0 == key by {
                let i = choose|i: int| 0 <= i < a.len() && #[trigger] a[i].0 == key;
                assert(a0[i] == a[i]);
            }
            assert forall|i: int, j: int| 0 <= i < j < a0.len() implies key_before(
                #[trigger] a0[i].0,
                #[trigger] a0[j].0,
            ) by {
                assert(a0[i] == a[i]);
                assert(a0[j] == a[j]);
            }
        }
        assert(lists(b0, rest)) by {
            assert forall|i: int| 0 <= i < b0.len() implies rest.contains_key(#[trigger] b0[i].0)
                && rest[b0[i].0] == b0[i].1 by {
                assert(b0[i] == b[i]);
                assert(key_before(b[i].0, b[b.len() - 1].0));
            }
            assert forall|key: (u32, u32)| rest.contains_key(key) implies exists|i: int|
                0 <= i < b0.len() && #[trigger] b0[i].0 == key by {
                let i = choose|i: int| 0 <= i < b.len() && #[trigger] b[i].0 == key;
                assert(b0[i] == b[i]);
            }
            assert forall|i: int, j: int| 0 <= i < j < b0.len() implies key_before(
                #[trigger] b0[i].0,
                #[trigger] b0[j].0,
            ) by {
                assert(b0[i] == b[i]);
                assert(b0[j] == b[j]);
            }
        }
        lemma_listing_is_unique(a0, b0, rest);
        assert(a[a.len() - 1].1 == grid[last.0]);
        assert(b[b.len() - 1].1 == grid[last.0]);
        assert(a.last() == b.last());
        assert(a =~= a0.push(a.last()));
        assert(b =~= b0.push(b.last()));
    }
}

} // verus!
