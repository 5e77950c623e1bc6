//! The cells that the player can see.

use vstd::prelude::*;
use std::collections::BTreeSet;
use crate::map::{in_map, Tile, TileMap};

verus! {

/// A set of cells, by column and row.
pub struct Visibility {
    cells: BTreeSet<(i32, i32)>,
}

impl View for Visibility {
    type V = Set<(i32, i32)>;

    closed spec fn view(&self) -> Set<(i32, i32)> {
        self.cells@
    }
}

impl Visibility {
    /// The empty set: nothing is seen.
    pub fn new() -> (seen: Visibility)
        ensures
            seen@ == Set::<(i32, i32)>::empty(),
    {
        Visibility { cells: BTreeSet::new() }
    }

    /// Adds a cell to the set.
    pub fn insert(&mut self, cell: (i32, i32))
        ensures
            final(self)@ == old(self)@.insert(cell),
    {
        self.cells.insert(cell);
    }

    /// Whether the cell is in the set.
    pub fn contains(&self, cell: (i32, i32)) -> (seen: bool)
        ensures
            seen == self@.contains(cell),
    {
        self.cells.contains(&cell)
    }
}

/// Whether sight reaches the `i`-th cell of a ray: no cell before it
/// blocks sight.
pub open spec fn reached(ray: Seq<(i32, i32)>, map: Seq<Vec<Tile>>, i: int) -> bool {
    forall|j: int| 0 <= j < i ==> !map[(#[trigger] ray[j]).0 as int]@[ray[j].1 as int].block_sight
}

/// A ray can be followed over the map: every cell that sight reaches is a
/// cell of the map.
pub open spec fn ray_on_map(ray: Seq<(i32, i32)>, map: Seq<Vec<Tile>>) -> bool {
    forall|i: int|
        0 <= i < ray.len() && reached(ray, map, i) ==> in_map(
            map,
            (#[trigger] ray[i]).0 as int,
            ray[i].1 as int,
        )
}

/// The cells of a ray that are seen: those that sight reaches, the first
/// cell that blocks sight among them.
pub open spec fn seen_along(ray: Seq<(i32, i32)>, map: Seq<Vec<Tile>>) -> Set<(i32, i32)> {
    Set::new(|cell: (i32, i32)| exists|i: int| 0 <= i < ray.len() && reached(ray, map, i) && #[trigger] ray[i] == cell)
}

/// Whether a ray can be followed over the map.
pub fn ray_stays_on_map(ray: &Vec<(i32, i32)>, map: &TileMap) -> (ok: bool)
    ensures
        ok == ray_on_map(ray@, map@),
{
    let mut i: usize = 0;
    while i < ray.len()
        invariant
            i <= ray@.len(),
            reached(ray@, map@, i as int),
            forall|k: int|
                0 <= k < i ==> in_map(map@, (#[trigger] ray@[k]).0 as int, ray@[k].1 as int),
        decreases ray@.len() - i,
    {
        let cell = ray[i];
        if cell.0 < 0 || cell.1 < 0 {
            assert(!in_map(map@, ray@[i as int].0 as int, ray@[i as int].1 as int));
            return false;
        }
        let x = cell.0 as usize;
        let y = cell.1 as usize;
        if x >= map.len() || y >= map[x].len() {
            assert(!in_map(map@, ray@[i as int].0 as int, ray@[i as int].1 as int));
            return false;
        }
        if map[x][y].block_sight {
            assert forall|k: int| 0 <= k < ray@.len() && reached(ray@, map@, k) implies in_map(
                map@,
                (#[trigger] ray@[k]).0 as int,
                ray@[k].1 as int,
            ) by {
                if k > i {
                    assert(map@[ray@[i as int].0 as int]@[ray@[i as int].1 as int].block_sight);
                }
            }
            return true;
        }
        i = i + 1;
    }
    true
}

/// Follows one ray from the eye outwards, cell by cell, and adds what is
/// seen to `set`: every cell up to the first that blocks sight, and that
/// cell too.
pub fn calculate_fov_for_direction(ray: &Vec<(i32, i32)>, map: &TileMap, set: &mut Visibility)
    requires
        ray_on_map(ray@, map@),
    ensures
        final(set)@ == old(set)@.union(seen_along(ray@, map@)),
{
    let mut i: usize = 0;
    let mut blocked = false;
    let ghost start = set@;
    assert(set@ =~= start.union(
        Set::new(
            |cell: (i32, i32)|
                exists|k: int| 0 <= k < 0 && reached(ray@, map@, k) && #[trigger] ray@[k] == cell,
        ),
    ));
    while i < ray.len() && !blocked
        invariant
            ray_on_map(ray@, map@),
            start == old(set)@,
            i <= ray@.len(),
            !blocked ==> reached(ray@, map@, i as int),
            blocked ==> i > 0 && map@[ray@[i - 1].0 as int]@[ray@[i - 1].1 as int].block_sight,
            set@ == start.union(
                Set::new(
                    |cell: (i32, i32)|
                        exists|k: int|
                            0 <= k < i && reached(ray@, map@, k) && #[trigger] ray@[k] == cell,
                ),
            ),
        decreases ray@.len() - i,
    {
        let cell = ray[i];
        set.insert(cell);
        assert(set@ =~= start.union(
            Set::new(
                |c: (i32, i32)|
                    exists|k: int| 0 <= k < i + 1 && reached(ray@, map@, k) && #[trigger] ray@[k] == c,
            ),
        )) by {
            assert(reached(ray@, map@, i as int) && ray@[i as int] == cell);
        }
        if map[cell.0 as usize][cell.1 as usize].block_sight {
            blocked = true;
        }
        i = i + 1;
    }
    proof {
        if blocked {
            assert forall|k: int| i <= k < ray@.len() implies !reached(ray@, map@, k) by {
                assert(map@[ray@[i - 1].0 as int]@[ray@[i - 1].1 as int].block_sight);
            }
        }
        assert(set@ =~= start.union(seen_along(ray@, map@)));
    }
}

/// What is seen along any of the rays.
pub open spec fn seen_from(rays: Seq<Vec<(i32, i32)>>, map: Seq<Vec<Tile>>) -> Set<(i32, i32)> {
    Set::new(
        |cell: (i32, i32)|
            exists|r: int| 0 <= r < rays.len() && seen_along((#[trigger] rays[r])@, map).contains(cell),
    )
}

/// The cells that are seen from the eye at which all of `rays` start.
pub fn calculate_fov(rays: &Vec<Vec<(i32, i32)>>, map: &TileMap) -> (set: Visibility)
    requires
        forall|r: int| 0 <= r < rays@.len() ==> ray_on_map((#[trigger] rays@[r])@, map@),
    ensures
        set@ == seen_from(rays@, map@),
{
    let mut set = Visibility::new();
    let mut r: usize = 0;
    while r < rays.len()
        invariant
            r <= rays@.len(),
            forall|r: int| 0 <= r < rays@.len() ==> ray_on_map((#[trigger] rays@[r])@, map@),
            set@ == Set::new(
                |cell: (i32, i32)|
                    exists|k: int| 0 <= k < r && seen_along((#[trigger] rays@[k])@, map@).contains(cell),
            ),
        decreases rays@.len() - r,
    {
        calculate_fov_for_direction(&rays[r], map, &mut set);
        assert(set@ =~= Set::new(
            |cell: (i32, i32)|
                exists|k: int| 0 <= k < r + 1 && seen_along((#[trigger] rays@[k])@, map@).contains(cell),
        ));
        r = r + 1;
    }
    assert(set@ =~= seen_from(rays@, map@));
    set
}

} // verus!
