//! The dungeon: a grid of tiles, columns first, into which rooms and
//! tunnels are dug.

use vstd::prelude::*;
use crate::object::{Ai, DeathCallback, Fighter, Item, Object, ObjectView};
use crate::random::{chance, coin, range};
use crate::theme;

verus! {

#[derive(Clone, Copy, Debug, PartialEq, Eq, Structural)]
pub struct Tile {
    pub blocked: bool,
    pub block_sight: bool,
}

impl Tile {
    /// Open floor.
    pub open spec fn spec_empty() -> Tile {
        Tile { blocked: false, block_sight: false }
    }

    /// Solid rock.
    pub open spec fn spec_wall() -> Tile {
        Tile { blocked: true, block_sight: true }
    }

    /// Open floor.
    #[verifier::when_used_as_spec(spec_empty)]
    pub fn empty() -> (tile: Tile)
        ensures
            tile == Tile::spec_empty(),
    {
        Tile { blocked: false, block_sight: false }
    }

    /// Solid rock.
    #[verifier::when_used_as_spec(spec_wall)]
    pub fn wall() -> (tile: Tile)
        ensures
            tile == Tile::spec_wall(),
    {
        Tile { blocked: true, block_sight: true }
    }
}

/// The most items that are laid out in one room.
pub const MAX_ROOM_ITEMS: u32 = 2;

/// The most monsters that are put into one room.
pub const MAX_ROOM_MONSTERS: u32 = 3;

/// The tiles of a level: `map[x][y]` is the tile in column `x`, row `y`.
pub type TileMap = Vec<Vec<Tile>>;

/// A rectangle of cells, from the corner `(x1, y1)` to the corner
/// `(x2, y2)`. A room's walls run along its edge; its floor is what lies
/// strictly inside.
#[derive(Clone, Copy, Debug, PartialEq, Eq, Structural)]
pub struct Rect {
    pub x1: i32,
    pub y1: i32,
    pub x2: i32,
    pub y2: i32,
}

/// Half of `a`, rounded towards zero.
pub open spec fn half(a: int) -> int {
    if a >= 0 {
        a / 2
    } else {
        -((-a) / 2)
    }
}

impl Rect {
    /// The rectangle `w` wide and `h` high whose first corner is `(x, y)`.
    pub fn new(x: i32, y: i32, w: i32, h: i32) -> (rect: Rect)
        requires
            i32::MIN <= x + w <= i32::MAX,
            i32::MIN <= y + h <= i32::MAX,
        ensures
            rect == (Rect { x1: x, y1: y, x2: (x + w) as i32, y2: (y + h) as i32 }),
    {
        Rect { x1: x, y1: y, x2: x + w, y2: y + h }
    }

    pub open spec fn spec_center(&self) -> (i32, i32) {
        (half(self.x1 + self.x2) as i32, half(self.y1 + self.y2) as i32)
    }

    /// The cell in the middle of the rectangle.
    #[verifier::when_used_as_spec(spec_center)]
    pub fn center(&self) -> (middle: (i32, i32))
        requires
            i32::MIN <= self.x1 + self.x2 <= i32::MAX,
            i32::MIN <= self.y1 + self.y2 <= i32::MAX,
        ensures
            middle == self.spec_center(),
    {
        let center_x = (self.x1 + self.x2) / 2;
        let center_y = (self.y1 + self.y2) / 2;
        (center_x, center_y)
    }

    pub open spec fn spec_intersects_with(&self, other: &Rect) -> bool {
        (self.x1 <= other.x2) && (self.x2 >= other.x1) && (self.y1 < other.y2) && (self.y2
            >= other.y1)
    }

    /// Whether the two rectangles meet: neither lies wholly to one side of
    /// the other. Rectangles that only touch meet too, unless this one's
    /// lower edge is the other's upper edge.
    #[verifier::when_used_as_spec(spec_intersects_with)]
    pub fn intersects_with(&self, other: &Rect) -> (meet: bool)
        ensures
            meet == self.spec_intersects_with(other),
    {
        (self.x1 <= other.x2) && (self.x2 >= other.x1) && (self.y1 < other.y2) && (self.y2
            >= other.y1)
    }

    /// Whether the cell `(x, y)` lies strictly inside the rectangle.
    pub open spec fn holds(&self, x: int, y: int) -> bool {
        self.x1 < x < self.x2 && self.y1 < y < self.y2
    }
}

/// Whether the map has a tile in column `x`, row `y`.
pub open spec fn in_map(map: Seq<Vec<Tile>>, x: int, y: int) -> bool {
    0 <= x < map.len() && 0 <= y < map[x]@.len()
}

/// The second map is the first with open floor wherever `dug` says, and
/// as it was everywhere else.
pub open spec fn carved(
    before: Seq<Vec<Tile>>,
    after: Seq<Vec<Tile>>,
    dug: spec_fn(int, int) -> bool,
) -> bool {
    &&& after.len() == before.len()
    &&& forall|x: int| 0 <= x < before.len() ==> (#[trigger] after[x])@.len() == before[x]@.len()
    &&& forall|x: int, y: int|
        in_map(before, x, y) ==> (#[trigger] after[x]@[y]) == (if dug(x, y) {
            Tile::empty()
        } else {
            before[x]@[y]
        })
}

/// Digs out the floor of `room`.
pub fn create_room(room: Rect, map: &mut TileMap)
    requires
        room.x1 < i32::MAX,
        room.y1 < i32::MAX,
        forall|x: int, y: int| room.holds(x, y) ==> in_map(old(map)@, x, y),
    ensures
        carved(old(map)@, final(map)@, |x: int, y: int| room.holds(x, y)),
{
    let mut x = room.x1 + 1;
    while x < room.x2
        invariant
            room.x1 < x,
            room.y1 < i32::MAX,
            forall|x: int, y: int| room.holds(x, y) ==> in_map(old(map)@, x, y),
            carved(old(map)@, map@, |cx: int, cy: int| room.holds(cx, cy) && cx < x),
        decreases room.x2 - x,
    {
        let mut y = room.y1 + 1;
        while y < room.y2
            invariant
                room.x1 < x < room.x2,
                room.y1 < y,
                forall|x: int, y: int| room.holds(x, y) ==> in_map(old(map)@, x, y),
                carved(
                    old(map)@,
                    map@,
                    |cx: int, cy: int| room.holds(cx, cy) && (cx < x || (cx == x && cy < y)),
                ),
            decreases room.y2 - y,
        {
            assert(room.holds(x as int, y as int));
            let ghost before = map@;
            map[x as usize][y as usize] = Tile::empty();
            assert forall|cx: int, cy: int| in_map(old(map)@, cx, cy) implies (#[trigger] map@[cx]@[cy])
                == (if room.holds(cx, cy) && (cx < x || (cx == x && cy < y + 1)) {
                Tile::empty()
            } else {
                old(map)@[cx]@[cy]
            }) by {
                assert(before[cx]@[cy] == (if room.holds(cx, cy) && (cx < x || (cx == x && cy
                    < y)) {
                    Tile::empty()
                } else {
                    old(map)@[cx]@[cy]
                }));
            }
            y = y + 1;
        }
        assert forall|cx: int, cy: int| in_map(old(map)@, cx, cy) implies (#[trigger] map@[cx]@[cy])
            == (if room.holds(cx, cy) && cx < x + 1 {
            Tile::empty()
        } else {
            old(map)@[cx]@[cy]
        }) by {}
        x = x + 1;
    }
    assert forall|cx: int, cy: int| in_map(old(map)@, cx, cy) implies (#[trigger] map@[cx]@[cy]) == (
    if room.holds(cx, cy) {
        Tile::empty()
    } else {
        old(map)@[cx]@[cy]
    }) by {}
}

/// Digs a tunnel along row `y`, from column `x1` to column `x2`.
pub fn create_h_tunnel(x1: i32, x2: i32, y: i32, map: &mut TileMap)
    requires
        forall|x: int| x1 <= x <= x2 || x2 <= x <= x1 ==> in_map(old(map)@, x, y as int),
    ensures
        carved(
            old(map)@,
            final(map)@,
            |cx: int, cy: int| cy == y && (x1 <= cx <= x2 || x2 <= cx <= x1),
        ),
{
    let first = if x1 < x2 {
        x1
    } else {
        x2
    };
    let last = if x1 < x2 {
        x2
    } else {
        x1
    };
    let mut x = first;
    loop
        invariant_except_break
            first <= x <= last,
            carved(old(map)@, map@, |cx: int, cy: int| cy == y && first <= cx < x),
        invariant
            first == (if x1 < x2 {
                x1
            } else {
                x2
            }),
            last == (if x1 < x2 {
                x2
            } else {
                x1
            }),
            forall|x: int| x1 <= x <= x2 || x2 <= x <= x1 ==> in_map(old(map)@, x, y as int),
        ensures
            carved(old(map)@, map@, |cx: int, cy: int| cy == y && first <= cx <= last),
        decreases last - x,
    {
        assert(in_map(old(map)@, x as int, y as int));
        let ghost before = map@;
        map[x as usize][y as usize] = Tile::empty();
        assert forall|cx: int, cy: int| in_map(old(map)@, cx, cy) implies (#[trigger] map@[cx]@[cy])
            == (if cy == y && first <= cx <= x {
            Tile::empty()
        } else {
            old(map)@[cx]@[cy]
        }) by {
            assert(before[cx]@[cy] == (if cy == y && first <= cx < x {
                Tile::empty()
            } else {
                old(map)@[cx]@[cy]
            }));
        }
        if x == last {
            break ;
        }
        x = x + 1;
    }
    assert forall|cx: int, cy: int| in_map(old(map)@, cx, cy) implies (#[trigger] map@[cx]@[cy]) == (
    if cy == y && (x1 <= cx <= x2 || x2 <= cx <= x1) {
        Tile::empty()
    } else {
        old(map)@[cx]@[cy]
    }) by {}
}

/// Digs a tunnel along column `x`, from row `y1` to row `y2`.
pub fn create_v_tunnel(y1: i32, y2: i32, x: i32, map: &mut TileMap)
    requires
        forall|y: int| y1 <= y <= y2 || y2 <= y <= y1 ==> in_map(old(map)@, x as int, y),
    ensures
        carved(
            old(map)@,
            final(map)@,
            |cx: int, cy: int| cx == x && (y1 <= cy <= y2 || y2 <= cy <= y1),
        ),
{
    let first = if y1 < y2 {
        y1
    } else {
        y2
    };
    let last = if y1 < y2 {
        y2
    } else {
        y1
    };
    let mut y = first;
    loop
        invariant_except_break
            first <= y <= last,
            carved(old(map)@, map@, |cx: int, cy: int| cx == x && first <= cy < y),
        invariant
            first == (if y1 < y2 {
                y1
            } else {
                y2
            }),
            last == (if y1 < y2 {
                y2
            } else {
                y1
            }),
            forall|y: int| y1 <= y <= y2 || y2 <= y <= y1 ==> in_map(old(map)@, x as int, y),
        ensures
            carved(old(map)@, map@, |cx: int, cy: int| cx == x && first <= cy <= last),
        decreases last - y,
    {
        assert(in_map(old(map)@, x as int, y as int));
        let ghost before = map@;
        map[x as usize][y as usize] = Tile::empty();
        assert forall|cx: int, cy: int| in_map(old(map)@, cx, cy) implies (#[trigger] map@[cx]@[cy])
            == (if cx == x && first <= cy <= y {
            Tile::empty()
        } else {
            old(map)@[cx]@[cy]
        }) by {
            assert(before[cx]@[cy] == (if cx == x && first <= cy < y {
                Tile::empty()
            } else {
                old(map)@[cx]@[cy]
            }));
        }
        if y == last {
            break ;
        }
        y = y + 1;
    }
    assert forall|cx: int, cy: int| in_map(old(map)@, cx, cy) implies (#[trigger] map@[cx]@[cy]) == (
    if cx == x && (y1 <= cy <= y2 || y2 <= cy <= y1) {
        Tile::empty()
    } else {
        old(map)@[cx]@[cy]
    }) by {}
}

/// Whether one of `objects` stands on the cell `(x, y)` and blocks it.
pub open spec fn occupied(objects: Seq<Object>, x: int, y: int) -> bool {
    exists|i: int|
        0 <= i < objects.len() && (#[trigger] objects[i]).position == (x as i32, y as i32)
            && objects[i].blocks
}

/// Whether the cell `(x, y)` can be entered: it lies on the map, within
/// the height of the first column, its tile is open and no object blocks
/// it.
pub open spec fn free(map: Seq<Vec<Tile>>, x: int, y: int, objects: Seq<Object>) -> bool {
    &&& 0 <= x < map.len()
    &&& 0 <= y < map[0]@.len()
    &&& !map[x]@[y].blocked
    &&& !occupied(objects, x, y)
}

/// Whether the cell `(x, y)` can be entered.
#[allow(clippy::ptr_arg)]
pub fn is_not_blocked(map: &TileMap, x: i32, y: i32, objects: &[Object]) -> (open: bool)
    requires
        map@.len() <= i32::MAX,
        map@.len() > 0 ==> map@[0]@.len() <= i32::MAX,
        0 <= x < map@.len() && 0 <= y < map@[0]@.len() ==> y < map@[x as int]@.len(),
    ensures
        open == free(map@, x as int, y as int, objects@),
{
    if !(x >= 0 && x < map.len() as i32 && y >= 0 && y < map[0].len() as i32 && !map[x as usize][y as usize].blocked) {
        return false;
    }
    let mut checked: usize = 0;
    while checked < objects.len()
        invariant
            checked <= objects@.len(),
            forall|i: int|
                0 <= i < checked ==> !((#[trigger] objects@[i]).position == (x, y)
                    && objects@[i].blocks),
        decreases objects@.len() - checked,
    {
        if objects[checked].position.0 == x && objects[checked].position.1 == y
            && objects[checked].blocks {
            return false;
        }
        checked = checked + 1;
    }
    true
}

/// Moves the object `id` by `(dx, dy)`, if the cell it would come to can
/// be entered; otherwise the object stays.
#[allow(clippy::ptr_arg)]
pub fn move_by(id: usize, dx: i32, dy: i32, map: &TileMap, objects: &mut [Object])
    requires
        id < old(objects)@.len(),
        i32::MIN <= old(objects)@[id as int].position.0 + dx <= i32::MAX,
        i32::MIN <= old(objects)@[id as int].position.1 + dy <= i32::MAX,
        map@.len() <= i32::MAX,
        map@.len() > 0 ==> map@[0]@.len() <= i32::MAX,
        ({
            let x = old(objects)@[id as int].position.0 + dx;
            let y = old(objects)@[id as int].position.1 + dy;
            0 <= x < map@.len() && 0 <= y < map@[0]@.len() ==> y < map@[x]@.len()
        }),
    ensures
        final(objects)@.len() == old(objects)@.len(),
        forall|i: int| 0 <= i < old(objects)@.len() && i != id ==> final(objects)@[i] == old(objects)@[i],
        ({
            let object = old(objects)@[id as int];
            let x = object.position.0 + dx;
            let y = object.position.1 + dy;
            final(objects)@[id as int] == (if free(map@, x, y, old(objects)@) {
                Object { position: (x as i32, y as i32), ..object }
            } else {
                object
            })
        }),
{
    let (x, y) = objects[id].position;
    if is_not_blocked(map, x + dx, y + dy, objects) {
        objects[id].position = (x + dx, y + dy);
    }
}

/// An orc on the cell `position`.
pub open spec fn orc(position: (i32, i32)) -> ObjectView {
    ObjectView {
        position,
        glyph: 'o',
        color: theme::orc(),
        name: "orc"@,
        blocks: true,
        alive: true,
        fighter: Some(
            Fighter { max_hp: 10, hp: 10, defense: 0, power: 3, on_death: DeathCallback::Monster },
        ),
        ai: Some(Ai),
        item: None,
    }
}

/// A troll on the cell `position`.
pub open spec fn troll(position: (i32, i32)) -> ObjectView {
    ObjectView {
        position,
        glyph: 'T',
        color: theme::troll(),
        name: "troll"@,
        blocks: true,
        alive: true,
        fighter: Some(
            Fighter { max_hp: 16, hp: 16, defense: 1, power: 4, on_death: DeathCallback::Monster },
        ),
        ai: Some(Ai),
        item: None,
    }
}

/// A healing potion on the cell `position`.
pub open spec fn healing_potion(position: (i32, i32)) -> ObjectView {
    ObjectView {
        position,
        glyph: '!',
        color: theme::healing_item(),
        name: "healing potion"@,
        blocks: false,
        alive: true,
        fighter: None,
        ai: None,
        item: Some(Item::Heal),
    }
}

/// A scroll of lightning on the cell `position`.
pub open spec fn lightning_scroll(position: (i32, i32)) -> ObjectView {
    ObjectView {
        position,
        glyph: '#',
        color: theme::scroll_item(),
        name: "scroll of lightning"@,
        blocks: false,
        alive: true,
        fighter: None,
        ai: None,
        item: Some(Item::Lightning),
    }
}

/// A monster for the cell `position`: an orc, or else a troll.
pub fn spawn_monster(position: (i32, i32), is_orc: bool) -> (monster: Object)
    ensures
        monster@ == (if is_orc {
            orc(position)
        } else {
            troll(position)
        }),
{
    if is_orc {
        let mut obj = Object::new(position, 'o', theme::orc(), "orc", true);
        obj.fighter = Some(
            Fighter { max_hp: 10, hp: 10, defense: 0, power: 3, on_death: DeathCallback::Monster },
        );
        obj.ai = Some(Ai);
        obj
    } else {
        let mut obj = Object::new(position, 'T', theme::troll(), "troll", true);
        obj.fighter = Some(
            Fighter { max_hp: 16, hp: 16, defense: 1, power: 4, on_death: DeathCallback::Monster },
        );
        obj.ai = Some(Ai);
        obj
    }
}

/// An item for the cell `position`: a healing potion, or else a scroll of
/// lightning.
pub fn spawn_item(position: (i32, i32), is_potion: bool) -> (item: Object)
    ensures
        item@ == (if is_potion {
            healing_potion(position)
        } else {
            lightning_scroll(position)
        }),
{
    if is_potion {
        let mut object = Object::new(position, '!', theme::healing_item(), "healing potion", false);
        object.item = Some(Item::Heal);
        object
    } else {
        let mut object = Object::new(
            position,
            '#',
            theme::scroll_item(),
            "scroll of lightning",
            false,
        );
        object.item = Some(Item::Lightning);
        object
    }
}

/// Whether the map has an open tile in column `x`, row `y`.
pub open spec fn open_at(map: Seq<Vec<Tile>>, x: int, y: int) -> bool {
    in_map(map, x, y) && !map[x]@[y].blocked
}

/// What `place_objects` may add for `room`: a monster on a cell of the
/// room's floor, or an item on such a cell whose tile is open.
pub open spec fn newcomer(object: ObjectView, room: Rect, map: Seq<Vec<Tile>>) -> bool {
    let place = object.position;
    &&& room.holds(place.0 as int, place.1 as int)
    &&& {
        ||| object == orc(place)
        ||| object == troll(place)
        ||| (object == healing_potion(place) || object == lightning_scroll(place)) && open_at(
            map,
            place.0 as int,
            place.1 as int,
        )
    }
}

/// `after` is `before` with objects appended to it.
pub open spec fn appended(before: Seq<Object>, after: Seq<Object>) -> bool {
    before.len() <= after.len() && after.take(before.len() as int) == before
}

/// `after` is `before` with objects appended to it that `place_objects`
/// may add for `room`.
pub open spec fn settled(
    before: Seq<Object>,
    after: Seq<Object>,
    room: Rect,
    map: Seq<Vec<Tile>>,
) -> bool {
    &&& appended(before, after)
    &&& forall|i: int|
        before.len() <= i < after.len() ==> newcomer((#[trigger] after[i])@, room, map)
}

/// Puts up to three monsters on the floor of `room`, four orcs for each
/// troll, and lays out up to two items on cells of it that can be entered,
/// seven potions for every three scrolls. How many, which and where is
/// drawn at random.
pub fn place_objects(map: &TileMap, room: Rect, objects: &mut Vec<Object>)
    requires
        room.x1 + 1 < room.x2,
        room.y1 + 1 < room.y2,
        map@.len() <= i32::MAX,
        map@.len() > 0 ==> map@[0]@.len() <= i32::MAX,
        forall|x: int| 0 <= x < map@.len() ==> map@[0]@.len() <= (#[trigger] map@[x])@.len(),
    ensures
        settled(old(objects)@, final(objects)@, room, map@),
        final(objects)@.len() <= old(objects)@.len() + MAX_ROOM_MONSTERS + MAX_ROOM_ITEMS,
{
    let num_monsters = range(0, MAX_ROOM_MONSTERS as i64 + 1);
    let mut placed: i64 = 0;
    assert(objects@.take(objects@.len() as int) =~= objects@);
    while placed < num_monsters
        invariant
            room.x1 + 1 < room.x2,
            room.y1 + 1 < room.y2,
            0 <= placed <= num_monsters <= MAX_ROOM_MONSTERS,
            settled(old(objects)@, objects@, room, map@),
            objects@.len() == old(objects)@.len() + placed,
        decreases num_monsters - placed,
    {
        let x = range(room.x1 as i64 + 1, room.x2 as i64) as i32;
        let y = range(room.y1 as i64 + 1, room.y2 as i64) as i32;
        let monster = spawn_monster((x, y), chance(4, 5));
        let ghost before = objects@;
        objects.push(monster);
        assert(objects@.take(old(objects)@.len() as int) =~= before.take(old(objects)@.len() as int));
        placed = placed + 1;
    }
    let num_items = range(0, MAX_ROOM_ITEMS as i64 + 1);
    let ghost monsters = objects@.len();
    let mut tried: i64 = 0;
    while tried < num_items
        invariant
            room.x1 + 1 < room.x2,
            room.y1 + 1 < room.y2,
            map@.len() <= i32::MAX,
            map@.len() > 0 ==> map@[0]@.len() <= i32::MAX,
            forall|x: int| 0 <= x < map@.len() ==> map@[0]@.len() <= (#[trigger] map@[x])@.len(),
            0 <= tried <= num_items <= MAX_ROOM_ITEMS,
            settled(old(objects)@, objects@, room, map@),
            monsters <= old(objects)@.len() + MAX_ROOM_MONSTERS,
            objects@.len() <= monsters + tried,
        decreases num_items - tried,
    {
        let x = range(room.x1 as i64 + 1, room.x2 as i64) as i32;
        let y = range(room.y1 as i64 + 1, room.y2 as i64) as i32;
        if is_not_blocked(map, x, y, objects.as_slice()) {
            let item = spawn_item((x, y), chance(7, 10));
            let ghost before = objects@;
            objects.push(item);
            assert(objects@.take(old(objects)@.len() as int) =~= before.take(
                old(objects)@.len() as int,
            ));
        }
        tried = tried + 1;
    }
}

/// The map has `width` columns of `height` tiles, each of them solid rock
/// or open floor.
pub open spec fn shaped(map: Seq<Vec<Tile>>, width: int, height: int) -> bool {
    &&& map.len() == width
    &&& forall|x: int| 0 <= x < width ==> (#[trigger] map[x])@.len() == height
    &&& forall|x: int, y: int|
        0 <= x < width && 0 <= y < height ==> (#[trigger] map[x]@[y]) == Tile::wall() || map[x]@[y]
            == Tile::empty()
}

/// One of the monsters and items that a level is stocked with, on a cell
/// whose tile is open.
pub open spec fn inhabitant(object: ObjectView, map: Seq<Vec<Tile>>) -> bool {
    let place = object.position;
    &&& open_at(map, place.0 as int, place.1 as int)
    &&& {
        ||| object == orc(place)
        ||| object == troll(place)
        ||| object == healing_potion(place)
        ||| object == lightning_scroll(place)
    }
}

/// `after` is `before` with inhabitants of `map` appended to it.
pub open spec fn stocked(before: Seq<Object>, after: Seq<Object>, map: Seq<Vec<Tile>>) -> bool {
    &&& appended(before, after)
    &&& forall|i: int| before.len() <= i < after.len() ==> inhabitant((#[trigger] after[i])@, map)
}

/// The room lies on a map of `width` columns and `height` rows, and has a
/// floor.
pub open spec fn room_on_map(room: Rect, width: int, height: int) -> bool {
    &&& 0 <= room.x1
    &&& room.x1 + 2 <= room.x2 < width
    &&& 0 <= room.y1
    &&& room.y1 + 2 <= room.y2 < height
}

/// Digging keeps the shape of a map, and keeps open what was open.
proof fn lemma_carving(
    before: Seq<Vec<Tile>>,
    after: Seq<Vec<Tile>>,
    dug: spec_fn(int, int) -> bool,
    width: int,
    height: int,
)
    requires
        carved(before, after, dug),
        shaped(before, width, height),
    ensures
        shaped(after, width, height),
        forall|x: int, y: int| open_at(before, x, y) ==> #[trigger] open_at(after, x, y),
        forall|x: int, y: int| in_map(before, x, y) && dug(x, y) ==> #[trigger] open_at(after, x, y),
{
    assert forall|x: int, y: int| 0 <= x < width && 0 <= y < height implies (#[trigger] after[x]@[y])
        == Tile::wall() || after[x]@[y] == Tile::empty() by {
        assert(in_map(before, x, y));
        assert(before[x]@[y] == Tile::wall() || before[x]@[y] == Tile::empty());
    }
    assert forall|x: int, y: int| open_at(before, x, y) implies #[trigger] open_at(after, x, y) by {
        assert(after[x]@[y] == Tile::empty() || after[x]@[y] == before[x]@[y]);
    }
    assert forall|x: int, y: int| in_map(before, x, y) && dug(x, y) implies #[trigger] open_at(
        after,
        x,
        y,
    ) by {
        assert(after[x]@[y] == Tile::empty());
    }
}

/// The middle of a room that lies on the map is a cell of its floor.
proof fn lemma_center_on_floor(room: Rect, width: int, height: int)
    requires
        room_on_map(room, width, height),
        width <= 0x4000_0000,
        height <= 0x4000_0000,
    ensures
        room.holds(room.center().0 as int, room.center().1 as int),
{
}

/// A level of solid rock.
fn solid_rock(width: usize, height: usize) -> (map: TileMap)
    ensures
        shaped(map@, width as int, height as int),
        forall|x: int, y: int| in_map(map@, x, y) ==> (#[trigger] map@[x]@[y]) == Tile::wall(),
{
    let mut map: TileMap = Vec::new();
    for x in 0..width
        invariant
            map@.len() == x,
            forall|cx: int| 0 <= cx < x ==> (#[trigger] map@[cx])@.len() == height,
            forall|cx: int, cy: int|
                0 <= cx < x && 0 <= cy < height ==> (#[trigger] map@[cx]@[cy]) == Tile::wall(),
    {
        let mut column: Vec<Tile> = Vec::new();
        for y in 0..height
            invariant
                column@.len() == y,
                forall|cy: int| 0 <= cy < y ==> (#[trigger] column@[cy]) == Tile::wall(),
        {
            column.push(Tile::wall());
        }
        map.push(column);
    }
    map
}

/// Whether `room` meets one of `rooms`.
fn meets_any(room: &Rect, rooms: &Vec<Rect>) -> (met: bool)
    ensures
        met == exists|i: int| 0 <= i < rooms@.len() && room.intersects_with(&#[trigger] rooms@[i]),
{
    let mut checked: usize = 0;
    while checked < rooms.len()
        invariant
            checked <= rooms@.len(),
            forall|i: int| 0 <= i < checked ==> !room.intersects_with(&#[trigger] rooms@[i]),
        decreases rooms@.len() - checked,
    {
        if room.intersects_with(&rooms[checked]) {
            return true;
        }
        checked = checked + 1;
    }
    false
}

/// What `make_map` hands back: a map of the asked size, stocked with
/// monsters and items on open tiles, and a starting cell. If a room was
/// asked for, the starting cell is open; if none was, the map is solid
/// rock, nothing was added and the starting cell is `(0, 0)`.
pub open spec fn generated(
    before: Seq<Object>,
    after: Seq<Object>,
    map: Seq<Vec<Tile>>,
    start: (i32, i32),
    width: int,
    height: int,
    max_rooms: int,
) -> bool {
    &&& shaped(map, width, height)
    &&& stocked(before, after, map)
    &&& if max_rooms > 0 {
        open_at(map, start.0 as int, start.1 as int)
    } else {
        &&& start == (0i32, 0i32)
        &&& after == before
        &&& forall|x: int, y: int| in_map(map, x, y) ==> (#[trigger] map[x]@[y]) == Tile::wall()
    }
}

/// Digs a level out of solid rock: up to `max_rooms` rooms of random size
/// and place. A room that meets an earlier one is dropped; every other
/// room is dug, stocked, and joined to the room before it by a tunnel with
/// one bend. The player starts in the middle of the first room.
pub fn make_map(
    width: usize,
    height: usize,
    room_max_size: i32,
    room_min_size: i32,
    max_rooms: i32,
    objects: &mut Vec<Object>,
) -> (made: (TileMap, (i32, i32)))
    requires
        2 <= room_min_size <= room_max_size,
        room_max_size < width <= 0x4000_0000,
        room_max_size < height <= 0x4000_0000,
    ensures
        generated(
            old(objects)@,
            final(objects)@,
            made.0@,
            made.1,
            width as int,
            height as int,
            max_rooms as int,
        ),
{
    let mut map = solid_rock(width, height);
    let mut rooms: Vec<Rect> = Vec::new();
    let mut starting_position: (i32, i32) = (0, 0);
    let mut tried: i32 = 0;
    assert(objects@.take(objects@.len() as int) =~= objects@);
    while tried < max_rooms
        invariant
            2 <= room_min_size <= room_max_size,
            room_max_size < width <= 0x4000_0000,
            room_max_size < height <= 0x4000_0000,
            0 <= tried,
            tried == 0 || tried <= max_rooms,
            shaped(map@, width as int, height as int),
            stocked(old(objects)@, objects@, map@),
            forall|i: int|
                0 <= i < rooms@.len() ==> room_on_map(
                    #[trigger] rooms@[i],
                    width as int,
                    height as int,
                ),
            tried > 0 <==> rooms@.len() > 0,
            rooms@.len() > 0 ==> open_at(
                map@,
                starting_position.0 as int,
                starting_position.1 as int,
            ),
            rooms@.len() == 0 ==> {
                &&& starting_position == (0i32, 0i32)
                &&& objects@ == old(objects)@
                &&& forall|x: int, y: int|
                    in_map(map@, x, y) ==> (#[trigger] map@[x]@[y]) == Tile::wall()
            },
        decreases max_rooms - tried,
    {
        let w = range(room_min_size as i64, room_max_size as i64 + 1) as i32;
        let h = range(room_min_size as i64, room_max_size as i64 + 1) as i32;
        let x = range(0, (width - w as usize) as i64) as usize;
        let y = range(0, (height - h as usize) as i64) as usize;
        let new_room = Rect::new(x as i32, y as i32, w, h);
        assert(room_on_map(new_room, width as int, height as int));
        let failed = meets_any(&new_room, &rooms);
        if !failed {
            let ghost rock = map@;
            create_room(new_room, &mut map);
            proof {
                lemma_carving(
                    rock,
                    map@,
                    |x: int, y: int| new_room.holds(x, y),
                    width as int,
                    height as int,
                );
                assert forall|i: int| old(objects)@.len() <= i < objects@.len() implies inhabitant(
                    (#[trigger] objects@[i])@,
                    map@,
                ) by {
                    assert(inhabitant(objects@[i]@, rock));
                }
                assert forall|x: int, y: int| new_room.holds(x, y) implies #[trigger] open_at(
                    map@,
                    x,
                    y,
                ) by {
                    assert(in_map(rock, x, y));
                }
            }
            let ghost crowd = objects@;
            place_objects(&map, new_room, objects);
            proof {
                assert(objects@.take(old(objects)@.len() as int) =~= crowd.take(
                    old(objects)@.len() as int,
                ));
                assert forall|i: int| old(objects)@.len() <= i < objects@.len() implies inhabitant(
                    (#[trigger] objects@[i])@,
                    map@,
                ) by {
                    if i < crowd.len() {
                        assert(objects@.take(crowd.len() as int)[i] == objects@[i]);
                    } else {
                        let place = objects@[i]@.position;
                        assert(newcomer(objects@[i]@, new_room, map@));
                        assert(open_at(map@, place.0 as int, place.1 as int));
                    }
                }
                lemma_center_on_floor(new_room, width as int, height as int);
            }
            let (new_x, new_y) = new_room.center();
            if rooms.is_empty() {
                starting_position = (new_x, new_y);
            } else {
                let previous = rooms[rooms.len() - 1];
                proof {
                    lemma_center_on_floor(previous, width as int, height as int);
                }
                let (prev_x, prev_y) = previous.center();
                let ghost dug = map@;
                if coin() {
                    create_h_tunnel(prev_x, new_x, prev_y, &mut map);
                    let ghost half_way = map@;
                    proof {
                        lemma_carving(
                            dug,
                            half_way,
                            |cx: int, cy: int|
                                cy == prev_y && (prev_x <= cx <= new_x || new_x <= cx <= prev_x),
                            width as int,
                            height as int,
                        );
                    }
                    create_v_tunnel(prev_y, new_y, new_x, &mut map);
                    proof {
                        lemma_carving(
                            half_way,
                            map@,
                            |cx: int, cy: int|
                                cx == new_x && (prev_y <= cy <= new_y || new_y <= cy <= prev_y),
                            width as int,
                            height as int,
                        );
                    }
                } else {
                    create_v_tunnel(prev_y, new_y, prev_x, &mut map);
                    let ghost half_way = map@;
                    proof {
                        lemma_carving(
                            dug,
                            half_way,
                            |cx: int, cy: int|
                                cx == prev_x && (prev_y <= cy <= new_y || new_y <= cy <= prev_y),
                            width as int,
                            height as int,
                        );
                    }
                    create_h_tunnel(prev_x, new_x, new_y, &mut map);
                    proof {
                        lemma_carving(
                            half_way,
                            map@,
                            |cx: int, cy: int|
                                cy == new_y && (prev_x <= cx <= new_x || new_x <= cx <= prev_x),
                            width as int,
                            height as int,
                        );
                    }
                }
                proof {
                    assert forall|i: int| old(objects)@.len() <= i < objects@.len() implies inhabitant(
                        (#[trigger] objects@[i])@,
                        map@,
                    ) by {
                        let place = objects@[i]@.position;
                        assert(open_at(dug, place.0 as int, place.1 as int));
                    }
                    assert(open_at(dug, starting_position.0 as int, starting_position.1 as int));
                }
            }
            rooms.push(new_room);
        }
        tried = tried + 1;
    }
    (map, starting_position)
}

} // verus!
