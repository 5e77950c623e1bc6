use console_backend::colors;
use console_backend::map::{
    create_h_tunnel, create_room, create_v_tunnel, is_not_blocked, make_map, move_by,
    place_objects, spawn_item, spawn_monster, Rect, Tile, TileMap, MAX_ROOM_ITEMS,
    MAX_ROOM_MONSTERS,
};
use console_backend::object::{Ai, DeathCallback, Fighter, Item, Object};
use console_backend::theme;

fn rock(width: usize, height: usize) -> TileMap {
    vec![vec![Tile::wall(); height]; width]
}

fn open_cells(map: &TileMap) -> Vec<(usize, usize)> {
    let mut cells = Vec::new();
    for x in 0..map.len() {
        for y in 0..map[x].len() {
            if !map[x][y].blocked {
                cells.push((x, y));
            }
        }
    }
    cells
}

#[test]
fn tiles_are_floor_or_rock() {
    assert_eq!(Tile::empty(), Tile { blocked: false, block_sight: false });
    assert_eq!(Tile::wall(), Tile { blocked: true, block_sight: true });
}

#[test]
fn rect_new_adds_width_and_height_to_the_corner() {
    assert_eq!(Rect::new(3, 4, 10, 6), Rect { x1: 3, y1: 4, x2: 13, y2: 10 });
    assert_eq!(Rect::new(-5, -5, 2, 3), Rect { x1: -5, y1: -5, x2: -3, y2: -2 });
}

#[test]
fn rect_center_rounds_towards_zero() {
    assert_eq!(Rect::new(3, 4, 10, 6).center(), (8, 7));
    assert_eq!(Rect::new(0, 0, 5, 5).center(), (2, 2));
    assert_eq!(Rect { x1: -4, y1: -3, x2: 1, y2: 0 }.center(), (-1, -1));
}

#[test]
fn rect_intersection_is_strict_only_for_the_upper_edge() {
    let room = Rect::new(0, 0, 5, 5);
    assert!(room.intersects_with(&Rect::new(3, 3, 5, 5)));
    assert!(room.intersects_with(&Rect::new(5, 0, 3, 3)));
    assert!(room.intersects_with(&Rect::new(0, 5, 3, 3)));
    assert!(!room.intersects_with(&Rect::new(0, -3, 3, 3)));
    assert!(room.intersects_with(&Rect::new(-3, 0, 3, 3)));
    assert!(!room.intersects_with(&Rect::new(6, 0, 3, 3)));
    assert!(!room.intersects_with(&Rect::new(0, 6, 3, 3)));
}

#[test]
fn create_room_digs_the_floor_and_leaves_the_walls() {
    let mut map = rock(8, 7);
    create_room(Rect::new(1, 2, 4, 3), &mut map);
    assert_eq!(open_cells(&map), vec![(2, 3), (2, 4), (3, 3), (3, 4), (4, 3), (4, 4)]);
    assert_eq!(map[2][3], Tile::empty());
    assert_eq!(map[1][2], Tile::wall());
}

#[test]
fn create_room_without_floor_digs_nothing() {
    let mut map = rock(4, 4);
    create_room(Rect::new(1, 1, 1, 1), &mut map);
    create_room(Rect::new(50, 50, 0, 0), &mut map);
    assert!(open_cells(&map).is_empty());
}

#[test]
fn tunnels_run_between_their_ends_in_either_direction() {
    let mut map = rock(6, 6);
    create_h_tunnel(4, 1, 2, &mut map);
    assert_eq!(open_cells(&map), vec![(1, 2), (2, 2), (3, 2), (4, 2)]);
    let mut map = rock(6, 6);
    create_h_tunnel(1, 4, 2, &mut map);
    assert_eq!(open_cells(&map), vec![(1, 2), (2, 2), (3, 2), (4, 2)]);
    let mut map = rock(6, 6);
    create_v_tunnel(5, 3, 0, &mut map);
    assert_eq!(open_cells(&map), vec![(0, 3), (0, 4), (0, 5)]);
    let mut map = rock(6, 6);
    create_v_tunnel(2, 2, 3, &mut map);
    assert_eq!(open_cells(&map), vec![(3, 2)]);
}

#[test]
fn is_not_blocked_checks_bounds_tile_and_objects() {
    let mut map = rock(4, 3);
    map[1][1] = Tile::empty();
    map[2][1] = Tile::empty();
    let objects = vec![
        Object::new((1, 1), 'o', colors::white(), "orc", true),
        Object::new((2, 1), '!', colors::white(), "potion", false),
    ];
    assert!(!is_not_blocked(&map, 1, 1, &objects));
    assert!(is_not_blocked(&map, 2, 1, &objects));
    assert!(!is_not_blocked(&map, 0, 0, &objects));
    assert!(!is_not_blocked(&map, -1, 1, &objects));
    assert!(!is_not_blocked(&map, 1, -1, &objects));
    assert!(!is_not_blocked(&map, 4, 1, &objects));
    assert!(!is_not_blocked(&map, 1, 3, &objects));
    assert!(is_not_blocked(&map, 1, 1, &[]));
    let nothing: TileMap = Vec::new();
    assert!(!is_not_blocked(&nothing, 0, 0, &objects));
}

#[test]
fn move_by_moves_only_onto_free_cells() {
    let mut map = rock(4, 3);
    map[1][1] = Tile::empty();
    map[2][1] = Tile::empty();
    map[3][1] = Tile::empty();
    let mut objects = vec![
        Object::new((1, 1), '@', colors::white(), "player", true),
        Object::new((3, 1), 'o', colors::white(), "orc", true),
    ];
    move_by(0, 1, 0, &map, &mut objects);
    assert_eq!(objects[0].position, (2, 1));
    move_by(0, 1, 0, &map, &mut objects);
    assert_eq!(objects[0].position, (2, 1));
    move_by(0, 0, 1, &map, &mut objects);
    assert_eq!(objects[0].position, (2, 1));
    move_by(0, -1, 0, &map, &mut objects);
    assert_eq!(objects[0].position, (1, 1));
    move_by(0, -5, 0, &map, &mut objects);
    assert_eq!(objects[0].position, (1, 1));
    assert_eq!(objects[1].position, (3, 1));
    assert_eq!(objects[0].name, "player");
}

#[test]
fn spawned_monsters_and_items_have_their_numbers() {
    let orc = spawn_monster((3, 4), true);
    assert_eq!(orc.position, (3, 4));
    assert_eq!(orc.glyph, 'o');
    assert_eq!(orc.name, "orc");
    assert_eq!(orc.color, theme::orc());
    assert!(orc.blocks && orc.alive);
    assert_eq!(
        orc.fighter,
        Some(Fighter { max_hp: 10, hp: 10, defense: 0, power: 3, on_death: DeathCallback::Monster })
    );
    assert_eq!(orc.ai, Some(Ai));
    assert_eq!(orc.item, None);
    let troll = spawn_monster((1, 1), false);
    assert_eq!(troll.glyph, 'T');
    assert_eq!(troll.name, "troll");
    assert_eq!(troll.color, theme::troll());
    assert_eq!(
        troll.fighter,
        Some(Fighter { max_hp: 16, hp: 16, defense: 1, power: 4, on_death: DeathCallback::Monster })
    );
    let potion = spawn_item((2, 2), true);
    assert_eq!(potion.glyph, '!');
    assert_eq!(potion.name, "healing potion");
    assert_eq!(potion.item, Some(Item::Heal));
    assert!(!potion.blocks);
    assert_eq!(potion.fighter, None);
    let scroll = spawn_item((2, 2), false);
    assert_eq!(scroll.glyph, '#');
    assert_eq!(scroll.name, "scroll of lightning");
    assert_eq!(scroll.item, Some(Item::Lightning));
    assert_eq!(scroll.color, theme::scroll_item());
}

#[test]
fn place_objects_appends_newcomers_on_the_floor_of_the_room() {
    for _ in 0..50 {
        let mut map = rock(12, 12);
        let room = Rect::new(2, 3, 6, 5);
        create_room(room, &mut map);
        let mut objects = vec![Object::new((0, 0), '@', colors::white(), "player", true)];
        place_objects(&map, room, &mut objects);
        assert_eq!(objects[0].name, "player");
        assert_eq!(objects[0].position, (0, 0));
        assert!(objects.len() <= 1 + (MAX_ROOM_MONSTERS + MAX_ROOM_ITEMS) as usize);
        for object in objects.iter().skip(1) {
            let (x, y) = object.position;
            assert!(room.x1 < x && x < room.x2 && room.y1 < y && y < room.y2);
            assert!(["orc", "troll", "healing potion", "scroll of lightning"]
                .contains(&object.name.as_str()));
        }
    }
}

#[test]
fn place_objects_in_the_smallest_room_uses_its_only_cell() {
    for _ in 0..20 {
        let mut map = rock(5, 5);
        let room = Rect::new(1, 1, 2, 2);
        create_room(room, &mut map);
        let mut objects = Vec::new();
        place_objects(&map, room, &mut objects);
        for object in objects.iter() {
            assert_eq!(object.position, (2, 2));
        }
        let monsters = objects.iter().filter(|o| o.fighter.is_some()).count();
        if monsters > 0 {
            assert_eq!(objects.len(), monsters);
        }
    }
}

#[test]
fn make_map_digs_a_level_and_stocks_open_tiles() {
    for _ in 0..20 {
        let mut objects = vec![Object::new((0, 0), '@', colors::white(), "player", true)];
        let (map, start) = make_map(40, 30, 8, 4, 10, &mut objects);
        assert_eq!(map.len(), 40);
        assert!(map.iter().all(|column| column.len() == 30));
        for column in map.iter() {
            for tile in column.iter() {
                assert!(*tile == Tile::wall() || *tile == Tile::empty());
            }
        }
        assert!(!map[start.0 as usize][start.1 as usize].blocked);
        assert_eq!(objects[0].name, "player");
        for object in objects.iter().skip(1) {
            let (x, y) = object.position;
            assert!(!map[x as usize][y as usize].blocked);
        }
        for x in 0..40 {
            assert!(map[x][0].blocked);
        }
        for y in 0..30 {
            assert!(map[0][y].blocked);
        }
    }
}

#[test]
fn make_map_without_rooms_is_solid_rock() {
    let mut objects = vec![Object::new((0, 0), '@', colors::white(), "player", true)];
    let (map, start) = make_map(20, 10, 6, 3, 0, &mut objects);
    assert_eq!(start, (0, 0));
    assert_eq!(objects.len(), 1);
    assert!(map.iter().all(|column| column.iter().all(|tile| *tile == Tile::wall())));
    let (map, start) = make_map(20, 10, 6, 3, -4, &mut objects);
    assert_eq!(start, (0, 0));
    assert_eq!(map.len(), 20);
}
