use console_backend::colors;
use console_backend::console::Console;
use console_backend::fov::Visibility;
use console_backend::font::{repertoire, BoundingBox, FontInfo};
use console_backend::game::{
    inventory_header, GameImpl, InputEvent, Key, PlayerAction, UseResult, INVENTORY_SIZE,
    MAP_HEIGHT, MAP_WIDTH,
};
use console_backend::glyph::Glyph;
use console_backend::map::{spawn_item, spawn_monster, Tile};
use console_backend::object::{DeathCallback, Fighter, Item, Object};
use console_backend::theme;

fn full_font() -> FontInfo {
    let mut font = FontInfo::new((4000, 100));
    let mut x = 0;
    for c in repertoire().chars() {
        font.insert(c, BoundingBox::new(x, x + 30, 0, 100));
        x += 30;
    }
    font.insert(' ', BoundingBox::new(x, x + 1, 0, 1));
    font
}

fn console(cols: u32, rows: u32) -> Console {
    Console::new((cols, rows), colors::black(), 1, full_font())
}

fn new_game() -> GameImpl {
    GameImpl::new(console(100, 50), console(15, 8), console(120, 10), console(10, 1))
}

/// A game on an open field of five by five cells inside the rock, with
/// the player at (10, 10) and nothing else.
fn arena() -> GameImpl {
    let mut game = new_game();
    for column in game.map.iter_mut() {
        for tile in column.iter_mut() {
            *tile = Tile::wall();
        }
    }
    for x in 8..13 {
        for y in 8..13 {
            game.map[x][y] = Tile::empty();
        }
    }
    game.objects.truncate(1);
    game.objects[0].position = (10, 10);
    game
}

fn press(game: &mut GameImpl, c: char) -> PlayerAction {
    game.process_input(InputEvent::KeyPressed(Key::Character(c)))
}

fn last_message(game: &GameImpl) -> String {
    game.message_log.message(game.message_log.len() - 1).0
}

#[test]
fn new_game_has_a_level_a_player_and_a_first_message() {
    for _ in 0..10 {
        let game = new_game();
        assert_eq!(game.map.len(), MAP_WIDTH);
        assert!(game.map.iter().all(|column| column.len() == MAP_HEIGHT));
        assert!(game.has_moved);
        assert!(game.inventory.is_empty());
        assert!(game.active_menu.is_none());
        let player = &game.objects[0];
        assert_eq!(player.name, "player");
        assert_eq!(player.glyph, '@');
        assert_eq!(player.color, theme::player());
        assert_eq!(
            player.fighter,
            Some(Fighter { max_hp: 30, hp: 30, defense: 2, power: 5, on_death: DeathCallback::Player })
        );
        let (x, y) = player.position;
        assert!(!game.map[x as usize][y as usize].blocked);
        for object in game.objects.iter().skip(1) {
            let (x, y) = object.position;
            assert!(!game.map[x as usize][y as usize].blocked);
        }
        assert_eq!(game.message_log.len(), 1);
        assert_eq!(
            game.message_log.message(0),
            ("Oh man this is spooky.".to_string(), theme::red_alert_text())
        );
    }
}

#[test]
fn movement_keys_step_and_take_a_turn() {
    let mut game = arena();
    game.has_moved = false;
    assert_eq!(press(&mut game, 'W'), PlayerAction::TookTurn);
    assert_eq!(game.objects[0].position, (10, 11));
    assert!(game.has_moved);
    assert_eq!(press(&mut game, 'D'), PlayerAction::TookTurn);
    assert_eq!(game.objects[0].position, (11, 11));
    assert_eq!(press(&mut game, 'S'), PlayerAction::TookTurn);
    assert_eq!(game.objects[0].position, (11, 10));
    assert_eq!(press(&mut game, 'A'), PlayerAction::TookTurn);
    assert_eq!(game.objects[0].position, (10, 10));
}

#[test]
fn walls_stop_the_player_but_the_turn_is_taken() {
    let mut game = arena();
    game.objects[0].position = (12, 12);
    assert_eq!(press(&mut game, 'W'), PlayerAction::TookTurn);
    assert_eq!(press(&mut game, 'D'), PlayerAction::TookTurn);
    assert_eq!(game.objects[0].position, (12, 12));
}

#[test]
fn other_keys_and_events_do_not_take_a_turn() {
    let mut game = arena();
    game.has_moved = false;
    assert_eq!(press(&mut game, 'X'), PlayerAction::DidNotTakeTurn);
    assert!(game.has_moved);
    game.has_moved = false;
    assert_eq!(press(&mut game, 'w'), PlayerAction::DidNotTakeTurn);
    assert_eq!(
        game.process_input(InputEvent::KeyPressed(Key::Other)),
        PlayerAction::DidNotTakeTurn
    );
    game.has_moved = false;
    assert_eq!(
        game.process_input(InputEvent::KeyReleased(Key::Character('W'))),
        PlayerAction::DidNotTakeTurn
    );
    assert_eq!(game.process_input(InputEvent::MouseMoved), PlayerAction::DidNotTakeTurn);
    assert!(!game.has_moved);
    assert_eq!(game.objects[0].position, (10, 10));
}

#[test]
fn stepping_into_a_monster_strikes_it() {
    let mut game = arena();
    game.objects.push(spawn_monster((11, 10), true));
    assert_eq!(press(&mut game, 'D'), PlayerAction::TookTurn);
    assert_eq!(game.objects[0].position, (10, 10));
    assert_eq!(game.objects[1].fighter.unwrap().hp, 5);
    assert_eq!(last_message(&game), "player attacks orc for 5 hit points.");
    press(&mut game, 'D');
    assert_eq!(game.objects[1].name, "remains of orc");
    assert_eq!(game.objects[1].fighter, None);
    assert_eq!(last_message(&game), "orc is dead!");
    press(&mut game, 'D');
    assert_eq!(game.objects[0].position, (11, 10));
}

#[test]
fn a_dead_player_neither_moves_nor_strikes() {
    let mut game = arena();
    game.objects[0].alive = false;
    game.objects.push(spawn_monster((11, 10), true));
    let told = game.message_log.len();
    assert_eq!(press(&mut game, 'D'), PlayerAction::TookTurn);
    assert_eq!(press(&mut game, 'W'), PlayerAction::TookTurn);
    assert_eq!(game.objects[0].position, (10, 10));
    assert_eq!(game.objects[1].fighter.unwrap().hp, 10);
    assert_eq!(game.message_log.len(), told);
}

#[test]
fn items_are_picked_up_until_the_inventory_is_full() {
    let mut game = arena();
    game.objects.push(spawn_item((10, 10), true));
    game.objects.push(spawn_monster((12, 12), false));
    game.objects.push(spawn_item((10, 10), false));
    game.objects.push(spawn_item((10, 10), true));
    assert_eq!(press(&mut game, 'G'), PlayerAction::DidNotTakeTurn);
    assert_eq!(game.inventory.len(), 1);
    assert_eq!(game.inventory[0].name, "healing potion");
    assert_eq!(last_message(&game), "You picked up healing potion!");
    let names: Vec<&str> = game.objects.iter().map(|o| o.name.as_str()).collect();
    assert_eq!(names, vec!["player", "healing potion", "troll", "scroll of lightning"]);
    press(&mut game, 'G');
    assert_eq!(game.inventory.len(), INVENTORY_SIZE);
    assert_eq!(game.inventory[1].name, "healing potion");
    press(&mut game, 'G');
    assert_eq!(game.inventory.len(), 2);
    assert_eq!(game.objects.len(), 3);
    assert_eq!(last_message(&game), "Your inventory is full, cannot pick up scroll of lightning.");
}

#[test]
fn picking_up_where_nothing_lies_does_nothing() {
    let mut game = arena();
    game.objects.push(spawn_item((11, 10), true));
    let told = game.message_log.len();
    assert_eq!(press(&mut game, 'G'), PlayerAction::DidNotTakeTurn);
    assert!(game.inventory.is_empty());
    assert_eq!(game.objects.len(), 2);
    assert_eq!(game.message_log.len(), told);
}

#[test]
fn a_potion_heals_a_wounded_player_and_is_used_up() {
    let mut game = arena();
    game.objects[0].fighter.as_mut().unwrap().hp = 20;
    game.inventory.push(spawn_item((0, 0), true));
    assert_eq!(game.cast_heal(0), UseResult::UsedUp);
    assert_eq!(game.objects[0].fighter.unwrap().hp, 25);
    assert_eq!(last_message(&game), "Your wounds start to feel better");
    game.use_item(0);
    assert_eq!(game.objects[0].fighter.unwrap().hp, 30);
    assert!(game.inventory.is_empty());
}

#[test]
fn a_potion_is_kept_at_full_health() {
    let mut game = arena();
    game.inventory.push(spawn_item((0, 0), true));
    game.use_item(0);
    assert_eq!(game.inventory.len(), 1);
    assert_eq!(game.objects[0].fighter.unwrap().hp, 30);
    let count = game.message_log.len();
    assert_eq!(game.message_log.message(count - 2).0, "You are already at full health");
    assert_eq!(game.message_log.message(count - 2).1, theme::red_alert_text());
    assert_eq!(last_message(&game), "Cancelled");
}

#[test]
fn a_scroll_fizzles_and_is_used_up() {
    let mut game = arena();
    game.inventory.push(spawn_item((0, 0), true));
    game.inventory.push(spawn_item((0, 0), false));
    assert_eq!(game.cast_lightning(1), UseResult::UsedUp);
    game.use_item(1);
    assert_eq!(game.inventory.len(), 1);
    assert_eq!(game.inventory[0].item, Some(Item::Heal));
    assert_eq!(last_message(&game), "Your lightning fizzled.");
}

#[test]
fn what_is_no_item_cannot_be_used() {
    let mut game = arena();
    game.inventory.push(Object::new((0, 0), '?', colors::white(), "rock", false));
    game.use_item(0);
    assert_eq!(game.inventory.len(), 1);
    assert_eq!(last_message(&game), "The rock cannot be used.");
}

#[test]
fn the_inventory_menu_lists_what_is_carried() {
    let mut game = arena();
    game.objects[0].fighter.as_mut().unwrap().hp = 1;
    game.inventory.push(spawn_item((0, 0), false));
    game.inventory.push(spawn_item((0, 0), true));
    assert_eq!(press(&mut game, 'I'), PlayerAction::DidNotTakeTurn);
    {
        let menu = game.active_menu.as_ref().unwrap();
        let width = inventory_header().len() as u32 + 1;
        assert_eq!(menu.console.dimensions(), (width, 4));
        assert_eq!(menu.console.glyph_at(0, 3, 2).unwrap().character, 'P');
        assert_eq!(menu.console.glyph_at(1, 2, 2).unwrap().character, 'a');
        assert_eq!(menu.console.glyph_at(4, 2, 2).unwrap().character, 's');
        assert_eq!(menu.console.glyph_at(1, 1, 2).unwrap().character, 'b');
        assert_eq!(menu.console.glyph_at(4, 1, 2).unwrap().character, 'h');
    }
    assert_eq!(press(&mut game, 'B'), PlayerAction::DidNotTakeTurn);
    assert!(game.active_menu.is_none());
    assert_eq!(game.objects[0].fighter.unwrap().hp, 6);
    assert_eq!(game.inventory.len(), 1);
    assert_eq!(game.inventory[0].name, "scroll of lightning");
}

#[test]
fn any_other_key_closes_the_menu() {
    let mut game = arena();
    game.inventory.push(spawn_item((0, 0), false));
    press(&mut game, 'I');
    assert!(game.active_menu.is_some());
    assert_eq!(press(&mut game, 'W'), PlayerAction::DidNotTakeTurn);
    assert!(game.active_menu.is_none());
    assert_eq!(game.objects[0].position, (10, 10));
    assert_eq!(game.inventory.len(), 1);
    press(&mut game, 'I');
    assert_eq!(
        game.process_input(InputEvent::KeyPressed(Key::Other)),
        PlayerAction::DidNotTakeTurn
    );
    assert!(game.active_menu.is_none());
}

#[test]
fn an_empty_inventory_is_listed_as_empty() {
    let mut game = arena();
    press(&mut game, 'I');
    let menu = game.active_menu.as_ref().unwrap();
    assert_eq!(menu.console.dimensions().1, 3);
    assert_eq!(menu.console.glyph_at(4, 1, 2).unwrap().character, 'I');
    assert_eq!(menu.console.glyph_at(22, 1, 2).unwrap().character, '.');
}

#[test]
fn monsters_move_or_strike_in_turn() {
    let mut game = arena();
    game.objects.push(spawn_monster((11, 11), true));
    game.objects.push(spawn_item((9, 9), true));
    game.objects.push(spawn_monster((8, 8), false));
    let steps = vec![(0, 0), (-1, -1), (1, 1), (1, 1)];
    game.monsters_turn(&steps);
    assert_eq!(game.objects[0].fighter.unwrap().hp, 29);
    assert_eq!(game.objects[1].position, (11, 11));
    assert_eq!(game.objects[2].position, (9, 9));
    assert_eq!(game.objects[3].position, (9, 9));
    assert_eq!(last_message(&game), "orc attacks player for 1 hit points.");
    game.monsters_turn(&steps);
    assert_eq!(game.objects[0].fighter.unwrap().hp, 26);
    assert_eq!(game.objects[3].position, (9, 9));
    assert_eq!(last_message(&game), "troll attacks player for 2 hit points.");
}

#[test]
fn monsters_kill_the_player_and_then_leave_off() {
    let mut game = arena();
    game.objects[0].fighter.as_mut().unwrap().hp = 1;
    game.objects.push(spawn_monster((11, 11), true));
    game.objects.push(spawn_monster((9, 9), false));
    let steps = vec![(0, 0), (-1, -1), (1, 1)];
    game.monsters_turn(&steps);
    assert!(!game.objects[0].alive);
    assert_eq!(game.objects[0].fighter.unwrap().hp, 0);
    assert_eq!(game.objects[0].glyph, '%');
    assert_eq!(last_message(&game), "You died!");
    let told = game.message_log.len();
    game.monsters_turn(&steps);
    assert_eq!(game.message_log.len(), told);
    assert_eq!(game.objects[0].fighter.unwrap().hp, 0);
}

#[test]
fn the_level_is_drawn_with_what_is_seen_lit() {
    let mut game = arena();
    game.objects.push(spawn_item((11, 10), true));
    game.objects.push(spawn_monster((12, 10), true));
    game.objects.push(spawn_monster((8, 8), false));
    let mut visible = Visibility::new();
    for cell in [(10, 10), (11, 10), (12, 10), (13, 10)] {
        visible.insert(cell);
    }
    game.init_level_buffer(&visible);
    let clear = colors::clear();
    assert_eq!(
        game.console.glyph_at(10, 10, 3),
        Some(Glyph::new('@', clear, theme::player()))
    );
    assert_eq!(
        game.console.glyph_at(11, 10, 2),
        Some(Glyph::new('!', clear, theme::healing_item()))
    );
    assert_eq!(game.console.glyph_at(12, 10, 3), Some(Glyph::new('o', clear, theme::orc())));
    assert_eq!(game.console.glyph_at(8, 8, 3), None);
    assert_eq!(
        game.console.glyph_at(10, 10, 1),
        Some(Glyph::new(' ', theme::color_light_floor(), clear))
    );
    assert_eq!(
        game.console.glyph_at(9, 10, 1),
        Some(Glyph::new(' ', theme::color_dark_floor(), clear))
    );
    assert_eq!(
        game.console.glyph_at(13, 10, 1),
        Some(Glyph::new(' ', theme::color_light_wall(), clear))
    );
    assert_eq!(
        game.console.glyph_at(0, 0, 1),
        Some(Glyph::new(' ', theme::color_dark_wall(), clear))
    );
    assert_eq!(game.console.glyph_count(), MAP_WIDTH * MAP_HEIGHT + 3);
}

#[test]
fn the_status_line_shows_the_hit_points() {
    let mut game = arena();
    game.objects[0].fighter.as_mut().unwrap().hp = -7;
    game.draw_status();
    let line: String = (0..9)
        .map(|x| game.console_term.glyph_at(x, 7, 2).unwrap().character)
        .collect();
    assert_eq!(line, "HP: -7/30");
    assert_eq!(game.console_term.glyph_count(), 9);
    assert_eq!(
        game.console_term.glyph_at(0, 7, 2),
        Some(Glyph::new('H', colors::clear(), theme::player()))
    );
    game.objects[0].fighter = None;
    game.draw_status();
    assert_eq!(game.console_term.glyph_count(), 0);
}

#[test]
fn a_frame_redraws_the_level_only_after_a_move() {
    let mut game = arena();
    let visible = Visibility::new();
    let frames = game.render(&visible);
    assert!(!game.has_moved);
    let level = frames.level.unwrap();
    assert_eq!(level.index_count as usize, 6 * MAP_WIDTH * MAP_HEIGHT);
    assert!(level.upload.is_some());
    assert_eq!(frames.status.unwrap().index_count, 6 * 9);
    assert_eq!(frames.log.unwrap().index_count, 6 * (120 + 120 + 24 + 14));
    assert!(frames.menu.is_none());
    let frames = game.render(&visible);
    assert!(frames.level.unwrap().upload.is_none());
    assert!(frames.status.unwrap().upload.is_some());
    assert!(frames.log.unwrap().upload.is_none());
    press(&mut game, 'I');
    let frames = game.render(&visible);
    assert!(frames.level.unwrap().upload.is_some());
    assert!(frames.menu.unwrap().unwrap().upload.is_some());
}

#[test]
fn a_resize_marks_every_console() {
    let mut game = arena();
    let visible = Visibility::new();
    game.render(&visible);
    assert!(!game.console.is_dirty());
    game.resize();
    assert!(game.console.is_dirty());
    assert!(game.console_term.is_dirty());
    assert!(game.game_over.is_dirty());
    assert!(game.message_log.console.is_dirty());
    let frames = game.render(&visible);
    assert!(frames.level.unwrap().upload.is_some());
    assert!(frames.log.unwrap().upload.is_some());
}

#[test]
fn events_that_the_game_cannot_take_are_told_beforehand() {
    let mut game = arena();
    let press_key = |c: char| InputEvent::KeyPressed(Key::Character(c));
    assert!(game.can_accept(press_key('W')));
    assert!(game.can_accept(press_key('1')));
    assert!(game.can_accept(press_key('I')));
    assert!(game.can_accept(InputEvent::MouseMoved));
    assert!(game.can_list_inventory(inventory_header()));
    press(&mut game, 'I');
    assert!(!game.can_accept(press_key('A')));
    assert!(game.can_accept(press_key('B')));
    assert!(!game.can_accept(press_key('1')));
    assert!(game.can_accept(InputEvent::KeyPressed(Key::Other)));
    assert!(game.can_accept(InputEvent::KeyReleased(Key::Character('1'))));
    game.inventory.push(spawn_item((0, 0), true));
    assert!(game.can_accept(press_key('A')));
}

#[test]
fn consoles_that_cannot_host_a_game_are_told_beforehand() {
    assert!(GameImpl::can_host(&console(100, 50), &console(15, 8)));
    assert!(GameImpl::can_host(&console(85_899_343, 1), &console(0x1000_0000, 8)));
    assert!(!GameImpl::can_host(&console(85_899_344, 1), &console(15, 8)));
    assert!(!GameImpl::can_host(&console(100, 50), &console(0x1000_0001, 8)));
}
