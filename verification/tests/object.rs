use console_backend::color::Color;
use console_backend::colors;
use console_backend::console::Console;
use console_backend::font::FontInfo;
use console_backend::map::{Tile, TileMap};
use console_backend::object::{
    ai_take_turn, decimal_text, mut_two, remains_color, Ai, DeathCallback, Fighter, Item, Object,
};
use console_backend::theme;
use console_backend::widgets::scrolling_message_console::ScrollingMessageConsole;

fn log(height: u32) -> ScrollingMessageConsole {
    let console = Console::new((40, height), colors::black(), 1, FontInfo::new((10, 10)));
    ScrollingMessageConsole::new(console, height)
}

fn fighter(hp: i32, max_hp: i32, defense: i32, power: i32, on_death: DeathCallback) -> Fighter {
    Fighter { max_hp, hp, defense, power, on_death }
}

fn monster(name: &str, at: (i32, i32), hp: i32, defense: i32, power: i32) -> Object {
    let mut object = Object::new(at, 'o', colors::light_green(), name, true);
    object.fighter = Some(fighter(hp, hp, defense, power, DeathCallback::Monster));
    object.ai = Some(Ai);
    object
}

fn player(at: (i32, i32), hp: i32) -> Object {
    let mut object = Object::new(at, '@', colors::white(), "player", true);
    object.fighter = Some(fighter(hp, 30, 2, 5, DeathCallback::Player));
    object
}

fn texts(log: &ScrollingMessageConsole) -> Vec<(String, Color)> {
    (0..log.len()).map(|i| log.message(i)).collect()
}

fn floor(width: usize, height: usize) -> TileMap {
    vec![vec![Tile::empty(); height]; width]
}

#[test]
fn mut_two_hands_out_both_elements_in_the_order_asked() {
    let mut items = vec![10, 20, 30, 40];
    {
        let (a, b) = mut_two(1, 3, &mut items);
        assert_eq!((*a, *b), (20, 40));
        *a = 21;
        *b = 41;
    }
    assert_eq!(items, vec![10, 21, 30, 41]);
    {
        let (a, b) = mut_two(3, 0, &mut items);
        assert_eq!((*a, *b), (41, 10));
        *a += 1;
        *b += 1;
    }
    assert_eq!(items, vec![11, 21, 30, 42]);
}

#[test]
fn object_new_starts_alive_without_parts() {
    let object = Object::new((3, -4), 'x', colors::navy(), "thing", false);
    assert_eq!(object.position, (3, -4));
    assert_eq!(object.glyph, 'x');
    assert_eq!(object.color, colors::navy());
    assert_eq!(object.name, "thing");
    assert!(!object.blocks);
    assert!(object.alive);
    assert_eq!(object.fighter, None);
    assert_eq!(object.ai, None);
    assert_eq!(object.item, None::<Item>);
}

#[test]
fn decimal_text_writes_integers() {
    assert_eq!(decimal_text(0), "0");
    assert_eq!(decimal_text(7), "7");
    assert_eq!(decimal_text(10), "10");
    assert_eq!(decimal_text(1234567890), "1234567890");
    assert_eq!(decimal_text(-1), "-1");
    assert_eq!(decimal_text(-305), "-305");
    assert_eq!(decimal_text(i32::MAX), "2147483647");
    assert_eq!(decimal_text(i32::MIN), "-2147483648");
}

#[test]
fn touches_is_less_than_two_cells_apart() {
    let here = Object::new((5, 5), 'a', colors::white(), "a", true);
    for (dx, dy, near) in [
        (0, 0, true),
        (1, 0, true),
        (1, 1, true),
        (-1, 1, true),
        (2, 0, false),
        (0, -2, false),
        (2, 2, false),
        (1, 2, false),
    ] {
        let there = Object::new((5 + dx, 5 + dy), 'b', colors::white(), "b", true);
        assert_eq!(here.touches(&there), near);
    }
    let far = Object::new((i32::MAX, i32::MIN), 'b', colors::white(), "b", true);
    let other = Object::new((i32::MIN, i32::MAX), 'c', colors::white(), "c", true);
    assert!(!far.touches(&other));
}

#[test]
fn take_damage_wounds_without_killing() {
    let mut orc = monster("orc", (1, 1), 10, 0, 3);
    let mut messages = log(5);
    orc.take_damage(4, &mut messages);
    assert_eq!(orc.fighter.unwrap().hp, 6);
    assert!(orc.alive);
    assert_eq!(messages.len(), 0);
    orc.take_damage(0, &mut messages);
    orc.take_damage(-3, &mut messages);
    assert_eq!(orc.fighter.unwrap().hp, 6);
}

#[test]
fn take_damage_kills_a_monster_and_leaves_remains() {
    let mut orc = monster("orc", (1, 1), 10, 0, 3);
    let mut messages = log(5);
    orc.take_damage(10, &mut messages);
    assert!(!orc.alive);
    assert_eq!(orc.glyph, '%');
    assert_eq!(orc.color, remains_color());
    assert_eq!(orc.color, Color::from_int(120, 30, 30, 255));
    assert!(!orc.blocks);
    assert_eq!(orc.fighter, None);
    assert_eq!(orc.ai, None);
    assert_eq!(orc.name, "remains of orc");
    assert_eq!(texts(&messages), vec![("orc is dead!".to_string(), theme::green_alert_text())]);
}

#[test]
fn take_damage_kills_the_player_who_stays_a_fighter() {
    let mut hero = player((1, 1), 3);
    let mut messages = log(5);
    hero.take_damage(5, &mut messages);
    assert!(!hero.alive);
    assert_eq!(hero.glyph, '%');
    assert_eq!(hero.color, remains_color());
    assert!(hero.blocks);
    assert_eq!(hero.fighter.unwrap().hp, -2);
    assert_eq!(hero.name, "player");
    assert_eq!(texts(&messages), vec![("You died!".to_string(), theme::red_alert_text())]);
    hero.take_damage(0, &mut messages);
    assert_eq!(messages.len(), 2);
}

#[test]
fn take_damage_does_nothing_to_what_cannot_fight() {
    let mut potion = Object::new((1, 1), '!', colors::white(), "potion", false);
    let mut messages = log(5);
    potion.take_damage(100, &mut messages);
    assert!(potion.alive);
    assert_eq!(potion.glyph, '!');
    assert_eq!(messages.len(), 0);
}

#[test]
fn attack_reports_the_blow_and_wounds() {
    let hero = player((1, 1), 30);
    let mut orc = monster("orc", (2, 1), 10, 1, 3);
    let mut messages = log(5);
    hero.attack(&mut orc, &mut messages);
    assert_eq!(orc.fighter.unwrap().hp, 6);
    assert_eq!(
        texts(&messages),
        vec![("player attacks orc for 4 hit points.".to_string(), theme::regular_alert_text())]
    );
}

#[test]
fn attack_that_kills_reports_blow_then_death() {
    let hero = player((1, 1), 30);
    let mut orc = monster("orc", (2, 1), 5, 0, 3);
    let mut messages = log(5);
    hero.attack(&mut orc, &mut messages);
    assert_eq!(orc.name, "remains of orc");
    assert_eq!(
        texts(&messages),
        vec![
            ("player attacks orc for 5 hit points.".to_string(), theme::regular_alert_text()),
            ("orc is dead!".to_string(), theme::green_alert_text()),
        ]
    );
}

#[test]
fn attack_without_effect_only_reports() {
    let weak = monster("rat", (1, 1), 3, 0, 2);
    let mut hero = player((2, 1), 30);
    let mut messages = log(5);
    weak.attack(&mut hero, &mut messages);
    assert_eq!(hero.fighter.unwrap().hp, 30);
    assert_eq!(
        texts(&messages),
        vec![("rat attacks player but it has no effect!".to_string(), theme::regular_alert_text())]
    );
    let potion = Object::new((1, 1), '!', colors::white(), "potion", false);
    potion.attack(&mut hero, &mut messages);
    assert_eq!(hero.fighter.unwrap().hp, 30);
    assert_eq!(messages.message(1).0, "potion attacks player but it has no effect!");
}

#[test]
fn heal_is_clamped_to_the_maximum_and_to_zero() {
    let mut hero = player((0, 0), 10);
    hero.heal(5);
    assert_eq!(hero.fighter.unwrap().hp, 15);
    hero.heal(100);
    assert_eq!(hero.fighter.unwrap().hp, 30);
    hero.heal(-100);
    assert_eq!(hero.fighter.unwrap().hp, 0);
    let mut potion = Object::new((1, 1), '!', colors::white(), "potion", false);
    potion.heal(5);
    assert_eq!(potion.fighter, None);
}

#[test]
fn ai_approaches_from_afar_by_the_given_step() {
    let map = floor(10, 10);
    let mut objects = vec![player((1, 1), 30), monster("orc", (4, 1), 10, 0, 3)];
    let mut messages = log(5);
    ai_take_turn(1, &map, &mut objects, (-1, 0), &mut messages);
    assert_eq!(objects[1].position, (3, 1));
    assert_eq!(objects[0].fighter.unwrap().hp, 30);
    assert_eq!(messages.len(), 0);
    ai_take_turn(1, &map, &mut objects, (-1, 0), &mut messages);
    assert_eq!(objects[1].position, (2, 1));
    assert_eq!(objects[0].fighter.unwrap().hp, 30);
    ai_take_turn(1, &map, &mut objects, (-1, 0), &mut messages);
    assert_eq!(objects[1].position, (2, 1));
    assert_eq!(objects[0].fighter.unwrap().hp, 29);
    assert_eq!(messages.message(0).0, "orc attacks player for 1 hit points.");
}

#[test]
fn ai_does_not_step_onto_a_blocked_cell() {
    let mut map = floor(10, 10);
    map[3][1] = Tile::wall();
    let mut objects = vec![player((1, 1), 30), monster("orc", (4, 1), 10, 0, 3)];
    let mut messages = log(5);
    ai_take_turn(1, &map, &mut objects, (-1, 0), &mut messages);
    assert_eq!(objects[1].position, (4, 1));
}

#[test]
fn ai_strikes_a_player_who_is_near_and_alive() {
    let map = floor(10, 10);
    let mut objects = vec![player((1, 1), 30), monster("troll", (2, 2), 16, 1, 4)];
    let mut messages = log(5);
    ai_take_turn(1, &map, &mut objects, (-1, -1), &mut messages);
    assert_eq!(objects[1].position, (2, 2));
    assert_eq!(objects[0].fighter.unwrap().hp, 28);
    assert_eq!(messages.message(0).0, "troll attacks player for 2 hit points.");
}

#[test]
fn ai_waits_beside_a_dead_player() {
    let map = floor(10, 10);
    let mut objects = vec![player((1, 1), 0), monster("troll", (2, 2), 16, 1, 4)];
    let mut messages = log(5);
    ai_take_turn(1, &map, &mut objects, (-1, -1), &mut messages);
    assert_eq!(objects[1].position, (2, 2));
    assert_eq!(objects[0].fighter.unwrap().hp, 0);
    assert_eq!(messages.len(), 0);
}
