//! The rules of the game: what the player's keys do to the level, its
//! objects and the inventory.

use vstd::prelude::*;
use crate::console::Console;
use crate::map::{free, in_map, inhabitant, make_map, move_by, open_at, shaped, Tile, TileMap};
use crate::object::{
    ai_choice, ai_take_turn, decimal, decimal_text, lemma_decimal_is_short, mut_two, AiChoice,
    DeathCallback, Fighter, Item, Object, ObjectView,
};
use crate::theme;
use crate::widgets::menu::{
    is_safe_key, key_is_safe, lines_of, menu_drawn, menu_fits, pick, Menu,
};
use crate::color::Color;
use crate::colors;
use crate::console::{ConsoleView, Frame};
use crate::fov::Visibility;
use crate::widgets::scrolling_message_console::ScrollingMessageConsole;

verus! {

/// What a key press came to.
#[derive(Clone, Copy, Debug, PartialEq, Eq, Structural)]
pub enum PlayerAction {
    TookTurn,
    DidNotTakeTurn,
    Exit,
}

/// What became of an item that was used.
#[derive(Clone, Copy, Debug, PartialEq, Eq, Structural)]
pub enum UseResult {
    UsedUp,
    Cancelled,
}

/// A key of the keyboard: one that is named by a single character, such
/// as a letter key, or any other.
#[derive(Clone, Copy, Debug, PartialEq, Eq, Structural)]
pub enum Key {
    Character(char),
    Other,
}

/// What the window reports.
#[derive(Clone, Copy, Debug, PartialEq, Eq, Structural)]
pub enum InputEvent {
    KeyPressed(Key),
    KeyReleased(Key),
    MouseMoved,
}

/// The columns of a level.
pub const MAP_WIDTH: usize = 100;

/// The rows of a level.
pub const MAP_HEIGHT: usize = 50;

/// The row of the status console in which the hit points are shown.
pub const STATUS_ROW: i32 = 7;

/// The widest a status console can be for that row to have indices.
pub const STATUS_WIDTH_LIMIT: u32 = 0x1000_0000;

/// The most items that can be carried.
pub const INVENTORY_SIZE: usize = 2;

/// The state of a game: the level with what stands on it, what the player
/// carries, and the consoles that show it all. The player is the first of
/// the objects.
pub struct GameImpl {
    pub has_moved: bool,
    pub console: Console,
    pub inventory: Vec<Object>,
    pub console_term: Console,
    pub map: TileMap,
    pub objects: Vec<Object>,
    pub message_log: ScrollingMessageConsole,
    pub game_over: Console,
    pub active_menu: Option<Menu>,
}

/// A fighter whose numbers are small enough to be added and subtracted
/// freely.
pub open spec fn fighter_in_range(fighter: Fighter) -> bool {
    &&& 0 <= fighter.power <= 1000
    &&& 0 <= fighter.defense <= 1000
    &&& 0 <= fighter.max_hp <= 1_000_000
    &&& -1000 <= fighter.hp <= 1_000_000
}

/// An object as the rules keep it: on the map, and if it fights, with
/// numbers in range.
pub open spec fn object_in_order(object: ObjectView, map: Seq<Vec<Tile>>) -> bool {
    &&& in_map(map, object.position.0 as int, object.position.1 as int)
    &&& object.fighter matches Some(fighter) ==> fighter_in_range(fighter)
}

/// A monster that can fight has hit points left, and dies a monster's
/// death.
pub open spec fn monster_in_order(object: ObjectView) -> bool {
    object.fighter matches Some(fighter) ==> fighter.hp >= 1 && fighter.on_death
        == DeathCallback::Monster
}

/// Every tile of the level has an index in a console `cols` columns wide.
pub open spec fn level_fits(map: Seq<Vec<Tile>>, cols: int) -> bool {
    map.len() + map[0]@.len() * cols <= u32::MAX
}

/// The level and what stands on it are as the rules keep them.
pub open spec fn world_in_order(map: Seq<Vec<Tile>>, objects: Seq<Object>) -> bool {
    &&& 0 < map.len() <= 0x4000_0000
    &&& map[0]@.len() <= 0x4000_0000
    &&& forall|x: int| 0 <= x < map.len() ==> (#[trigger] map[x])@.len() == map[0]@.len()
    &&& objects.len() >= 1
    &&& objects[0].item is None
    &&& forall|i: int| 0 <= i < objects.len() ==> object_in_order((#[trigger] objects[i])@, map)
    &&& forall|i: int| 0 < i < objects.len() ==> monster_in_order((#[trigger] objects[i])@)
}

impl GameImpl {
    pub open spec fn wf(&self) -> bool {
        &&& self.console.wf()
        &&& self.console_term.wf()
        &&& self.game_over.wf()
        &&& self.message_log.wf()
        &&& self.active_menu matches Some(menu) ==> menu.wf()
        &&& world_in_order(self.map@, self.objects@)
        &&& level_fits(self.map@, self.console@.dimensions.0 as int)
        &&& self.console_term@.dimensions.0 <= STATUS_WIDTH_LIMIT
    }

    /// A new game: a freshly dug level, the player in the middle of its
    /// first room with 30 hit points, nothing carried, and a first message
    /// in the log.
    pub fn new(console: Console, console_term: Console, console_message_log: Console, game_over: Console) -> (game:
        GameImpl)
        requires
            console.wf(),
            console_term.wf(),
            console_message_log.wf(),
            game_over.wf(),
            MAP_WIDTH + MAP_HEIGHT * console@.dimensions.0 <= u32::MAX,
            console_term@.dimensions.0 <= STATUS_WIDTH_LIMIT,
        ensures
            game.wf(),
            game.has_moved,
            game.console == console,
            game.console_term == console_term,
            game.game_over == game_over,
            game.inventory@.len() == 0,
            game.active_menu is None,
            game.message_log.screen() == console_message_log,
            game.message_log.rows() == 10,
            game.message_log.log() == seq![("Oh man this is spooky."@, theme::red_alert_text())],
            shaped(game.map@, MAP_WIDTH as int, MAP_HEIGHT as int),
            open_at(
                game.map@,
                game.objects@[0].position.0 as int,
                game.objects@[0].position.1 as int,
            ),
            game.objects@[0]@ == (ObjectView {
                position: game.objects@[0].position,
                glyph: '@',
                color: theme::player(),
                name: "player"@,
                blocks: true,
                alive: true,
                fighter: Some(
                    Fighter {
                        max_hp: 30,
                        hp: 30,
                        defense: 2,
                        power: 5,
                        on_death: DeathCallback::Player,
                    },
                ),
                ai: None,
                item: None,
            }),
            forall|i: int|
                0 < i < game.objects@.len() ==> inhabitant((#[trigger] game.objects@[i])@, game.map@),
    {
        let mut message_log = ScrollingMessageConsole::new(console_message_log, 10);
        message_log.add_colored_message("Oh man this is spooky.", theme::red_alert_text());
        let mut objects: Vec<Object> = Vec::new();
        objects.push(Object::new((0, 0), '@', theme::player(), "player", true));
        let ghost alone = objects@;
        let (map, player_pos) = make_map(MAP_WIDTH, MAP_HEIGHT, 15, 5, 20, &mut objects);
        assert(objects@[0] == alone[0]) by {
            assert(objects@.take(1)[0] == objects@[0]);
        }
        objects[0].position = player_pos;
        objects[0].fighter = Some(
            Fighter { max_hp: 30, hp: 30, defense: 2, power: 5, on_death: DeathCallback::Player },
        );
        proof {
            assert forall|i: int| 0 < i < objects@.len() implies inhabitant(
                (#[trigger] objects@[i])@,
                map@,
            ) by {}
            reveal_strlit("Oh man this is spooky.");
        }
        GameImpl {
            has_moved: true,
            console,
            objects,
            map,
            console_term,
            message_log,
            game_over,
            inventory: Vec::new(),
            active_menu: None,
        }
    }

    /// The game can take the event: a key that is pressed while a menu is
    /// open can be looked up in it and picks what is carried, if it picks
    /// at all; and the inventory menu can be shown if the key is the one
    /// that opens it.
    pub open spec fn accepts(&self, pending_input: InputEvent) -> bool {
        pending_input matches InputEvent::KeyPressed(key) ==> match self.active_menu {
            Some(menu) => key_is_safe(key) && (pick(key, menu.options().len() as int) matches Some(
                index,
            ) ==> index < self.inventory@.len()),
            None => key == Key::Character('I') ==> self.can_list(spec_inventory_header()),
        }
    }

    /// Whether the game can take the event.
    pub fn can_accept(&self, pending_input: InputEvent) -> (ok: bool)
        requires
            self.wf(),
        ensures
            ok == self.accepts(pending_input),
    {
        match pending_input {
            InputEvent::KeyPressed(key) => match &self.active_menu {
                Some(menu) => {
                    if !is_safe_key(key) {
                        return false;
                    }
                    match menu.picks(key) {
                        Some(index) => index < self.inventory.len(),
                        None => true,
                    }
                },
                None => match key {
                    Key::Character('I') => self.can_list_inventory(inventory_header()),
                    _ => true,
                },
            },
            _ => true,
        }
    }

    /// Whether the consoles of a level and of a status line can host a
    /// game: every tile of a level has an index in the one, and the status
    /// row has indices in the other.
    pub fn can_host(console: &Console, console_term: &Console) -> (ok: bool)
        ensures
            ok == (MAP_WIDTH + MAP_HEIGHT * console@.dimensions.0 <= u32::MAX
                && console_term@.dimensions.0 <= STATUS_WIDTH_LIMIT),
    {
        let cols = console.dimensions().0 as u64;
        MAP_WIDTH as u64 + MAP_HEIGHT as u64 * cols <= 0xffff_ffff && console_term.dimensions().0
            <= STATUS_WIDTH_LIMIT
    }

    /// Whether the inventory menu under `header` can be shown.
    pub fn can_list_inventory(&self, header: &str) -> (ok: bool)
        ensures
            ok == self.can_list(header@),
    {
        let (options, max) = self.list_inventory(header);
        if max >= 0xffff_ffff {
            return false;
        }
        Menu::can_show(&header.to_owned(), &options, (max + 1) as u32)
    }

    /// The lines of the inventory menu, and the greatest length in bytes
    /// among them and `header`.
    fn list_inventory(&self, header: &str) -> (listed: (Vec<String>, usize))
        ensures
            lines_of(listed.0@) == inventory_lines(self.inventory@),
            listed.1 == longest_bytes(
                header@,
                inventory_lines(self.inventory@),
                inventory_lines(self.inventory@).len() as int,
            ),
    {
        let ghost lines = inventory_lines(self.inventory@);
        let mut options: Vec<String> = Vec::new();
        if self.inventory.len() == 0 {
            options.push("Inventory is empty.".to_owned());
            assert(lines_of(options@) =~= lines);
        } else {
            let mut listed: usize = 0;
            while listed < self.inventory.len()
                invariant
                    listed <= self.inventory@.len(),
                    options@.len() == listed,
                    forall|i: int|
                        0 <= i < listed ==> (#[trigger] options@[i])@ == self.inventory@[i].name@,
                decreases self.inventory@.len() - listed,
            {
                options.push(self.inventory[listed].name.clone());
                listed = listed + 1;
            }
            assert(lines_of(options@) =~= lines);
        }
        let mut max = header.as_bytes().len();
        let mut seen: usize = 0;
        while seen < options.len()
            invariant
                seen <= options@.len(),
                lines_of(options@) == lines,
                max == longest_bytes(header@, lines, seen as int),
            decreases options@.len() - seen,
        {
            assert(lines[seen as int] == options@[seen as int]@);
            let length = options[seen].as_str().as_bytes().len();
            if length > max {
                max = length;
            }
            seen = seen + 1;
        }
        (options, max)
    }

    /// What a key press does to the game, and what it came to.
    ///
    /// While a menu is open, the key picks from it: the item at the
    /// picked place is used, and the menu closes whatever was picked. With
    /// no menu open, `W`, `A`, `S` and `D` are a step up, left, down and
    /// right, which takes a turn; `G` picks up the first item on the
    /// player's cell; `I` opens the inventory menu. Other keys, and events
    /// that are no key press, do nothing.
    pub fn process_input(&mut self, pending_input: InputEvent) -> (action: PlayerAction)
        requires
            old(self).wf(),
            old(self).accepts(pending_input),
        ensures
            final(self).wf(),
            ({
                let touched = GameImpl { has_moved: true, ..*old(self) };
                match pending_input {
                    InputEvent::KeyPressed(key) => match old(self).active_menu {
                        Some(menu) => {
                            &&& action == PlayerAction::DidNotTakeTurn
                            &&& final(self).active_menu is None
                            &&& match pick(key, menu.options().len() as int) {
                                Some(index) => (GameImpl {
                                    active_menu: old(self).active_menu,
                                    ..*final(self)
                                }).after_use(&touched, index as int),
                                None => *final(self) == (GameImpl { active_menu: None, ..touched }),
                            }
                        },
                        None => if key == Key::Character('W') {
                            action == PlayerAction::TookTurn && final(self).after_step(&touched, 0, 1)
                        } else if key == Key::Character('S') {
                            action == PlayerAction::TookTurn && final(self).after_step(&touched, 0, -1)
                        } else if key == Key::Character('A') {
                            action == PlayerAction::TookTurn && final(self).after_step(&touched, -1, 0)
                        } else if key == Key::Character('D') {
                            action == PlayerAction::TookTurn && final(self).after_step(&touched, 1, 0)
                        } else if key == Key::Character('G') {
                            &&& action == PlayerAction::DidNotTakeTurn
                            &&& if no_item_under_player(touched.objects@, touched.objects@.len() as int) {
                                *final(self) == touched
                            } else {
                                forall|item_id: int|
                                    0 <= item_id < touched.objects@.len() && #[trigger] lies_under_player(
                                        touched.objects@,
                                        item_id,
                                    ) && no_item_under_player(touched.objects@, item_id)
                                        ==> final(self).after_pick_up(&touched, item_id)
                            }
                        } else if key == Key::Character('I') {
                            &&& action == PlayerAction::DidNotTakeTurn
                            &&& final(self).after_menu(&touched, spec_inventory_header())
                        } else {
                            action == PlayerAction::DidNotTakeTurn && *final(self) == touched
                        },
                    },
                    _ => action == PlayerAction::DidNotTakeTurn && *final(self) == *old(self),
                }
            }),
    {
        match pending_input {
            InputEvent::KeyPressed(key) => {
                self.has_moved = true;
                if self.active_menu.is_some() {
                    let index = match &mut self.active_menu {
                        Some(menu) => menu.process_input(key),
                        None => None,
                    };
                    match index {
                        Some(index) => {
                            self.use_item(index);
                        },
                        None => {},
                    }
                    self.active_menu = None;
                    PlayerAction::DidNotTakeTurn
                } else {
                    match key {
                        Key::Character('W') => {
                            self.player_move_or_attack(0, 1);
                            PlayerAction::TookTurn
                        },
                        Key::Character('S') => {
                            self.player_move_or_attack(0, -1);
                            PlayerAction::TookTurn
                        },
                        Key::Character('A') => {
                            self.player_move_or_attack(-1, 0);
                            PlayerAction::TookTurn
                        },
                        Key::Character('D') => {
                            self.player_move_or_attack(1, 0);
                            PlayerAction::TookTurn
                        },
                        Key::Character('G') => {
                            let item_id = find_item_under_player(&self.objects);
                            match item_id {
                                Some(item_id) => {
                                    let ghost objects = self.objects@;
                                    self.pick_item_up(item_id);
                                    proof {
                                        assert forall|other: int|
                                            0 <= other < objects.len() && #[trigger] lies_under_player(
                                                objects,
                                                other,
                                            ) && no_item_under_player(objects, other) implies other
                                            == item_id by {
                                            if other < item_id {
                                                assert(!lies_under_player(objects, other));
                                            } else if other > item_id {
                                                assert(!lies_under_player(objects, item_id as int));
                                            }
                                        }
                                        assert(!no_item_under_player(objects, objects.len() as int)) by {
                                            assert(lies_under_player(objects, item_id as int));
                                        }
                                    }
                                },
                                None => {},
                            }
                            PlayerAction::DidNotTakeTurn
                        },
                        Key::Character('I') => {
                            self.inventory_menu(inventory_header().to_owned());
                            PlayerAction::DidNotTakeTurn
                        },
                        _ => PlayerAction::DidNotTakeTurn,
                    }
                }
            },
            _ => PlayerAction::DidNotTakeTurn,
        }
    }

    /// The consoles of the level, the status line and the end of the game,
    /// and the level itself, are those of `before`.
    pub open spec fn stage_kept(&self, before: &GameImpl) -> bool {
        &&& self.console == before.console
        &&& self.console_term == before.console_term
        &&& self.game_over == before.game_over
        &&& self.map == before.map
    }

    /// Drinks a healing potion: five hit points for a player who is short
    /// of some. A player in full health, and one who cannot fight, keeps
    /// the potion.
    pub fn cast_heal(&mut self, _inventory_id: usize) -> (used: UseResult)
        requires
            old(self).wf(),
        ensures
            final(self).wf(),
            final(self).stage_kept(old(self)),
            final(self).has_moved == old(self).has_moved,
            final(self).inventory == old(self).inventory,
            final(self).active_menu == old(self).active_menu,
            final(self).objects@.len() == old(self).objects@.len(),
            forall|i: int|
                0 < i < old(self).objects@.len() ==> final(self).objects@[i] == old(
                    self,
                ).objects@[i],
            match old(self).objects@[0].fighter {
                Some(fighter) => if fighter.hp == fighter.max_hp {
                    &&& used == UseResult::Cancelled
                    &&& final(self).objects@[0] == old(self).objects@[0]
                    &&& final(self).message_log.heard(
                        &old(self).message_log,
                        seq![("You are already at full health"@, theme::red_alert_text())],
                    )
                } else {
                    &&& used == UseResult::UsedUp
                    &&& final(self).objects@[0]@ == old(self).objects@[0]@.healed(5)
                    &&& final(self).message_log.heard(
                        &old(self).message_log,
                        seq![("Your wounds start to feel better"@, theme::green_alert_text())],
                    )
                },
                None => {
                    &&& used == UseResult::Cancelled
                    &&& final(self).objects@[0] == old(self).objects@[0]
                    &&& final(self).message_log.heard(&old(self).message_log, Seq::empty())
                },
            },
    {
        match self.objects[0].fighter {
            Some(fighter) => {
                if fighter.hp == fighter.max_hp {
                    self.message_log.add_colored_message(
                        "You are already at full health",
                        theme::red_alert_text(),
                    );
                    UseResult::Cancelled
                } else {
                    self.message_log.add_colored_message(
                        "Your wounds start to feel better",
                        theme::green_alert_text(),
                    );
                    self.objects[0].heal(5);
                    UseResult::UsedUp
                }
            },
            None => UseResult::Cancelled,
        }
    }

    /// Reads a scroll of lightning, which fizzles.
    pub fn cast_lightning(&mut self, _inventory_id: usize) -> (used: UseResult)
        requires
            old(self).wf(),
        ensures
            final(self).wf(),
            final(self).stage_kept(old(self)),
            final(self).has_moved == old(self).has_moved,
            final(self).inventory == old(self).inventory,
            final(self).active_menu == old(self).active_menu,
            final(self).objects == old(self).objects,
            used == UseResult::UsedUp,
            final(self).message_log.heard(
                &old(self).message_log,
                seq![("Your lightning fizzled."@, theme::red_alert_text())],
            ),
    {
        self.message_log.add_colored_message("Your lightning fizzled.", theme::red_alert_text());
        UseResult::UsedUp
    }

    /// Uses what is carried at `inventory_id`. An item that is used up
    /// leaves the inventory.
    pub fn use_item(&mut self, inventory_id: usize)
        requires
            old(self).wf(),
            inventory_id < old(self).inventory@.len(),
        ensures
            final(self).wf(),
            final(self).after_use(old(self), inventory_id as int),
    {
        let carried = self.inventory[inventory_id].item;
        match carried {
            Some(item) => {
                let ghost before = self.message_log;
                let result = match item {
                    Item::Heal => self.cast_heal(inventory_id),
                    Item::Lightning => self.cast_lightning(inventory_id),
                };
                match result {
                    UseResult::UsedUp => {
                        self.inventory.remove(inventory_id);
                    },
                    UseResult::Cancelled => {
                        self.message_log.add_message("Cancelled");
                        proof {
                            crate::widgets::scrolling_message_console::lemma_log_after_more(
                                before.log(),
                                old(self).cast_report(inventory_id as int),
                                seq![("Cancelled"@, theme::regular_alert_text())],
                                before.rows() as int,
                            );
                        }
                    },
                }
            },
            None => {
                let mut text = String::from_str("The ");
                text.append(self.inventory[inventory_id].name.as_str());
                text.append(" cannot be used.");
                self.message_log.add_message(text.as_str());
            },
        }
    }

    /// This is `before` after what it carried at `id` was used.
    pub open spec fn after_use(&self, before: &GameImpl, id: int) -> bool {
        &&& self.stage_kept(before)
        &&& self.has_moved == before.has_moved
        &&& self.active_menu == before.active_menu
        &&& self.objects@.len() == before.objects@.len()
        &&& forall|i: int|
            0 < i < before.objects@.len() ==> #[trigger] self.objects@[i] == before.objects@[i]
        &&& self.inventory@ == (if before.used_up(id) {
            before.inventory@.remove(id)
        } else {
            before.inventory@
        })
        &&& self.objects@[0]@ == (if before.heals(id) {
            before.objects@[0]@.healed(5)
        } else {
            before.objects@[0]@
        })
        &&& self.message_log.heard(&before.message_log, before.use_report(id))
    }

    /// Whether using what is carried at `id` heals the player: it is a
    /// potion, and the player can fight and is short of hit points.
    pub open spec fn heals(&self, id: int) -> bool {
        &&& self.inventory@[id].item == Some(Item::Heal)
        &&& self.objects@[0].fighter matches Some(fighter) && fighter.hp != fighter.max_hp
    }

    /// Whether what is carried at `id` is used up by using it.
    pub open spec fn used_up(&self, id: int) -> bool {
        self.heals(id) || self.inventory@[id].item == Some(Item::Lightning)
    }

    /// What the log is told when the spell of the item at `id` is cast.
    pub open spec fn cast_report(&self, id: int) -> Seq<(Seq<char>, crate::color::Color)> {
        match self.inventory@[id].item {
            Some(Item::Heal) => match self.objects@[0].fighter {
                Some(fighter) => if fighter.hp == fighter.max_hp {
                    seq![("You are already at full health"@, theme::red_alert_text())]
                } else {
                    seq![("Your wounds start to feel better"@, theme::green_alert_text())]
                },
                None => Seq::empty(),
            },
            Some(Item::Lightning) => seq![("Your lightning fizzled."@, theme::red_alert_text())],
            None => Seq::empty(),
        }
    }

    /// What the log is told when what is carried at `id` is used.
    pub open spec fn use_report(&self, id: int) -> Seq<(Seq<char>, crate::color::Color)> {
        match self.inventory@[id].item {
            Some(_) => if self.used_up(id) {
                self.cast_report(id)
            } else {
                self.cast_report(id) + seq![("Cancelled"@, theme::regular_alert_text())]
            },
            None => seq![
                (
                    "The "@ + self.inventory@[id].name@ + " cannot be used."@,
                    theme::regular_alert_text(),
                ),
            ],
        }
    }

    /// This is `before` after the player tried to pick up the object
    /// `item_id`.
    pub open spec fn after_pick_up(&self, before: &GameImpl, item_id: int) -> bool {
        &&& self.stage_kept(before)
        &&& self.has_moved == before.has_moved
        &&& self.active_menu == before.active_menu
        &&& if before.inventory@.len() >= INVENTORY_SIZE {
            &&& self.objects == before.objects
            &&& self.inventory == before.inventory
            &&& self.message_log.heard(
                &before.message_log,
                seq![
                    (
                        "Your inventory is full, cannot pick up "@ + before.objects@[item_id].name@
                            + "."@,
                        theme::red_alert_text(),
                    ),
                ],
            )
        } else {
            &&& self.objects@ == before.objects@.update(item_id, before.objects@.last()).drop_last()
            &&& self.inventory@ == before.inventory@.push(before.objects@[item_id])
            &&& self.message_log.heard(
                &before.message_log,
                seq![
                    (
                        "You picked up "@ + before.objects@[item_id].name@ + "!"@,
                        theme::green_alert_text(),
                    ),
                ],
            )
        }
    }

    /// Picks the object `item_id` up from the level, if there is room for
    /// it: it leaves the level, the last object takes its place in the
    /// list, and it is carried. No more than two items can be carried.
    pub fn pick_item_up(&mut self, item_id: usize)
        requires
            old(self).wf(),
            0 < item_id < old(self).objects@.len(),
        ensures
            final(self).wf(),
            final(self).after_pick_up(old(self), item_id as int),
    {
        if self.inventory.len() >= INVENTORY_SIZE {
            let mut text = String::from_str("Your inventory is full, cannot pick up ");
            text.append(self.objects[item_id].name.as_str());
            text.append(".");
            self.message_log.add_colored_message(text.as_str(), theme::red_alert_text());
        } else {
            let item = self.objects.swap_remove(item_id);
            let mut text = String::from_str("You picked up ");
            text.append(item.name.as_str());
            text.append("!");
            self.message_log.add_colored_message(text.as_str(), theme::green_alert_text());
            self.inventory.push(item);
        }
    }

    /// The inventory menu under `header` can be shown.
    pub open spec fn can_list(&self, header: Seq<char>) -> bool {
        &&& inventory_menu_width(header, self.inventory@) <= u32::MAX
        &&& menu_fits(
            header,
            inventory_lines(self.inventory@),
            inventory_menu_width(header, self.inventory@),
        )
    }

    /// This is `before` after the inventory menu was opened under
    /// `header`.
    pub open spec fn after_menu(&self, before: &GameImpl, header: Seq<char>) -> bool {
        &&& self.stage_kept(before)
        &&& self.has_moved == before.has_moved
        &&& self.inventory == before.inventory
        &&& self.objects == before.objects
        &&& self.message_log == before.message_log
        &&& self.active_menu matches Some(menu) && {
            &&& menu.header() == header
            &&& menu.options() == inventory_lines(before.inventory@)
            &&& menu.screen()@ == menu_drawn(
                ConsoleView {
                    dimensions: (
                        inventory_menu_width(header, before.inventory@) as u32,
                        (inventory_lines(before.inventory@).len() + 2) as u32,
                    ),
                    height: 99,
                    default_background: colors::black(),
                    font: before.console@.font,
                    texture_scale: before.console@.texture_scale,
                    grid: Map::empty(),
                    dirty: true,
                    uploaded: Map::empty(),
                    drawn: 0,
                },
                header,
                inventory_lines(before.inventory@),
                inventory_lines(before.inventory@).len() as int + 2,
            )
        }
    }

    /// Opens the inventory menu: what is carried, by name, under `header`.
    pub fn inventory_menu(&mut self, header: String)
        requires
            old(self).wf(),
            old(self).can_list(header@),
        ensures
            final(self).wf(),
            final(self).after_menu(old(self), header@),
    {
        let (options, max) = self.list_inventory(header.as_str());
        let menu = Menu::new(header, options, (max + 1) as u32, &self.console);
        self.active_menu = Some(menu);
    }

    /// This is `before` after the player tried a step by `(dx, dy)`.
    pub open spec fn after_step(&self, before: &GameImpl, dx: int, dy: int) -> bool {
        let objects = before.objects@;
        let player = objects[0];
        let x = player.position.0 + dx;
        let y = player.position.1 + dy;
        &&& self.stage_kept(before)
        &&& self.has_moved == before.has_moved
        &&& self.active_menu == before.active_menu
        &&& self.inventory == before.inventory
        &&& self.objects@.len() == objects.len()
        &&& if !player.alive {
            &&& self.objects@ == objects
            &&& self.message_log.heard(&before.message_log, Seq::empty())
        } else if no_fighter_at(objects, x, y, objects.len() as int) {
            &&& self.objects@ == objects.update(
                0,
                if free(before.map@, x, y, objects) {
                    Object { position: (x as i32, y as i32), ..player }
                } else {
                    player
                },
            )
            &&& self.message_log.heard(&before.message_log, Seq::empty())
        } else {
            forall|target: int|
                0 <= target < objects.len() && #[trigger] stands_at(objects[target], x, y)
                    && no_fighter_at(objects, x, y, target) ==> {
                    &&& self.objects@[target]@ == player@.struck(objects[target]@)
                    &&& forall|i: int|
                        0 <= i < objects.len() && i != target ==> self.objects@[i] == objects[i]
                    &&& self.message_log.heard(
                        &before.message_log,
                        player@.fight_log(objects[target]@),
                    )
                }
        }
    }

    /// One step of the player by `(dx, dy)`. If a fighter stands on the
    /// cell the step leads to, the player strikes the first such object;
    /// otherwise the player moves there, if the cell can be entered. A dead
    /// player does neither.
    pub fn player_move_or_attack(&mut self, dx: i32, dy: i32)
        requires
            old(self).wf(),
            -0x4000_0000 <= dx <= 0x4000_0000,
            -0x4000_0000 <= dy <= 0x4000_0000,
            !(dx == 0 && dy == 0 && old(self).objects@[0].fighter is Some),
        ensures
            final(self).wf(),
            final(self).after_step(old(self), dx as int, dy as int),
    {
        if self.objects[0].alive {
            let x = self.objects[0].position.0 + dx;
            let y = self.objects[0].position.1 + dy;
            let target_id = find_fighter_at(&self.objects, x, y);
            match target_id {
                Some(target_id) => {
                    let ghost objects = self.objects@;
                    let (player, monster) = mut_two(0, target_id, self.objects.as_mut_slice());
                    player.attack(monster, &mut self.message_log);
                    proof {
                        assert forall|target: int|
                            0 <= target < objects.len() && #[trigger] stands_at(objects[target], x as int, y as int)
                                && no_fighter_at(objects, x as int, y as int, target) implies target
                            == target_id by {
                            if target < target_id {
                                assert(!stands_at(objects[target], x as int, y as int));
                            } else if target > target_id {
                                assert(!stands_at(objects[target_id as int], x as int, y as int));
                            }
                        }
                        assert(!no_fighter_at(objects, x as int, y as int, objects.len() as int)) by {
                            assert(stands_at(objects[target_id as int], x as int, y as int));
                        }
                    }
                },
                None => {
                    move_by(0, dx, dy, &self.map, self.objects.as_mut_slice());
                    assert(self.objects@ =~= old(self).objects@.update(0, self.objects@[0]));
                },
            }
        }
    }
}

/// The lines of the inventory menu: the names of what is carried, or a
/// line that says that nothing is.
pub open spec fn inventory_lines(inventory: Seq<Object>) -> Seq<Seq<char>> {
    if inventory.len() == 0 {
        seq!["Inventory is empty."@]
    } else {
        Seq::new(inventory.len(), |i: int| inventory[i].name@)
    }
}

/// The length of a text in bytes.
pub open spec fn byte_length(text: Seq<char>) -> int {
    vstd::utf8::encode_utf8(text).len() as int
}

/// The greatest length in bytes among `header` and the first `count`
/// lines.
pub open spec fn longest_bytes(header: Seq<char>, lines: Seq<Seq<char>>, count: int) -> int
    decreases count,
{
    if count <= 0 {
        byte_length(header)
    } else if byte_length(lines[count - 1]) > longest_bytes(header, lines, count - 1) {
        byte_length(lines[count - 1])
    } else {
        longest_bytes(header, lines, count - 1)
    }
}

/// The width of the inventory menu: one column more than its longest
/// line has bytes.
pub open spec fn inventory_menu_width(header: Seq<char>, inventory: Seq<Object>) -> int {
    longest_bytes(
        header,
        inventory_lines(inventory),
        inventory_lines(inventory).len() as int,
    ) + 1
}

/// The layer on which an object is drawn: what blocks the way lies above
/// what does not.
pub open spec fn object_layer(object: Object) -> u32 {
    if object.blocks {
        3
    } else {
        2
    }
}

/// The console after the first `count` objects were drawn: those on a
/// visible cell, each on its cell and layer.
pub open spec fn with_objects(
    view: ConsoleView,
    objects: Seq<Object>,
    visible: Set<(i32, i32)>,
    count: int,
) -> ConsoleView
    decreases count,
{
    if count <= 0 {
        view
    } else {
        let before = with_objects(view, objects, visible, count - 1);
        let object = objects[count - 1];
        if visible.contains(object.position) {
            before.put_char(
                object.glyph,
                object.position.0 as int,
                object.position.1 as int,
                object.color,
                Some(colors::clear()),
                object_layer(object),
            )
        } else {
            before
        }
    }
}

/// The background of a tile: floor or wall, lit where it is seen.
pub open spec fn tile_color(tile: Tile, lit: bool) -> Color {
    if !tile.block_sight {
        if lit {
            theme::color_light_floor()
        } else {
            theme::color_dark_floor()
        }
    } else {
        if lit {
            theme::color_light_wall()
        } else {
            theme::color_dark_wall()
        }
    }
}

/// The console after the first `count` tiles of column `x` were drawn.
pub open spec fn with_column(
    view: ConsoleView,
    column: Seq<Tile>,
    x: int,
    visible: Set<(i32, i32)>,
    count: int,
) -> ConsoleView
    decreases count,
{
    if count <= 0 {
        view
    } else {
        with_column(view, column, x, visible, count - 1).put_char(
            ' ',
            x,
            count - 1,
            colors::clear(),
            Some(tile_color(column[count - 1], visible.contains((x as i32, (count - 1) as i32)))),
            1,
        )
    }
}

/// The console after the first `count` columns of the map were drawn.
pub open spec fn with_columns(
    view: ConsoleView,
    map: Seq<Vec<Tile>>,
    visible: Set<(i32, i32)>,
    count: int,
) -> ConsoleView
    decreases count,
{
    if count <= 0 {
        view
    } else {
        with_column(
            with_columns(view, map, visible, count - 1),
            map[count - 1]@,
            count - 1,
            visible,
            map[count - 1]@.len() as int,
        )
    }
}

/// The console that shows the level: emptied, then the visible objects,
/// then on layer 1 the background of every tile.
pub open spec fn level_drawn(
    view: ConsoleView,
    objects: Seq<Object>,
    map: Seq<Vec<Tile>>,
    visible: Set<(i32, i32)>,
) -> ConsoleView {
    with_columns(
        with_objects(view.clear(), objects, visible, objects.len() as int),
        map,
        visible,
        map.len() as int,
    )
}

/// A cell of the level has an index in a console that the level fits.
proof fn lemma_cell_fits(x: int, y: int, width: int, height: int, cols: int)
    requires
        0 <= x < width,
        0 <= y < height,
        0 <= cols,
        width + height * cols <= u32::MAX,
    ensures
        x + y * cols <= u32::MAX,
{
    assert(y * cols <= height * cols) by (nonlinear_arith)
        requires
            y <= height,
            0 <= cols,
    ;
}

/// The status line of a fighter: its hit points over its maximum.
pub open spec fn status_line(fighter: Fighter) -> Seq<char> {
    "HP: "@ + decimal(fighter.hp as int) + "/"@ + decimal(fighter.max_hp as int)
}

/// The status console that shows the player: emptied, then the status
/// line if the player can fight.
pub open spec fn status_drawn(view: ConsoleView, player: Object) -> ConsoleView {
    match player.fighter {
        Some(fighter) => view.clear().put_text(
            status_line(fighter),
            0,
            STATUS_ROW as int,
            theme::player(),
            Some(colors::clear()),
            2,
        ),
        None => view.clear(),
    }
}

/// What one frame of the game asks of the GPU, console by console. A
/// console that cannot be shown has no frame.
#[derive(Debug)]
pub struct GameFrames {
    pub level: Option<Frame>,
    pub status: Option<Frame>,
    pub log: Option<Frame>,
    /// The frame of the menu, if one is open.
    pub menu: Option<Option<Frame>>,
}

/// `after` and `frame` are what a checked render makes of a console that
/// holds `view`.
pub open spec fn console_renders(view: ConsoleView, after: ConsoleView, frame: Option<Frame>) -> bool {
    &&& frame is Some <==> (view.dirty ==> view.can_upload())
    &&& match frame {
        Some(shown) => after == view.rendered() && view.draws(shown),
        None => after == view,
    }
}

/// The header of the inventory menu.
pub open spec fn spec_inventory_header() -> Seq<char> {
    "Press the key next to an item to use it, or any other to cancel."@
}

/// The header of the inventory menu.
pub fn inventory_header() -> (header: &'static str)
    ensures
        header@ == spec_inventory_header(),
{
    "Press the key next to an item to use it, or any other to cancel."
}

/// Whether the object `i` is an item on the player's cell.
pub open spec fn lies_under_player(objects: Seq<Object>, i: int) -> bool {
    objects[i].position == objects[0].position && objects[i].item is Some
}

/// None of the first `count` objects is an item on the player's cell.
pub open spec fn no_item_under_player(objects: Seq<Object>, count: int) -> bool {
    forall|i: int| 0 <= i < count && i < objects.len() ==> !#[trigger] lies_under_player(objects, i)
}

/// The first of the objects that is an item on the player's cell.
fn find_item_under_player(objects: &Vec<Object>) -> (found: Option<usize>)
    requires
        objects@.len() >= 1,
    ensures
        match found {
            Some(i) => i < objects@.len() && lies_under_player(objects@, i as int)
                && no_item_under_player(objects@, i as int),
            None => no_item_under_player(objects@, objects@.len() as int),
        },
{
    let place = objects[0].position;
    let mut i: usize = 0;
    while i < objects.len()
        invariant
            i <= objects@.len(),
            objects@.len() >= 1,
            place == objects@[0].position,
            no_item_under_player(objects@, i as int),
        decreases objects@.len() - i,
    {
        if objects[i].position.0 == place.0 && objects[i].position.1 == place.1
            && objects[i].item.is_some() {
            return Some(i);
        }
        i = i + 1;
    }
    None
}

/// Whether the object is a fighter on the cell `(x, y)`.
pub open spec fn stands_at(object: Object, x: int, y: int) -> bool {
    object.position == (x as i32, y as i32) && object.fighter is Some
}

/// None of the first `count` objects is a fighter on the cell `(x, y)`.
pub open spec fn no_fighter_at(objects: Seq<Object>, x: int, y: int, count: int) -> bool {
    forall|i: int| 0 <= i < count && i < objects.len() ==> !stands_at(#[trigger] objects[i], x, y)
}

/// The first of the objects that is a fighter on the cell `(x, y)`.
fn find_fighter_at(objects: &Vec<Object>, x: i32, y: i32) -> (found: Option<usize>)
    ensures
        match found {
            Some(i) => i < objects@.len() && stands_at(objects@[i as int], x as int, y as int)
                && no_fighter_at(objects@, x as int, y as int, i as int),
            None => no_fighter_at(objects@, x as int, y as int, objects@.len() as int),
        },
{
    let mut i: usize = 0;
    while i < objects.len()
        invariant
            i <= objects@.len(),
            no_fighter_at(objects@, x as int, y as int, i as int),
        decreases objects@.len() - i,
    {
        if objects[i].position.0 == x && objects[i].position.1 == y && objects[i].fighter.is_some() {
            return Some(i);
        }
        i = i + 1;
    }
    None
}

impl GameImpl {
    /// Draws the level into its console: the objects that are seen, and
    /// the background of every tile, lit where it is seen.
    pub fn init_level_buffer(&mut self, visible: &Visibility)
        requires
            old(self).wf(),
        ensures
            final(self).wf(),
            *final(self) == (GameImpl { console: final(self).console, ..*old(self) }),
            final(self).console@ == level_drawn(
                old(self).console@,
                old(self).objects@,
                old(self).map@,
                visible@,
            ),
    {
        let ghost start = self.console@;
        let cols = self.console.dimensions().0;
        let clear = colors::clear();
        self.console.clear();
        let mut drawn: usize = 0;
        while drawn < self.objects.len()
            invariant
                self.wf(),
                *self == (GameImpl { console: self.console, ..*old(self) }),
                self.console@.dimensions == start.dimensions,
                cols == start.dimensions.0,
                clear == colors::clear(),
                drawn <= self.objects@.len(),
                self.console@ == with_objects(start.clear(), self.objects@, visible@, drawn as int),
            decreases self.objects@.len() - drawn,
        {
            let layer: u32 = if self.objects[drawn].blocks {
                3
            } else {
                2
            };
            let place = self.objects[drawn].position;
            if visible.contains(place) {
                proof {
                    assert(object_in_order(self.objects@[drawn as int]@, self.map@));
                    lemma_cell_fits(
                        place.0 as int,
                        place.1 as int,
                        self.map@.len() as int,
                        self.map@[0]@.len() as int,
                        cols as int,
                    );
                }
                self.console.put_char(
                    self.objects[drawn].glyph,
                    place.0,
                    place.1,
                    self.objects[drawn].color,
                    Some(clear),
                    layer,
                );
            }
            drawn = drawn + 1;
        }
        let ghost peopled = self.console@;
        let mut x: usize = 0;
        while x < self.map.len()
            invariant
                self.wf(),
                *self == (GameImpl { console: self.console, ..*old(self) }),
                self.console@.dimensions == start.dimensions,
                cols == start.dimensions.0,
                clear == colors::clear(),
                x <= self.map@.len(),
                self.console@ == with_columns(peopled, self.map@, visible@, x as int),
            decreases self.map@.len() - x,
        {
            let ghost left = self.console@;
            let mut y: usize = 0;
            while y < self.map[x].len()
                invariant
                    self.wf(),
                    *self == (GameImpl { console: self.console, ..*old(self) }),
                    self.console@.dimensions == start.dimensions,
                    cols == start.dimensions.0,
                    clear == colors::clear(),
                    x < self.map@.len(),
                    y <= self.map@[x as int]@.len(),
                    self.console@ == with_column(left, self.map@[x as int]@, x as int, visible@, y as int),
                decreases self.map@[x as int]@.len() - y,
            {
                let lit = visible.contains((x as i32, y as i32));
                let color = if !self.map[x][y].block_sight {
                    if lit {
                        theme::color_light_floor()
                    } else {
                        theme::color_dark_floor()
                    }
                } else {
                    if lit {
                        theme::color_light_wall()
                    } else {
                        theme::color_dark_wall()
                    }
                };
                proof {
                    lemma_cell_fits(
                        x as int,
                        y as int,
                        self.map@.len() as int,
                        self.map@[0]@.len() as int,
                        cols as int,
                    );
                }
                self.console.put_char(' ', x as i32, y as i32, clear, Some(color), 1);
                y = y + 1;
            }
            x = x + 1;
        }
    }

    /// Draws the status console: the player's hit points in its status
    /// row.
    pub fn draw_status(&mut self)
        requires
            old(self).wf(),
        ensures
            final(self).wf(),
            *final(self) == (GameImpl { console_term: final(self).console_term, ..*old(self) }),
            final(self).console_term@ == status_drawn(old(self).console_term@, old(self).objects@[0]),
    {
        self.console_term.clear();
        match self.objects[0].fighter {
            Some(fighter) => {
                let mut text = String::from_str("HP: ");
                text.append(decimal_text(fighter.hp).as_str());
                text.append("/");
                text.append(decimal_text(fighter.max_hp).as_str());
                proof {
                    reveal_strlit("HP: ");
                    reveal_strlit("/");
                    assert(object_in_order(self.objects@[0]@, self.map@));
                    lemma_decimal_is_short(fighter.hp as int);
                    lemma_decimal_is_short(fighter.max_hp as int);
                    assert(text@ =~= status_line(fighter));
                    assert(text@.len() <= 21);
                    assert(STATUS_ROW * self.console_term@.dimensions.0 <= 7 * 0x1000_0000)
                        by (nonlinear_arith)
                        requires
                            self.console_term@.dimensions.0 <= 0x1000_0000,
                    ;
                }
                self.console_term.put_text(
                    &text,
                    0,
                    STATUS_ROW,
                    theme::player(),
                    Some(colors::clear()),
                    2,
                );
            },
            None => {},
        }
    }

    /// One frame of the game: the level is redrawn if something has moved,
    /// the status line is redrawn, and every console that can be shown is
    /// rendered.
    pub fn render(&mut self, visible: &Visibility) -> (frames: GameFrames)
        requires
            old(self).wf(),
        ensures
            final(self).wf(),
            !final(self).has_moved,
            final(self).map == old(self).map,
            final(self).objects == old(self).objects,
            final(self).inventory == old(self).inventory,
            final(self).game_over == old(self).game_over,
            console_renders(
                if old(self).has_moved {
                    level_drawn(old(self).console@, old(self).objects@, old(self).map@, visible@)
                } else {
                    old(self).console@
                },
                final(self).console@,
                frames.level,
            ),
            console_renders(
                status_drawn(old(self).console_term@, old(self).objects@[0]),
                final(self).console_term@,
                frames.status,
            ),
            final(self).message_log.log() == old(self).message_log.log(),
            final(self).message_log.rows() == old(self).message_log.rows(),
            old(self).message_log.renders(&final(self).message_log, frames.log),
            match old(self).active_menu {
                Some(menu) => {
                    &&& final(self).active_menu matches Some(shown)
                    &&& frames.menu matches Some(frame)
                    &&& shown.header() == menu.header()
                    &&& shown.options() == menu.options()
                    &&& console_renders(menu.screen()@, shown.screen()@, frame)
                },
                None => final(self).active_menu is None && frames.menu is None,
            },
    {
        if self.has_moved {
            self.init_level_buffer(visible);
            self.has_moved = false;
        }
        let level = self.console.checked_render();
        self.draw_status();
        let status = self.console_term.checked_render();
        let log = self.message_log.checked_render();
        let menu = match &mut self.active_menu {
            Some(menu) => Some(menu.checked_render()),
            None => None,
        };
        GameFrames { level, status, log, menu }
    }

    /// Marks every console as changed, so that each is uploaded anew with
    /// the next frame: after the window was resized, what was uploaded no
    /// longer fits.
    pub fn resize(&mut self)
        requires
            old(self).wf(),
        ensures
            final(self).wf(),
            final(self).has_moved == old(self).has_moved,
            final(self).map == old(self).map,
            final(self).objects == old(self).objects,
            final(self).inventory == old(self).inventory,
            final(self).console@ == (ConsoleView { dirty: true, ..old(self).console@ }),
            final(self).console_term@ == (ConsoleView { dirty: true, ..old(self).console_term@ }),
            final(self).game_over@ == (ConsoleView { dirty: true, ..old(self).game_over@ }),
            final(self).message_log.log() == old(self).message_log.log(),
            final(self).message_log.rows() == old(self).message_log.rows(),
            final(self).message_log.is_stale() == old(self).message_log.is_stale(),
            final(self).message_log.screen()@ == (ConsoleView {
                dirty: true,
                ..old(self).message_log.screen()@
            }),
            match old(self).active_menu {
                Some(menu) => {
                    &&& final(self).active_menu matches Some(marked)
                    &&& marked.header() == menu.header()
                    &&& marked.options() == menu.options()
                    &&& marked.screen()@ == (ConsoleView { dirty: true, ..menu.screen()@ })
                },
                None => final(self).active_menu is None,
            },
    {
        self.console.set_dirty();
        self.console_term.set_dirty();
        self.game_over.set_dirty();
        self.message_log.set_dirty();
        match &mut self.active_menu {
            Some(menu) => {
                menu.set_dirty();
            },
            None => {},
        }
    }

    /// This is `before` after the object `id` had its turn, with `step`
    /// as the step that leads it towards the player. An object without a
    /// mind of its own does nothing with its turn.
    pub open spec fn after_turn_of(&self, before: &GameImpl, id: int, step: (i32, i32)) -> bool {
        let objects = before.objects@;
        let monster = objects[id];
        let player = objects[0];
        &&& self.stage_kept(before)
        &&& self.has_moved == before.has_moved
        &&& self.inventory == before.inventory
        &&& self.active_menu == before.active_menu
        &&& self.objects@.len() == objects.len()
        &&& forall|i: int|
            0 < i < objects.len() && i != id ==> #[trigger] self.objects@[i] == objects[i]
        &&& if monster.ai is None {
            &&& self.objects@ == objects
            &&& self.message_log.heard(&before.message_log, Seq::empty())
        } else {
            match ai_choice(objects, id) {
                AiChoice::Approach => {
                    let x = monster.position.0 + step.0;
                    let y = monster.position.1 + step.1;
                    &&& self.objects@[id] == (if free(before.map@, x, y, objects) {
                        Object { position: (x as i32, y as i32), ..monster }
                    } else {
                        monster
                    })
                    &&& self.objects@[0] == player
                    &&& self.message_log.heard(&before.message_log, Seq::empty())
                },
                AiChoice::Attack => {
                    &&& self.objects@[id] == monster
                    &&& self.objects@[0]@ == monster@.struck(player@)
                    &&& self.message_log.heard(&before.message_log, monster@.fight_log(player@))
                },
                AiChoice::Wait => {
                    &&& self.objects@ == objects
                    &&& self.message_log.heard(&before.message_log, Seq::empty())
                },
            }
        }
    }

    /// This is `before` after the objects from the second to the one
    /// before `count` had their turns, one after the other.
    pub open spec fn after_turns(&self, before: &GameImpl, steps: Seq<(i32, i32)>, count: int) -> bool
        decreases count,
    {
        if count <= 1 {
            *self == *before
        } else {
            exists|between: GameImpl|
                {
                    &&& between.after_turns(before, steps, count - 1)
                    &&& #[trigger] self.after_turn_of(&between, count - 1, steps[count - 1])
                }
        }
    }

    /// The turn of the monsters: every object but the player that has a
    /// mind of its own moves or strikes, in the order of the list.
    /// `steps[i]` is the step that leads the object `i` towards the
    /// player.
    pub fn monsters_turn(&mut self, steps: &Vec<(i32, i32)>)
        requires
            old(self).wf(),
            steps@.len() == old(self).objects@.len(),
            forall|i: int|
                0 <= i < steps@.len() ==> -0x4000_0000 <= (#[trigger] steps@[i]).0 <= 0x4000_0000
                    && -0x4000_0000 <= steps@[i].1 <= 0x4000_0000,
        ensures
            final(self).wf(),
            final(self).after_turns(old(self), steps@, old(self).objects@.len() as int),
    {
        let mut id: usize = 1;
        while id < self.objects.len()
            invariant
                self.wf(),
                1 <= id <= self.objects@.len(),
                self.objects@.len() == old(self).objects@.len(),
                steps@.len() == self.objects@.len(),
                forall|i: int|
                    0 <= i < steps@.len() ==> -0x4000_0000 <= (#[trigger] steps@[i]).0
                        <= 0x4000_0000 && -0x4000_0000 <= steps@[i].1 <= 0x4000_0000,
                self.after_turns(old(self), steps@, id as int),
            decreases self.objects@.len() - id,
        {
            let ghost between = *self;
            if self.objects[id].ai.is_some() {
                proof {
                    assert(object_in_order(self.objects@[id as int]@, self.map@));
                    assert(object_in_order(self.objects@[0]@, self.map@));
                    assert(monster_in_order(self.objects@[id as int]@));
                }
                ai_take_turn(
                    id,
                    &self.map,
                    self.objects.as_mut_slice(),
                    steps[id],
                    &mut self.message_log,
                );
                proof {
                    assert forall|i: int| 0 <= i < self.objects@.len() implies object_in_order(
                        (#[trigger] self.objects@[i])@,
                        self.map@,
                    ) by {
                        if i != 0 && i != id {
                            assert(self.objects@[i] == between.objects@[i]);
                        }
                        assert(object_in_order(between.objects@[i]@, between.map@));
                    }
                    assert forall|i: int| 0 < i < self.objects@.len() implies monster_in_order(
                        (#[trigger] self.objects@[i])@,
                    ) by {
                        if i != id {
                            assert(self.objects@[i] == between.objects@[i]);
                        }
                        assert(monster_in_order(between.objects@[i]@));
                    }
                }
            }
            proof {
                let next = id as int + 1;
                assert(between.after_turns(old(self), steps@, next - 1));
                assert(self.after_turn_of(&between, next - 1, steps@[next - 1]));
            }
            id = id + 1;
        }
    }
}

} // verus!
