//! What stands on the map: the player, monsters and items, and how they
//! fight.

use vstd::prelude::*;
use crate::color::Color;
use crate::map::{free, move_by, TileMap};
use crate::numeric::{clamp, clamped};
use crate::theme;
use crate::widgets::scrolling_message_console::{lemma_log_after_more, ScrollingMessageConsole};

verus! {

/// Two distinct elements of a slice, both open for change at once.
pub fn mut_two<T>(first_index: usize, second_index: usize, items: &mut [T]) -> (pair: (
    &mut T,
    &mut T,
))
    requires
        first_index != second_index,
        first_index < old(items)@.len(),
        second_index < old(items)@.len(),
    ensures
        *pair.0 == old(items)@[first_index as int],
        *pair.1 == old(items)@[second_index as int],
        final(items)@ == old(items)@.update(first_index as int, *final(pair.0)).update(
            second_index as int,
            *final(pair.1),
        ),
{
    let split_at_index = if first_index < second_index {
        second_index
    } else {
        first_index
    };
    let (first_slice, second_slice) = items.split_at_mut(split_at_index);
    if first_index < second_index {
        (&mut first_slice[first_index], &mut second_slice[0])
    } else {
        (&mut second_slice[0], &mut first_slice[second_index])
    }
}

/// What an item does when it is used.
#[derive(Clone, Copy, Debug, PartialEq, Eq, Structural)]
pub enum Item {
    Heal,
    Lightning,
}

/// What follows the death of a fighter.
#[derive(Clone, Copy, Debug, PartialEq, Eq, Structural)]
pub enum DeathCallback {
    Player,
    Monster,
}

/// The part of an object that can fight.
#[derive(Clone, Copy, Debug, PartialEq, Eq, Structural)]
pub struct Fighter {
    pub max_hp: i32,
    pub hp: i32,
    pub defense: i32,
    pub power: i32,
    pub on_death: DeathCallback,
}

/// The mark of an object that moves by itself.
#[derive(Clone, Copy, Debug, PartialEq, Eq, Structural)]
pub struct Ai;

#[derive(Debug)]
pub struct Object {
    pub position: (i32, i32),
    pub glyph: char,
    pub color: Color,
    pub name: String,
    pub blocks: bool,
    pub alive: bool,
    pub fighter: Option<Fighter>,
    pub ai: Option<Ai>,
    pub item: Option<Item>,
}

/// An object with its name as a sequence of characters.
pub struct ObjectView {
    pub position: (i32, i32),
    pub glyph: char,
    pub color: Color,
    pub name: Seq<char>,
    pub blocks: bool,
    pub alive: bool,
    pub fighter: Option<Fighter>,
    pub ai: Option<Ai>,
    pub item: Option<Item>,
}

impl View for Object {
    type V = ObjectView;

    open spec fn view(&self) -> ObjectView {
        ObjectView {
            position: self.position,
            glyph: self.glyph,
            color: self.color,
            name: self.name@,
            blocks: self.blocks,
            alive: self.alive,
            fighter: self.fighter,
            ai: self.ai,
            item: self.item,
        }
    }
}

/// The colour of what a dead fighter leaves behind.
pub open spec fn spec_remains_color() -> Color {
    Color { red: 120, green: 30, blue: 30, alpha: 255 }
}

/// The colour of what a dead fighter leaves behind.
#[verifier::when_used_as_spec(spec_remains_color)]
pub fn remains_color() -> (color: Color)
    ensures
        color == spec_remains_color(),
{
    Color::from_int(120, 30, 30, 255)
}

impl ObjectView {
    /// The object after `damage` was taken off its hit points. Damage that
    /// is not positive, and damage to what cannot fight, does nothing.
    pub open spec fn wounded(self, damage: int) -> ObjectView {
        match self.fighter {
            Some(fighter) => if damage > 0 {
                ObjectView {
                    fighter: Some(Fighter { hp: (fighter.hp - damage) as i32, ..fighter }),
                    ..self
                }
            } else {
                self
            },
            None => self,
        }
    }

    /// Whether the object is a fighter without hit points.
    pub open spec fn is_spent(self) -> bool {
        self.fighter matches Some(fighter) && fighter.hp <= 0
    }

    /// A spent fighter after its death: the player turns into remains; a
    /// monster turns into remains that neither block, fight nor move.
    pub open spec fn dead(self) -> ObjectView {
        match self.fighter {
            Some(Fighter { on_death: DeathCallback::Monster, .. }) => ObjectView {
                alive: false,
                glyph: '%',
                color: remains_color(),
                blocks: false,
                fighter: None,
                ai: None,
                name: "remains of "@ + self.name,
                ..self
            },
            _ => ObjectView { alive: false, glyph: '%', color: remains_color(), ..self },
        }
    }

    /// What the log says of a spent fighter's death.
    pub open spec fn obituary(self) -> (Seq<char>, Color) {
        match self.fighter {
            Some(Fighter { on_death: DeathCallback::Monster, .. }) => (
                self.name + " is dead!"@,
                theme::green_alert_text(),
            ),
            _ => ("You died!"@, theme::red_alert_text()),
        }
    }

    /// The object after it took `damage`: wounded, and dead if that left it
    /// spent.
    pub open spec fn damaged(self, damage: int) -> ObjectView {
        if self.wounded(damage).is_spent() {
            self.wounded(damage).dead()
        } else {
            self.wounded(damage)
        }
    }

    /// The object after `amount` hit points were given back to it, as far
    /// as its maximum allows.
    pub open spec fn healed(self, amount: int) -> ObjectView {
        match self.fighter {
            Some(fighter) => ObjectView {
                fighter: Some(
                    Fighter { hp: clamped(fighter.hp + amount, 0, fighter.max_hp as int) as i32, ..fighter },
                ),
                ..self
            },
            None => self,
        }
    }

    /// What the log is told when the object takes `damage`: of its death,
    /// if that leaves it spent, and else nothing.
    pub open spec fn last_words(self, damage: int) -> Seq<(Seq<char>, Color)> {
        if self.wounded(damage).is_spent() {
            seq![self.wounded(damage).obituary()]
        } else {
            Seq::empty()
        }
    }

    /// The damage of one blow of this object against `target`.
    pub open spec fn blow(self, target: ObjectView) -> int {
        self.power() - target.defense()
    }

    /// What the log is told of one blow of this object against `target`.
    pub open spec fn report(self, target: ObjectView) -> (Seq<char>, Color) {
        if self.blow(target) > 0 {
            (
                self.name + " attacks "@ + target.name + " for "@ + decimal(self.blow(target))
                    + " hit points."@,
                theme::regular_alert_text(),
            )
        } else {
            (
                self.name + " attacks "@ + target.name + " but it has no effect!"@,
                theme::regular_alert_text(),
            )
        }
    }

    /// `target` after one blow of this object.
    pub open spec fn struck(self, target: ObjectView) -> ObjectView {
        if self.blow(target) > 0 {
            target.damaged(self.blow(target))
        } else {
            target
        }
    }

    /// What the log is told of one blow of this object against `target`,
    /// and of the death of `target` if it dies of it.
    pub open spec fn fight_log(self, target: ObjectView) -> Seq<(Seq<char>, Color)> {
        if self.blow(target) > 0 {
            seq![self.report(target)] + target.last_words(self.blow(target))
        } else {
            seq![self.report(target)]
        }
    }

    /// The power of the object's blows; 0 for what cannot fight.
    pub open spec fn power(self) -> int {
        match self.fighter {
            Some(fighter) => fighter.power as int,
            None => 0,
        }
    }

    /// What is taken off each blow against the object; 0 for what cannot
    /// fight.
    pub open spec fn defense(self) -> int {
        match self.fighter {
            Some(fighter) => fighter.defense as int,
            None => 0,
        }
    }
}

/// The character of the digit `d`.
pub open spec fn digit(d: int) -> char {
    if d == 0 {
        '0'
    } else if d == 1 {
        '1'
    } else if d == 2 {
        '2'
    } else if d == 3 {
        '3'
    } else if d == 4 {
        '4'
    } else if d == 5 {
        '5'
    } else if d == 6 {
        '6'
    } else if d == 7 {
        '7'
    } else if d == 8 {
        '8'
    } else {
        '9'
    }
}

/// The decimal digits of a natural number, without leading zeros.
pub open spec fn digits(n: nat) -> Seq<char>
    decreases n,
{
    if n < 10 {
        seq![digit(n as int)]
    } else {
        digits(n / 10).push(digit((n % 10) as int))
    }
}

/// An integer as it is written in decimal.
pub open spec fn decimal(value: int) -> Seq<char> {
    if value < 0 {
        seq!['-'] + digits((-value) as nat)
    } else {
        digits(value as nat)
    }
}

/// A number below ten million, or above minus ten million, is written
/// with no more than eight characters.
pub proof fn lemma_decimal_is_short(value: int)
    requires
        -10_000_000 < value < 10_000_000,
    ensures
        1 <= decimal(value).len() <= 8,
{
    let n: nat = if value < 0 {
        (-value) as nat
    } else {
        value as nat
    };
    assert(digits(n).len() <= 7) by {
        reveal_with_fuel(digits, 8);
    }
    assert(digits(n).len() >= 1) by {
        reveal_with_fuel(digits, 2);
    }
}

fn digit_text(d: u32) -> (text: &'static str)
    requires
        d < 10,
    ensures
        text@ == seq![digit(d as int)],
{
    proof {
        reveal_strlit("0");
        reveal_strlit("1");
        reveal_strlit("2");
        reveal_strlit("3");
        reveal_strlit("4");
        reveal_strlit("5");
        reveal_strlit("6");
        reveal_strlit("7");
        reveal_strlit("8");
        reveal_strlit("9");
    }
    let text = if d == 0 {
        "0"
    } else if d == 1 {
        "1"
    } else if d == 2 {
        "2"
    } else if d == 3 {
        "3"
    } else if d == 4 {
        "4"
    } else if d == 5 {
        "5"
    } else if d == 6 {
        "6"
    } else if d == 7 {
        "7"
    } else if d == 8 {
        "8"
    } else {
        "9"
    };
    assert(text@ =~= seq![digit(d as int)]);
    text
}

fn natural_text(n: u32) -> (text: String)
    ensures
        text@ == digits(n as nat),
    decreases n,
{
    if n < 10 {
        String::from_str(digit_text(n))
    } else {
        let mut text = natural_text(n / 10);
        text.append(digit_text(n % 10));
        assert(text@ =~= digits((n / 10) as nat).push(digit((n % 10) as int)));
        text
    }
}

/// `value` as it is written in decimal.
pub fn decimal_text(value: i32) -> (text: String)
    ensures
        text@ == decimal(value as int),
{
    if value < 0 {
        let magnitude: u32 = (0 - (value as i64)) as u32;
        let mut text = String::from_str("-");
        let written = natural_text(magnitude);
        text.append(written.as_str());
        proof {
            reveal_strlit("-");
            assert(text@ =~= seq!['-'] + digits((-value) as nat));
        }
        text
    } else {
        natural_text(value as u32)
    }
}

impl Object {
    pub fn new(position: (i32, i32), glyph: char, color: Color, name: &str, blocks: bool) -> (object:
        Object)
        ensures
            object@ == (ObjectView {
                position,
                glyph,
                color,
                name: name@,
                blocks,
                alive: true,
                fighter: None,
                ai: None,
                item: None,
            }),
    {
        Object {
            position,
            glyph,
            color,
            blocks,
            name: name.to_owned(),
            alive: true,
            fighter: None,
            ai: None,
            item: None,
        }
    }

    /// Takes `damage` off the hit points of a fighter. A fighter that is
    /// left without hit points dies: the log is told, and the object
    /// becomes its remains.
    pub fn take_damage(&mut self, damage: i32, messages: &mut ScrollingMessageConsole)
        requires
            old(messages).wf(),
            damage > 0 ==> (old(self).fighter matches Some(fighter) ==> fighter.hp - damage
                >= i32::MIN),
        ensures
            final(messages).wf(),
            final(self)@ == old(self)@.damaged(damage as int),
            final(messages).heard(old(messages), old(self)@.last_words(damage as int)),
    {
        match self.fighter {
            Some(fighter) => {
                if damage > 0 {
                    self.fighter = Some(Fighter { hp: fighter.hp - damage, ..fighter });
                }
            },
            None => {},
        }
        match self.fighter {
            Some(fighter) => {
                if fighter.hp <= 0 {
                    self.alive = false;
                    fighter.on_death.callback(self, messages);
                }
            },
            None => {},
        }
    }

    /// One blow against `target`: its damage is this object's power less
    /// the target's defense. The log is told of the blow; a blow that does
    /// damage wounds the target.
    pub fn attack(&self, target: &mut Object, messages: &mut ScrollingMessageConsole)
        requires
            old(messages).wf(),
            i32::MIN <= self@.blow(old(target)@) <= i32::MAX,
            self@.blow(old(target)@) > 0 ==> (old(target).fighter matches Some(fighter)
                ==> fighter.hp - self@.blow(old(target)@) >= i32::MIN),
        ensures
            final(messages).wf(),
            final(target)@ == self@.struck(old(target)@),
            final(messages).heard(old(messages), self@.fight_log(old(target)@)),
    {
        let power = match self.fighter {
            Some(fighter) => fighter.power,
            None => 0,
        };
        let defense = match target.fighter {
            Some(fighter) => fighter.defense,
            None => 0,
        };
        let damage = power - defense;
        let mut text = self.name.clone();
        text.append(" attacks ");
        text.append(target.name.as_str());
        if damage > 0 {
            text.append(" for ");
            text.append(decimal_text(damage).as_str());
            text.append(" hit points.");
            messages.add_message(text.as_str());
            target.take_damage(damage, messages);
            proof {
                lemma_log_after_more(
                    old(messages).log(),
                    seq![self@.report(old(target)@)],
                    old(target)@.last_words(damage as int),
                    old(messages).rows() as int,
                );
            }
        } else {
            text.append(" but it has no effect!");
            messages.add_message(text.as_str());
        }
    }

    /// Gives `amount` hit points back to a fighter, as far as its maximum
    /// allows.
    pub fn heal(&mut self, amount: i32)
        requires
            old(self).fighter matches Some(fighter) ==> 0 <= fighter.max_hp && i32::MIN
                <= fighter.hp + amount <= i32::MAX,
        ensures
            final(self)@ == old(self)@.healed(amount as int),
    {
        match self.fighter {
            Some(fighter) => {
                self.fighter = Some(
                    Fighter {
                        hp: clamp((fighter.hp + amount) as i64, 0, fighter.max_hp as i64) as i32,
                        ..fighter
                    },
                );
            },
            None => {},
        }
    }

    /// Whether `other` is less than two cells away, as the crow flies:
    /// on this object's cell or on one of the eight around it.
    pub fn touches(&self, other: &Object) -> (near: bool)
        ensures
            near == (distance_squared(self.position, other.position) < 4),
    {
        let dx: i64 = other.position.0 as i64 - self.position.0 as i64;
        let dy: i64 = other.position.1 as i64 - self.position.1 as i64;
        assert((-1 <= dx <= 1 && -1 <= dy <= 1) <==> dx * dx + dy * dy < 4) by (nonlinear_arith);
        -1 <= dx && dx <= 1 && -1 <= dy && dy <= 1
    }
}

impl DeathCallback {
    /// What follows the death of `object`, a fighter that dies this way.
    fn callback(self, object: &mut Object, messages: &mut ScrollingMessageConsole)
        requires
            old(messages).wf(),
            old(object).fighter matches Some(fighter) && fighter.on_death == self,
        ensures
            final(messages).wf(),
            final(object)@ == (ObjectView { alive: final(object).alive, ..old(object)@.dead() }),
            final(object).alive == old(object).alive,
            final(messages).heard(old(messages), seq![old(object)@.obituary()]),
    {
        match self {
            DeathCallback::Player => player_death(object, messages),
            DeathCallback::Monster => monster_death(object, messages),
        }
    }
}

fn player_death(player: &mut Object, messages: &mut ScrollingMessageConsole)
    requires
        old(messages).wf(),
    ensures
        final(messages).wf(),
        final(player)@ == (ObjectView { glyph: '%', color: remains_color(), ..old(player)@ }),
        final(messages).heard(old(messages), seq![("You died!"@, theme::red_alert_text())]),
{
    messages.add_colored_message("You died!", theme::red_alert_text());
    player.glyph = '%';
    player.color = remains_color();
}

fn monster_death(monster: &mut Object, messages: &mut ScrollingMessageConsole)
    requires
        old(messages).wf(),
    ensures
        final(messages).wf(),
        final(monster)@ == (ObjectView {
            glyph: '%',
            color: remains_color(),
            blocks: false,
            fighter: None,
            ai: None,
            name: "remains of "@ + old(monster)@.name,
            ..old(monster)@
        }),
        final(messages).heard(
            old(messages),
            seq![(old(monster)@.name + " is dead!"@, theme::green_alert_text())],
        ),
{
    let mut text = monster.name.clone();
    text.append(" is dead!");
    messages.add_colored_message(text.as_str(), theme::green_alert_text());
    monster.glyph = '%';
    monster.color = remains_color();
    monster.blocks = false;
    monster.fighter = None;
    monster.ai = None;
    let mut name = String::from_str("remains of ");
    name.append(monster.name.as_str());
    monster.name = name;
}

/// What a monster does with its turn.
#[derive(Clone, Copy, Debug, PartialEq, Eq, Structural)]
pub enum AiChoice {
    /// Step towards the player, who is two cells away or more.
    Approach,
    /// Strike the player, who is near and has hit points left.
    Attack,
    /// Do nothing: the player is near, but there is no one left to strike.
    Wait,
}

/// What the monster `monster_id` does with its turn; the player is the
/// first of the objects.
pub open spec fn ai_choice(objects: Seq<Object>, monster_id: int) -> AiChoice {
    if distance_squared(objects[monster_id].position, objects[0].position) >= 4 {
        AiChoice::Approach
    } else if objects[0].fighter matches Some(fighter) && fighter.hp > 0 {
        AiChoice::Attack
    } else {
        AiChoice::Wait
    }
}

/// The turn of the monster `monster_id`. A monster that is two cells or
/// more from the player moves by `step`, which its caller has worked out as
/// the step that leads towards the player, if the cell it would come to can
/// be entered. A monster that is nearer strikes the player, if the player
/// has hit points left.
pub fn ai_take_turn(
    monster_id: usize,
    map: &TileMap,
    objects: &mut [Object],
    step: (i32, i32),
    messages: &mut ScrollingMessageConsole,
)
    requires
        old(messages).wf(),
        monster_id < old(objects)@.len(),
        ai_choice(old(objects)@, monster_id as int) == AiChoice::Attack ==> {
            let monster = old(objects)@[monster_id as int]@;
            let player = old(objects)@[0]@;
            &&& monster_id != 0
            &&& i32::MIN <= monster.blow(player) <= i32::MAX
            &&& monster.blow(player) > 0 ==> player.fighter->0.hp - monster.blow(player) >= i32::MIN
        },
        ai_choice(old(objects)@, monster_id as int) == AiChoice::Approach ==> {
            let x = old(objects)@[monster_id as int].position.0 + step.0;
            let y = old(objects)@[monster_id as int].position.1 + step.1;
            &&& i32::MIN <= x <= i32::MAX
            &&& i32::MIN <= y <= i32::MAX
            &&& map@.len() <= i32::MAX
            &&& map@.len() > 0 ==> map@[0]@.len() <= i32::MAX
            &&& 0 <= x < map@.len() && 0 <= y < map@[0]@.len() ==> y < map@[x]@.len()
        },
    ensures
        final(messages).wf(),
        final(objects)@.len() == old(objects)@.len(),
        forall|i: int|
            0 < i < old(objects)@.len() && i != monster_id ==> final(objects)@[i] == old(objects)@[i],
        match ai_choice(old(objects)@, monster_id as int) {
            AiChoice::Approach => {
                let monster = old(objects)@[monster_id as int];
                let x = monster.position.0 + step.0;
                let y = monster.position.1 + step.1;
                &&& final(objects)@[monster_id as int] == (if free(map@, x, y, old(objects)@) {
                    Object { position: (x as i32, y as i32), ..monster }
                } else {
                    monster
                })
                &&& monster_id != 0 ==> final(objects)@[0] == old(objects)@[0]
                &&& final(messages).heard(old(messages), Seq::empty())
            },
            AiChoice::Attack => {
                let monster = old(objects)@[monster_id as int];
                let player = old(objects)@[0];
                &&& final(objects)@[monster_id as int] == monster
                &&& final(objects)@[0]@ == monster@.struck(player@)
                &&& final(messages).heard(old(messages), monster@.fight_log(player@))
            },
            AiChoice::Wait => {
                &&& final(objects)@ == old(objects)@
                &&& final(messages).heard(old(messages), Seq::empty())
            },
        },
{
    if !objects[monster_id].touches(&objects[0]) {
        move_by(monster_id, step.0, step.1, map, objects);
    } else if is_fit(&objects[0]) {
        let (monster, player) = mut_two(monster_id, 0, objects);
        monster.attack(player, messages);
    } else {
        assert(objects@ =~= old(objects)@);
    }
}

/// Whether the object is a fighter with hit points left.
fn is_fit(object: &Object) -> (fit: bool)
    ensures
        fit == (object.fighter matches Some(fighter) && fighter.hp > 0),
{
    match object.fighter {
        Some(fighter) => fighter.hp > 0,
        None => false,
    }
}

/// The square of the distance between two cells.
pub open spec fn distance_squared(from: (i32, i32), to: (i32, i32)) -> int {
    (to.0 - from.0) * (to.0 - from.0) + (to.1 - from.1) * (to.1 - from.1)
}

} // verus!
