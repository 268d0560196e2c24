//! Actors and their optional components.
//!
//! Every entity of a level (the player, monsters, items on the floor, the
//! stairs) is an [`Object`]; what it can do follows from the components it
//! carries. An actor is identified by its index in the registry, and index
//! [`PLAYER`](crate::constants::PLAYER) is always the player.

use vstd::prelude::*;
use crate::color::Color;
use crate::messages::{Message, Messages};

verus! {

/// What happens to an actor when its hit points run out.
#[derive(Clone, Copy, Debug, PartialEq, Eq, Structural)]
pub enum DeathCallback {
    Player,
    Monster,
}

/// The combat-capable component of an actor.
#[derive(Clone, Copy, Debug, PartialEq, Eq, Structural)]
pub struct Fighter {
    pub base_max_hp: i32,
    pub hp: i32,
    pub base_defense: i32,
    pub base_power: i32,
    /// Experience granted to whoever kills this actor; for the player, the
    /// experience gathered so far.
    pub xp: i32,
    pub on_death: DeathCallback,
}

/// The behaviour of a monster.
///
/// `Confused` and `Frozen` are temporary: each owns the behaviour that was
/// in force before it and hands it back when its counter runs out.
#[derive(Debug, PartialEq, Eq)]
pub enum Ai {
    Basic,
    Confused { previous_ai: Box<Ai>, num_turns: i32 },
    Frozen { previous_ai: Box<Ai>, num_turns: i32 },
}

/// The kinds of item; the kind selects the effect of using it.
#[derive(Clone, Copy, Debug, PartialEq, Eq, Structural)]
pub enum Item {
    Heal,
    Lightning,
    Confuse,
    Fireball,
    Blink,
    Freeze,
    Sword,
    Shield,
}

/// Where a piece of equipment is worn.
#[derive(Clone, Copy, Debug, PartialEq, Eq, Structural)]
pub enum Slot {
    LeftHand,
    RightHand,
}

/// The equipment component of an item that can be worn.
#[derive(Clone, Copy, Debug, PartialEq, Eq, Structural)]
pub struct Equipment {
    pub slot: Slot,
    pub equipped: bool,
    pub max_hp_bonus: i32,
    pub defense_bonus: i32,
    pub power_bonus: i32,
}

/// One entity of the level.
#[derive(Debug, PartialEq, Eq)]
pub struct Object {
    pub x: i32,
    pub y: i32,
    pub glyph: char,
    pub color: Color,
    pub name: String,
    /// Whether the actor occupies its tile, so that nothing else can enter.
    pub blocks: bool,
    pub alive: bool,
    /// Whether the actor stays on screen once its tile has been explored.
    pub always_visible: bool,
    pub level: i32,
    pub fighter: Option<Fighter>,
    pub ai: Option<Ai>,
    pub item: Option<Item>,
    pub equipment: Option<Equipment>,
}

/// Squared Euclidean distance between two tiles.
pub open spec fn dist_sq(x1: int, y1: int, x2: int, y2: int) -> int {
    (x1 - x2) * (x1 - x2) + (y1 - y2) * (y1 - y2)
}

/// Computes [`dist_sq`] without overflow for any pair of tiles.
pub fn distance_squared(x1: i32, y1: i32, x2: i32, y2: i32) -> (d: i128)
    ensures
        d == dist_sq(x1 as int, y1 as int, x2 as int, y2 as int),
        d >= 0,
{
    let dx: i128 = x1 as i128 - x2 as i128;
    let dy: i128 = y1 as i128 - y2 as i128;
    assert(0 <= dx * dx <= 0x1_0000_0000 * 0x1_0000_0000) by (nonlinear_arith)
        requires
            -0x1_0000_0000 <= dx <= 0x1_0000_0000,
    ;
    assert(0 <= dy * dy <= 0x1_0000_0000 * 0x1_0000_0000) by (nonlinear_arith)
        requires
            -0x1_0000_0000 <= dy <= 0x1_0000_0000,
    ;
    dx * dx + dy * dy
}

impl Slot {
    /// A short description of the slot for display.
    pub fn label(&self) -> (s: &'static str)
        ensures
            s@ == (match *self {
                Slot::LeftHand => "left hand"@,
                Slot::RightHand => "right hand"@,
            }),
    {
        match self {
            Slot::LeftHand => "left hand",
            Slot::RightHand => "right hand",
        }
    }
}

impl Ai {
    /// Whether this behaviour is a temporary effect laid over another one.
    pub open spec fn is_effect(self) -> bool {
        self is Confused || self is Frozen
    }

    /// An effect wraps a plain behaviour, never another effect.
    pub open spec fn well_formed(self) -> bool {
        match self {
            Ai::Basic => true,
            Ai::Confused { previous_ai, .. } => !previous_ai.is_effect(),
            Ai::Frozen { previous_ai, .. } => !previous_ai.is_effect(),
        }
    }

    /// The behaviour that is left once a temporary effect is taken away.
    pub open spec fn underlying(self) -> Ai {
        match self {
            Ai::Basic => Ai::Basic,
            Ai::Confused { previous_ai, .. } => *previous_ai,
            Ai::Frozen { previous_ai, .. } => *previous_ai,
        }
    }

    /// Takes a temporary effect away and returns what it was laid over.
    pub fn into_underlying(self) -> (ai: Ai)
        ensures
            ai == self.underlying(),
    {
        match self {
            Ai::Basic => Ai::Basic,
            Ai::Confused { previous_ai, num_turns: _ } => *previous_ai,
            Ai::Frozen { previous_ai, num_turns: _ } => *previous_ai,
        }
    }
}

impl Object {
    /// A fresh actor without components: not alive, not always visible, at
    /// level 1.
    pub fn new(x: i32, y: i32, glyph: char, color: Color, name: &str, blocks: bool) -> (object:
        Object)
        ensures
            object.x == x,
            object.y == y,
            object.glyph == glyph,
            object.color == color,
            object.name@ == name@,
            object.blocks == blocks,
            !object.alive,
            !object.always_visible,
            object.level == 1,
            object.fighter is None,
            object.ai is None,
            object.item is None,
            object.equipment is None,
    {
        Object {
            x,
            y,
            glyph,
            color,
            name: name.to_owned(),
            blocks,
            alive: false,
            always_visible: false,
            level: 1,
            fighter: None,
            ai: None,
            item: None,
            equipment: None,
        }
    }

    /// The tile the actor stands on.
    pub fn pos(&self) -> (p: (i32, i32))
        ensures
            p == (self.x, self.y),
    {
        (self.x, self.y)
    }

    /// Moves the actor to the given tile without any collision check.
    pub fn set_pos(&mut self, x: i32, y: i32)
        ensures
            *final(self) == (Object { x, y, ..*old(self) }),
    {
        self.x = x;
        self.y = y;
    }

    /// Whether the actor stands on the given tile.
    pub open spec fn is_at(self, x: int, y: int) -> bool {
        self.x == x && self.y == y
    }

    /// Squared distance from the actor to a tile.
    pub fn distance_squared(&self, x: i32, y: i32) -> (d: i128)
        ensures
            d == dist_sq(self.x as int, self.y as int, x as int, y as int),
            d >= 0,
    {
        distance_squared(self.x, self.y, x, y)
    }

    /// Squared distance from the actor to another one.
    pub fn distance_squared_to(&self, other: &Object) -> (d: i128)
        ensures
            d == dist_sq(self.x as int, self.y as int, other.x as int, other.y as int),
            d >= 0,
    {
        distance_squared(self.x, self.y, other.x, other.y)
    }

    /// The actor once its equipment has been put on: only the `equipped`
    /// flag changes, and only if the actor is equipment at all.
    pub open spec fn equipped_as(self, on: bool) -> Object {
        match self.equipment {
            Some(e) => Object { equipment: Some(Equipment { equipped: on, ..e }), ..self },
            None => self,
        }
    }

    /// Whether the actor is a piece of equipment that is currently worn.
    pub open spec fn is_equipped(self) -> bool {
        self.equipment matches Some(e) && e.equipped
    }

    /// Whether the actor is a worn piece of equipment in the given slot.
    pub open spec fn is_equipped_in(self, slot: Slot) -> bool {
        self.equipment matches Some(e) && e.equipped && e.slot == slot
    }

    /// Puts the equipment on and notes it in the log. Nothing happens if the
    /// actor is no equipment or is worn already.
    pub fn equip(&mut self, messages: &mut Messages)
        ensures
            old(self).equipment is Some && !old(self).is_equipped() ==> {
                &&& *final(self) == old(self).equipped_as(true)
                &&& final(messages)@ == old(messages)@.push(
                    Message::Equipped {
                        name: old(self).name,
                        slot: old(self).equipment->0.slot,
                    },
                )
            },
            old(self).equipment is None || old(self).is_equipped() ==> {
                &&& *final(self) == *old(self)
                &&& final(messages)@ == old(messages)@
            },
    {
        match self.equipment {
            Some(equipment) => {
                if !equipment.equipped {
                    self.equipment = Some(Equipment { equipped: true, ..equipment });
                    messages.add(
                        Message::Equipped { name: self.name.clone(), slot: equipment.slot },
                    );
                }
            },
            None => {},
        }
    }

    /// Takes the equipment off and notes it in the log. Nothing happens if
    /// the actor is no equipment or is not worn.
    pub fn dequip(&mut self, messages: &mut Messages)
        ensures
            old(self).is_equipped() ==> {
                &&& *final(self) == old(self).equipped_as(false)
                &&& final(messages)@ == old(messages)@.push(
                    Message::Dequipped {
                        name: old(self).name,
                        slot: old(self).equipment->0.slot,
                    },
                )
            },
            !old(self).is_equipped() ==> {
                &&& *final(self) == *old(self)
                &&& final(messages)@ == old(messages)@
            },
    {
        match self.equipment {
            Some(equipment) => {
                if equipment.equipped {
                    self.equipment = Some(Equipment { equipped: false, ..equipment });
                    messages.add(
                        Message::Dequipped { name: self.name.clone(), slot: equipment.slot },
                    );
                }
            },
            None => {},
        }
    }
}

} // verus!
