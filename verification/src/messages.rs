//! The message log.
//!
//! Everything the simulation wants to tell the player is recorded as a
//! structured [`Message`]; turning an entry into text is left to whoever
//! shows the log.

use vstd::prelude::*;
use crate::color::Color;
use crate::object::Slot;

verus! {

/// One entry of the log.
#[derive(Clone, Debug, PartialEq, Eq)]
pub enum Message {
    /// A melee hit that did damage.
    Attack { attacker: String, target: String, damage: i32 },
    /// A melee hit that was fully absorbed by the target's defense.
    AttackNoEffect { attacker: String, target: String },
    PlayerDied,
    MonsterDied { name: String, xp: i32 },
    NoLongerConfused { name: String },
    NoLongerFrozen { name: String },
    Equipped { name: String, slot: Slot },
    Dequipped { name: String, slot: Slot },
    Spawned { name: String, x: i32, y: i32 },
    NoSpawnPosition,
    Dropped { name: String },
    PickedUp { name: String },
    InventoryFull { name: String },
    Cancelled,
    CannotUse { name: String },
    AlreadyFullHealth,
    WoundsHealed,
    LightningStrike { name: String, damage: i32 },
    LightningNoTarget,
    ConfuseApplied { name: String },
    ConfuseNoTarget,
    FireballPrompt,
    FireballExplodes { radius: i32 },
    FireballBurns { name: String, damage: i32 },
    BlinkPrompt,
    BlinkCancelled,
    BlinkBlocked,
    BlinkDone,
    FreezeApplied { name: String },
    FreezeNoTarget,
    LevelUp { level: i32 },
}

impl Message {
    /// The colour an entry is shown in.
    pub open spec fn spec_color(self) -> Color {
        match self {
            Message::Attack { .. } => Color::White,
            Message::AttackNoEffect { .. } => Color::White,
            Message::PlayerDied => Color::Red,
            Message::MonsterDied { .. } => Color::Orange,
            Message::NoLongerConfused { .. } => Color::Red,
            Message::NoLongerFrozen { .. } => Color::Red,
            Message::Equipped { .. } => Color::LightGreen,
            Message::Dequipped { .. } => Color::LightYellow,
            Message::Spawned { .. } => Color::LightCyan,
            Message::NoSpawnPosition => Color::Red,
            Message::Dropped { .. } => Color::Yellow,
            Message::PickedUp { .. } => Color::LightGreen,
            Message::InventoryFull { .. } => Color::Red,
            Message::Cancelled => Color::White,
            Message::CannotUse { .. } => Color::White,
            Message::AlreadyFullHealth => Color::Red,
            Message::WoundsHealed => Color::LightViolet,
            Message::LightningStrike { .. } => Color::LightBlue,
            Message::LightningNoTarget => Color::Red,
            Message::ConfuseApplied { .. } => Color::LightGreen,
            Message::ConfuseNoTarget => Color::Red,
            Message::FireballPrompt => Color::LightCyan,
            Message::FireballExplodes { .. } => Color::Orange,
            Message::FireballBurns { .. } => Color::Orange,
            Message::BlinkPrompt => Color::LightCyan,
            Message::BlinkCancelled => Color::White,
            Message::BlinkBlocked => Color::Red,
            Message::BlinkDone => Color::LightGreen,
            Message::FreezeApplied { .. } => Color::LightBlue,
            Message::FreezeNoTarget => Color::Red,
            Message::LevelUp { .. } => Color::Yellow,
        }
    }

    /// The colour an entry is shown in.
    pub fn color(&self) -> (c: Color)
        ensures
            c == self.spec_color(),
    {
        match self {
            Message::Attack { .. } => Color::White,
            Message::AttackNoEffect { .. } => Color::White,
            Message::PlayerDied => Color::Red,
            Message::MonsterDied { .. } => Color::Orange,
            Message::NoLongerConfused { .. } => Color::Red,
            Message::NoLongerFrozen { .. } => Color::Red,
            Message::Equipped { .. } => Color::LightGreen,
            Message::Dequipped { .. } => Color::LightYellow,
            Message::Spawned { .. } => Color::LightCyan,
            Message::NoSpawnPosition => Color::Red,
            Message::Dropped { .. } => Color::Yellow,
            Message::PickedUp { .. } => Color::LightGreen,
            Message::InventoryFull { .. } => Color::Red,
            Message::Cancelled => Color::White,
            Message::CannotUse { .. } => Color::White,
            Message::AlreadyFullHealth => Color::Red,
            Message::WoundsHealed => Color::LightViolet,
            Message::LightningStrike { .. } => Color::LightBlue,
            Message::LightningNoTarget => Color::Red,
            Message::ConfuseApplied { .. } => Color::LightGreen,
            Message::ConfuseNoTarget => Color::Red,
            Message::FireballPrompt => Color::LightCyan,
            Message::FireballExplodes { .. } => Color::Orange,
            Message::FireballBurns { .. } => Color::Orange,
            Message::BlinkPrompt => Color::LightCyan,
            Message::BlinkCancelled => Color::White,
            Message::BlinkBlocked => Color::Red,
            Message::BlinkDone => Color::LightGreen,
            Message::FreezeApplied { .. } => Color::LightBlue,
            Message::FreezeNoTarget => Color::Red,
            Message::LevelUp { .. } => Color::Yellow,
        }
    }
}

/// The log itself: entries in the order they were added.
#[derive(Debug, PartialEq, Eq)]
pub struct Messages {
    pub messages: Vec<Message>,
}

impl View for Messages {
    type V = Seq<Message>;

    open spec fn view(&self) -> Seq<Message> {
        self.messages@
    }
}

impl Messages {
    /// An empty log.
    pub fn new() -> (log: Messages)
        ensures
            log@ == Seq::<Message>::empty(),
    {
        Messages { messages: Vec::new() }
    }

    /// Appends an entry.
    pub fn add(&mut self, message: Message)
        ensures
            final(self)@ == old(self)@.push(message),
    {
        self.messages.push(message);
    }

    /// Number of entries.
    pub fn len(&self) -> (n: usize)
        ensures
            n == self@.len(),
    {
        self.messages.len()
    }
}

} // verus!
