//! The state of a run besides the actors of the current level, and the
//! player's field of view.

use vstd::prelude::*;
use crate::combat::{fits_i32, is_i32};
use crate::constants::{LEVEL_UP_BASE, LEVEL_UP_FACTOR};
use crate::map::TileMap;
use crate::messages::{Message, Messages};
use crate::object::{Fighter, Object};

verus! {

/// Everything a run carries besides the registry of the current level.
#[derive(Debug)]
pub struct Game {
    pub map: TileMap,
    pub messages: Messages,
    /// What the player carries, in the order it was picked up.
    pub inventory: Vec<Object>,
    pub dungeon_level: u32,
}

/// The tiles the player can currently see, one flag per tile:
/// `visible[x][y]` tells whether the tile in column `x`, row `y` is in
/// view. Computing the flags from the walls of the level is left to the
/// caller; the simulation only reads them.
#[derive(Debug)]
pub struct Fov {
    pub visible: Vec<Vec<bool>>,
}

impl Fov {
    /// Whether the tile is in view. Tiles outside the grid never are.
    pub open spec fn sees(self, x: int, y: int) -> bool {
        0 <= x < self.visible@.len() && 0 <= y < self.visible@[x]@.len() && self.visible@[x]@[y]
    }

    /// A field of view of the given size in which nothing is visible.
    pub fn new(width: usize, height: usize) -> (fov: Fov)
        ensures
            fov.visible@.len() == width,
            forall|x: int| 0 <= x < width ==> (#[trigger] fov.visible@[x])@.len() == height,
            forall|x: int, y: int| !fov.sees(x, y),
    {
        let mut visible: Vec<Vec<bool>> = Vec::new();
        let mut x: usize = 0;
        while x < width
            invariant
                x <= width,
                visible@.len() == x,
                forall|cx: int| 0 <= cx < x ==> (#[trigger] visible@[cx])@.len() == height,
                forall|cx: int, cy: int|
                    0 <= cx < x && 0 <= cy < height ==> !(#[trigger] visible@[cx]@[cy]),
            decreases width - x,
        {
            let mut column: Vec<bool> = Vec::new();
            let mut y: usize = 0;
            while y < height
                invariant
                    y <= height,
                    column@.len() == y,
                    forall|cy: int| 0 <= cy < y ==> !(#[trigger] column@[cy]),
                decreases height - y,
            {
                column.push(false);
                y += 1;
            }
            visible.push(column);
            x += 1;
        }
        Fov { visible }
    }

    /// Whether the tile is in view. Tiles outside the grid never are.
    pub fn is_in_fov(&self, x: i32, y: i32) -> (seen: bool)
        ensures
            seen == self.sees(x as int, y as int),
    {
        if x < 0 || y < 0 {
            return false;
        }
        let column = x as usize;
        let row = y as usize;
        column < self.visible.len() && row < self.visible[column].len()
            && self.visible[column][row]
    }

    /// Records whether the tile is in view.
    pub fn set(&mut self, x: usize, y: usize, seen: bool)
        requires
            x < old(self).visible@.len(),
            y < old(self).visible@[x as int]@.len(),
        ensures
            final(self).visible@.len() == old(self).visible@.len(),
            forall|cx: int|
                0 <= cx < old(self).visible@.len() ==> (#[trigger] final(self).visible@[cx])@.len()
                    == old(self).visible@[cx]@.len(),
            forall|cx: int, cy: int|
                final(self).sees(cx, cy) == (if cx == x && cy == y {
                    seen
                } else {
                    old(self).sees(cx, cy)
                }),
    {
        self.visible[x][y] = seen;
    }
}

/// The experience an actor of the given level needs to reach the next.
pub open spec fn level_up_xp(level: int) -> int {
    LEVEL_UP_BASE + level * LEVEL_UP_FACTOR
}

impl Object {
    /// Whether the actor has gathered the experience its next level
    /// takes.
    pub open spec fn level_up_due(self) -> bool {
        self.fighter matches Some(fighter) && fighter.xp >= level_up_xp(self.level as int)
    }

    /// The actor one level up: the experience the level took is spent.
    pub open spec fn levelled_up(self) -> Object {
        Object {
            level: (self.level + 1) as i32,
            fighter: Some(
                Fighter {
                    xp: (self.fighter->0.xp - level_up_xp(self.level as int)) as i32,
                    ..self.fighter->0
                },
            ),
            ..self
        }
    }

    /// What the machine's number range demands of raising the level.
    pub open spec fn level_up_in_range(self) -> bool {
        &&& fits_i32(level_up_xp(self.level as int))
        &&& self.level_up_due() ==> fits_i32(self.level + 1) && fits_i32(
            self.fighter->0.xp - level_up_xp(self.level as int),
        )
    }

    /// Whether [`Self::level_up`] can be asked; see
    /// [`Self::level_up_in_range`].
    pub fn level_up_fits(&self) -> (fits: bool)
        ensures
            fits == self.level_up_in_range(),
    {
        let level = self.level as i128;
        assert(-0x8000_0000 * 150 <= level * LEVEL_UP_FACTOR <= 0x8000_0000 * 150)
            by (nonlinear_arith)
            requires
                -0x8000_0000 <= level <= 0x8000_0000,
                LEVEL_UP_FACTOR == 150,
        ;
        let needed: i128 = LEVEL_UP_BASE as i128 + level * LEVEL_UP_FACTOR as i128;
        if !is_i32(needed) {
            return false;
        }
        match self.fighter {
            Some(fighter) => if fighter.xp as i128 >= needed {
                is_i32(self.level as i128 + 1) && is_i32(fighter.xp as i128 - needed)
            } else {
                true
            },
            None => true,
        }
    }

    /// Raises the actor's level if it has gathered the experience the
    /// next level takes, which is spent on it, and tells whether it did.
    /// The reward for the new level is for the caller to hand out.
    pub fn level_up(&mut self, messages: &mut Messages) -> (raised: bool)
        requires
            old(self).level_up_in_range(),
        ensures
            raised == old(self).level_up_due(),
            raised ==> *final(self) == old(self).levelled_up() && final(messages)@ == old(
                messages,
            )@.push(Message::LevelUp { level: final(self).level }),
            !raised ==> *final(self) == *old(self) && final(messages)@ == old(messages)@,
    {
        let level_up_xp: i64 = LEVEL_UP_BASE as i64 + self.level as i64 * LEVEL_UP_FACTOR as i64;
        match self.fighter {
            Some(fighter) => {
                if fighter.xp as i64 >= level_up_xp {
                    self.level += 1;
                    messages.add(Message::LevelUp { level: self.level });
                    self.fighter = Some(
                        Fighter { xp: (fighter.xp as i64 - level_up_xp) as i32, ..fighter },
                    );
                    true
                } else {
                    false
                }
            },
            None => false,
        }
    }
}

} // verus!
