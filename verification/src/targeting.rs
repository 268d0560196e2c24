//! Choosing a target with the mouse.
//!
//! Targeting is an exchange with the user: the caller polls for input,
//! records it in an [`Input`], redraws, and asks [`target_tile`] or
//! [`target_monster`] whether the choice has been made. While the answer
//! is [`Targeting::Pending`] the caller goes round again; there is no
//! time limit and no way out but a choice or an explicit cancel.

use vstd::prelude::*;
use crate::constants::{MAP_HEIGHT, MAP_WIDTH, PLAYER};
use crate::game::Fov;
use crate::object::{dist_sq, Object};

verus! {

/// What the simulation reads of the mouse: the tile under the cursor and
/// whether a button has just been pressed.
#[derive(Clone, Copy, Debug, PartialEq, Eq, Structural)]
pub struct Mouse {
    pub cx: i32,
    pub cy: i32,
    pub lbutton_pressed: bool,
    pub rbutton_pressed: bool,
}

/// One input event, as far as targeting cares.
#[derive(Clone, Copy, Debug, PartialEq, Eq, Structural)]
pub enum InputEvent {
    Mouse(Mouse),
    /// A key press; `escape` tells whether it was the cancel key.
    Key { escape: bool },
}

/// The latest mouse state and key press seen.
#[derive(Clone, Copy, Debug, PartialEq, Eq, Structural)]
pub struct Input {
    pub mouse: Mouse,
    pub escape: bool,
}

/// The state of a choice in progress.
#[derive(Clone, Copy, Debug, PartialEq, Eq)]
pub enum Targeting<T> {
    /// No decision yet; poll for more input.
    Pending,
    Chosen(T),
    Cancelled,
}

impl Input {
    /// The input state after the given poll result: a mouse event replaces
    /// the mouse state, a key event replaces the key, and a poll that
    /// found nothing forgets the key.
    pub open spec fn after(self, event: Option<InputEvent>) -> Input {
        match event {
            Some(InputEvent::Mouse(mouse)) => Input { mouse, ..self },
            Some(InputEvent::Key { escape }) => Input { escape, ..self },
            None => Input { escape: false, ..self },
        }
    }

    /// An input state in which nothing has happened yet.
    pub fn new() -> (input: Input)
        ensures
            input == (Input {
                mouse: Mouse { cx: 0, cy: 0, lbutton_pressed: false, rbutton_pressed: false },
                escape: false,
            }),
    {
        Input {
            mouse: Mouse { cx: 0, cy: 0, lbutton_pressed: false, rbutton_pressed: false },
            escape: false,
        }
    }

    /// Records the result of one poll.
    pub fn record(&mut self, event: Option<InputEvent>)
        ensures
            *final(self) == old(self).after(event),
    {
        match event {
            Some(InputEvent::Mouse(mouse)) => {
                self.mouse = mouse;
            },
            Some(InputEvent::Key { escape }) => {
                self.escape = escape;
            },
            None => {
                self.escape = false;
            },
        }
    }
}

/// Whether a squared distance is within `range` tiles. No tile is within a
/// negative range.
pub open spec fn within_range(distance_squared: int, range: int) -> bool {
    range >= 0 && distance_squared <= range * range
}

/// Computes [`within_range`].
pub fn is_within_range(distance_squared: i128, range: i32) -> (within: bool)
    requires
        distance_squared >= 0,
    ensures
        within == within_range(distance_squared as int, range as int),
{
    if range < 0 {
        return false;
    }
    let r: i128 = range as i128;
    assert(0 <= r * r <= 0x8000_0000 * 0x8000_0000) by (nonlinear_arith)
        requires
            0 <= r <= 0x8000_0000,
    ;
    distance_squared <= r * r
}

/// Whether the tile under the cursor may be chosen: it lies in the level,
/// is in view, and is within the range, if there is one, of the player.
pub open spec fn can_choose(input: Input, fov: Fov, player: Object, max_range: Option<i32>)
    -> bool {
    let x = input.mouse.cx as int;
    let y = input.mouse.cy as int;
    &&& x < MAP_WIDTH
    &&& y < MAP_HEIGHT
    &&& fov.sees(x, y)
    &&& max_range matches Some(range) ==> within_range(
        dist_sq(player.x as int, player.y as int, x, y),
        range as int,
    )
}

/// How the choice of a tile stands: a left click on a tile that may be
/// chosen chooses it; failing that, a right click or the cancel key
/// cancels; failing that, the choice is still open.
pub open spec fn tile_targeting(input: Input, fov: Fov, player: Object, max_range: Option<i32>)
    -> Targeting<(i32, i32)> {
    if input.mouse.lbutton_pressed && can_choose(input, fov, player, max_range) {
        Targeting::Chosen((input.mouse.cx, input.mouse.cy))
    } else if input.mouse.rbutton_pressed || input.escape {
        Targeting::Cancelled
    } else {
        Targeting::Pending
    }
}

/// Judges the choice of a tile after the latest input; see
/// [`tile_targeting`].
pub fn target_tile(input: &Input, fov: &Fov, objects: &[Object], max_range: Option<i32>) -> (state:
    Targeting<(i32, i32)>)
    requires
        objects@.len() >= 1,
    ensures
        state == tile_targeting(*input, *fov, objects@[0], max_range),
{
    let (x, y) = (input.mouse.cx, input.mouse.cy);
    let in_fov = (x < MAP_WIDTH) && (y < MAP_HEIGHT) && fov.is_in_fov(x, y);
    let in_range = match max_range {
        Some(range) => is_within_range(objects[PLAYER].distance_squared(x, y), range),
        None => true,
    };
    if input.mouse.lbutton_pressed && in_fov && in_range {
        return Targeting::Chosen((x, y));
    }
    if input.mouse.rbutton_pressed || input.escape {
        return Targeting::Cancelled;
    }
    Targeting::Pending
}

/// Whether the actor at index `id` can be targeted on `(x, y)`: it stands
/// there, can fight, and is not the player.
pub open spec fn is_target_at(objects: Seq<Object>, id: int, x: int, y: int) -> bool {
    &&& 0 <= id < objects.len()
    &&& id != PLAYER
    &&& objects[id].is_at(x, y)
    &&& objects[id].fighter is Some
}

/// Whether the actor at index `id` is the first that can be targeted on
/// `(x, y)`.
pub open spec fn is_first_target_at(objects: Seq<Object>, id: int, x: int, y: int) -> bool {
    &&& is_target_at(objects, id, x, y)
    &&& forall|j: int| 0 <= j < id ==> !#[trigger] is_target_at(objects, j, x, y)
}

/// Whether nobody can be targeted on `(x, y)`.
pub open spec fn no_target_at(objects: Seq<Object>, x: int, y: int) -> bool {
    forall|j: int| 0 <= j < objects.len() ==> !#[trigger] is_target_at(objects, j, x, y)
}

/// The first actor that can be targeted on `(x, y)`, if there is one.
pub fn first_target_at(objects: &[Object], x: i32, y: i32) -> (found: Option<usize>)
    ensures
        match found {
            Some(id) => is_first_target_at(objects@, id as int, x as int, y as int),
            None => no_target_at(objects@, x as int, y as int),
        },
{
    let mut id: usize = 0;
    while id < objects.len()
        invariant
            id <= objects@.len(),
            forall|j: int| 0 <= j < id ==> !#[trigger] is_target_at(objects@, j, x as int, y as int),
        decreases objects@.len() - id,
    {
        if objects[id].x == x && objects[id].y == y && objects[id].fighter.is_some() && id
            != PLAYER {
            return Some(id);
        }
        id += 1;
    }
    None
}

/// Judges the choice of a monster after the latest input. The choice is
/// made when a tile has been chosen on which somebody can be targeted, and
/// it falls on the first such actor of the registry. A chosen tile with
/// nobody to target does not cancel; the choice stays open.
pub fn target_monster(input: &Input, fov: &Fov, objects: &[Object], max_range: Option<i32>) -> (state:
    Targeting<usize>)
    requires
        objects@.len() >= 1,
    ensures
        match tile_targeting(*input, *fov, objects@[0], max_range) {
            Targeting::Chosen((x, y)) => match state {
                Targeting::Chosen(id) => is_first_target_at(objects@, id as int, x as int, y as int),
                Targeting::Pending => no_target_at(objects@, x as int, y as int),
                Targeting::Cancelled => false,
            },
            Targeting::Cancelled => state is Cancelled,
            Targeting::Pending => state is Pending,
        },
{
    match target_tile(input, fov, objects, max_range) {
        Targeting::Chosen((x, y)) => match first_target_at(objects, x, y) {
            Some(id) => Targeting::Chosen(id),
            None => Targeting::Pending,
        },
        Targeting::Cancelled => Targeting::Cancelled,
        Targeting::Pending => Targeting::Pending,
    }
}

} // verus!
