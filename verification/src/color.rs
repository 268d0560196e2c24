//! Display colours attached to actors and log entries.
//!
//! The simulation never inspects a colour; it only names one and hands it on
//! to whatever draws the world, which decides how the name looks on screen.

use vstd::prelude::*;

verus! {

/// The palette the simulation draws from.
#[derive(Clone, Copy, Debug, PartialEq, Eq, Structural)]
pub enum Color {
    Black,
    White,
    LightGrey,
    Red,
    DarkRed,
    DarkerRed,
    LightRed,
    Orange,
    DarkerOrange,
    Yellow,
    LightYellow,
    LightGreen,
    DesaturatedGreen,
    DarkerGreen,
    LightCyan,
    Sky,
    LightBlue,
    Violet,
    LightViolet,
}

} // verus!
