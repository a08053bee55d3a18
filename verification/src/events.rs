//! Notifications that the simulation hands to whoever presents the game.

use vstd::prelude::*;

verus! {

/// A new game was asked for.
#[derive(Clone, Copy, Debug, PartialEq, Eq, Structural)]
pub struct GameStartRequested {}

/// The game has ended, won or lost, with the score it ended on.
#[derive(Clone, Copy, Debug, PartialEq, Eq, Structural)]
pub struct GameOver {
    pub score: u32,
    pub won: bool,
}

} // verus!
