//! How a game is set up: who plays, and which side a lone human takes.

use vstd::prelude::*;

verus! {

/// The side that the human takes in a game against the computer.
#[derive(Debug, Clone, Copy, PartialEq, Eq, Structural)]
pub enum PlayerMode {
    PlayX,
    PlayO,
    PlayUndecided,
}

/// The kind of game that is being played.
#[derive(Debug, Clone, Copy, PartialEq, Eq, Structural)]
pub enum GameMode {
    /// No kind of game has been chosen yet.
    Waiting,
    /// One human against the computer, the human on the given side.
    SinglePlayer(PlayerMode),
    /// Two humans who take turns.
    TwoPlayer,
}

impl GameMode {
    /// Whether the computer takes part: a single-player game whose human has
    /// chosen a side.
    pub open spec fn has_computer(self) -> bool {
        self == GameMode::SinglePlayer(PlayerMode::PlayX) || self == GameMode::SinglePlayer(
            PlayerMode::PlayO,
        )
    }

    /// Decides whether the computer takes part in a game of this kind.
    pub fn with_computer(&self) -> (yes: bool)
        ensures
            yes == self.has_computer(),
    {
        match self {
            GameMode::SinglePlayer(PlayerMode::PlayX) => true,
            GameMode::SinglePlayer(PlayerMode::PlayO) => true,
            _ => false,
        }
    }
}

} // verus!
