//! The two players, and the mark that each of them places.

use crate::field::Field;
use crate::model::PlayerMode;
use vstd::prelude::*;

verus! {

/// One of the two sides. `Player1` places `X` and moves first.
#[derive(Debug, Clone, Copy, PartialEq, Eq, Structural)]
pub enum Player {
    Player1,
    Player2,
}

impl Player {
    /// The mark that this player places.
    pub open spec fn sigil(self) -> Field {
        match self {
            Player::Player1 => Field::X,
            Player::Player2 => Field::O,
        }
    }

    /// The other player.
    pub open spec fn other(self) -> Player {
        match self {
            Player::Player1 => Player::Player2,
            Player::Player2 => Player::Player1,
        }
    }

    /// The side that a human who chose `mode` plays: `Player1` for `X`,
    /// `Player2` for `O` and while no side is chosen.
    pub open spec fn of_mode(mode: PlayerMode) -> Player {
        match mode {
            PlayerMode::PlayX => Player::Player1,
            PlayerMode::PlayO => Player::Player2,
            PlayerMode::PlayUndecided => Player::Player2,
        }
    }

    /// Returns the mark that this player places.
    pub fn get_sigil(&self) -> (mark: Field)
        ensures
            mark == self.sigil(),
            mark != Field::Empty,
    {
        match self {
            Player::Player1 => Field::X,
            Player::Player2 => Field::O,
        }
    }

    /// Returns the other player.
    pub fn opponent(self) -> (them: Player)
        ensures
            them == self.other(),
    {
        match self {
            Player::Player1 => Player::Player2,
            Player::Player2 => Player::Player1,
        }
    }
}

impl Default for Player {
    /// The player who moves first.
    fn default() -> (first: Player)
        ensures
            first == Player::Player1,
    {
        Player::Player1
    }
}

impl From<PlayerMode> for Player {
    fn from(mode: PlayerMode) -> (side: Player) {
        match mode {
            PlayerMode::PlayX => Player::Player1,
            PlayerMode::PlayO => Player::Player2,
            PlayerMode::PlayUndecided => Player::Player2,
        }
    }
}

impl vstd::std_specs::convert::FromSpecImpl<PlayerMode> for Player {
    open spec fn obeys_from_spec() -> bool {
        true
    }

    open spec fn from_spec(mode: PlayerMode) -> Player {
        Player::of_mode(mode)
    }
}

impl core::ops::Neg for Player {
    type Output = Player;

    fn neg(self) -> (them: Player) {
        self.opponent()
    }
}

impl vstd::std_specs::ops::NegSpecImpl for Player {
    open spec fn obeys_neg_spec() -> bool {
        true
    }

    open spec fn neg_req(self) -> bool {
        true
    }

    open spec fn neg_spec(self) -> Player {
        self.other()
    }
}

/// Taking the other player twice gives the first one back.
pub proof fn lemma_other_is_involution(player: Player)
    ensures
        player.other().other() == player,
        player.other() != player,
{
}

/// The two players place different marks, and neither mark is the empty square.
pub proof fn lemma_sigils_differ(player: Player)
    ensures
        player.sigil() != Field::Empty,
        player.sigil() != player.other().sigil(),
{
}

} // verus!
