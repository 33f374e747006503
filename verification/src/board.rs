//! One game: the grid, whose turn it is, and how the game stands.

use crate::brain::{
    check_winner, lemma_empty_count_bounds, lemma_first_complete, minimax, outcome_of, search_of,
    SQUARES,
};
use crate::field::Field;
use crate::model::{GameMode, PlayerMode};
use crate::player::Player;
use vstd::prelude::*;

verus! {

/// How a game stands.
#[derive(Debug, Clone, Copy, PartialEq, Eq)]
pub enum BoardState {
    /// A player holds all three squares of a line; the line is given by its
    /// squares in ascending order.
    Winner(Player, (usize, usize, usize)),
    /// Every square is taken and nobody holds a line.
    Tie,
    /// Nobody holds a line and a square is still free.
    InGame,
}

/// One game of tic-tac-toe.
#[derive(Debug)]
pub struct Board {
    /// The nine squares, row by row.
    pub board: Vec<Field>,
    /// The side of the human who set the game up.
    pub player_1: Player,
    /// The other side; the computer's, where it takes part.
    pub player_2: Player,
    /// The player who is to move.
    pub current_player: Player,
    /// How the game stands on `board`.
    pub state: BoardState,
}

/// A `Board` with its squares as a sequence.
pub struct BoardView {
    pub cells: Seq<Field>,
    pub player_1: Player,
    pub player_2: Player,
    pub current_player: Player,
    pub state: BoardState,
}

impl View for Board {
    type V = BoardView;

    open spec fn view(&self) -> BoardView {
        BoardView {
            cells: self.board@,
            player_1: self.player_1,
            player_2: self.player_2,
            current_player: self.current_player,
            state: self.state,
        }
    }
}

impl BoardView {
    /// A game before its first move, set up by a human who chose `player_mode`:
    /// nine free squares, `Player1` to move.
    pub open spec fn fresh(player_mode: PlayerMode) -> BoardView {
        BoardView {
            cells: Seq::new(SQUARES as nat, |i: int| Field::Empty),
            player_1: Player::of_mode(player_mode),
            player_2: Player::of_mode(player_mode).other(),
            current_player: Player::Player1,
            state: BoardState::InGame,
        }
    }

    /// Whether a mark may be put on square `cell`: the game goes on, the square
    /// exists and is free.
    pub open spec fn accepts(self, cell: int) -> bool {
        &&& self.state is InGame
        &&& 0 <= cell < self.cells.len()
        &&& self.cells[cell] == Field::Empty
    }

    /// The game after the player to move has put a mark on square `cell`: the
    /// mark is there, the state is that of the new squares, and the turn has
    /// passed to the other player, also where the move has ended the game.
    pub open spec fn after_move(self, cell: int) -> BoardView {
        let cells = self.cells.update(cell, self.current_player.sigil());
        BoardView {
            cells,
            current_player: self.current_player.other(),
            state: outcome_of(cells),
            ..self
        }
    }

    /// The square that the search chooses for the player to move.
    pub open spec fn best_cell(self) -> int {
        search_of(self.cells, self.current_player, 0).position
    }
}

impl Board {
    /// What every game keeps: nine squares, two different sides, and a state
    /// that is the one of its squares.
    pub open spec fn wf(&self) -> bool {
        &&& self.board@.len() == SQUARES
        &&& self.player_2 == self.player_1.other()
        &&& self.state == outcome_of(self.board@)
    }

    /// Sets up a game for a human who chose `player_mode`.
    pub fn new(player_mode: PlayerMode) -> (game: Board)
        ensures
            game.wf(),
            game@ == BoardView::fresh(player_mode),
    {
        let player = Player::from(player_mode);
        let mut board: Vec<Field> = Vec::with_capacity(SQUARES);
        while board.len() < SQUARES
            invariant
                board@.len() <= SQUARES,
                forall|i: int| 0 <= i < board@.len() ==> board@[i] == Field::Empty,
            decreases SQUARES - board@.len(),
        {
            board.push(Field::Empty);
        }
        proof {
            assert(board@ =~= Seq::new(SQUARES as nat, |i: int| Field::Empty));
            assert(board@[0] == Field::Empty);
            lemma_first_complete(board@, 0);
        }
        Board {
            board,
            player_1: player,
            player_2: player.opponent(),
            current_player: Player::Player1,
            state: BoardState::InGame,
        }
    }

    /// Replaces this game by one before its first move, with no side chosen.
    pub fn reset(&mut self)
        ensures
            final(self).wf(),
            final(self)@ == BoardView::fresh(PlayerMode::PlayUndecided),
    {
        *self = Board::new(PlayerMode::PlayUndecided);
    }

    /// Lets the computer move for the player whose turn it is: on the square
    /// that the search chooses. A decided game is left as it is.
    pub fn computer_move(&mut self)
        requires
            old(self).wf(),
        ensures
            final(self).wf(),
            old(self).state is InGame ==> old(self)@.accepts(old(self)@.best_cell()),
            old(self).state is InGame ==> final(self)@ == old(self)@.after_move(
                old(self)@.best_cell(),
            ),
            !(old(self).state is InGame) ==> final(self)@ == old(self)@,
    {
        if let BoardState::InGame = self.state {
            proof {
                lemma_empty_count_bounds(self.board@);
            }
            let eval = minimax(self.state, self.board.as_slice(), self.current_player, 0);
            self.board[eval.position] = self.current_player.get_sigil();
            self.made_move();
        }
    }

    /// Closes a move whose mark is already on the grid: finds out how the game
    /// stands now, and passes the turn to the other player.
    pub fn made_move(&mut self)
        requires
            old(self).board@.len() == SQUARES,
        ensures
            final(self).board@ == old(self).board@,
            final(self).player_1 == old(self).player_1,
            final(self).player_2 == old(self).player_2,
            final(self).state == outcome_of(old(self).board@),
            final(self).current_player == old(self).current_player.other(),
    {
        self.state = check_winner(self.board.as_slice());
        self.current_player = self.current_player.opponent();
    }

    /// Puts the mark of the player to move on square `cell`, if the game goes
    /// on and the square exists and is free, and says whether it did. A move
    /// that is not accepted changes nothing.
    pub fn apply_move(&mut self, cell: usize) -> (moved: bool)
        requires
            old(self).wf(),
        ensures
            final(self).wf(),
            moved == old(self)@.accepts(cell as int),
            moved ==> final(self)@ == old(self)@.after_move(cell as int),
            moved ==> final(self).current_player == old(self).current_player.other(),
            !moved ==> final(self)@ == old(self)@,
    {
        if let BoardState::InGame = self.state {
            if cell < self.board.len() && self.board[cell] == Field::Empty {
                self.board[cell] = self.current_player.get_sigil();
                self.made_move();
                return true;
            }
        }
        false
    }

    /// Handles a click on square `location`: a move there, where the game
    /// accepts it. A click on an occupied square, outside the grid or on a
    /// decided game changes nothing: a decided game stays as it is until it is
    /// reset.
    pub fn register_click(&mut self, location: usize)
        requires
            old(self).wf(),
        ensures
            final(self).wf(),
            old(self)@.accepts(location as int) ==> final(self)@ == old(self)@.after_move(
                location as int,
            ),
            !old(self)@.accepts(location as int) ==> final(self)@ == old(self)@,
    {
        self.apply_move(location);
    }

    /// Tells whether the computer is to move now: it takes part in a game of
    /// kind `mode`, the game goes on, and it is the turn of the second side.
    pub fn computer_to_move(&self, mode: GameMode) -> (yes: bool)
        ensures
            yes == (mode.has_computer() && self.state is InGame && self.player_2
                == self.current_player),
    {
        if let BoardState::InGame = self.state {
            mode.with_computer() && self.player_2 == self.current_player
        } else {
            false
        }
    }
}

} // verus!
