//! Tic-tac-toe: the state of one game, the rule that decides when it is over,
//! and an exhaustive search for the best move of the player whose turn it is.

pub mod board;
pub mod brain;
pub mod eval;
pub mod field;
pub mod model;
pub mod player;

pub use field::Field;
