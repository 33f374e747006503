//! The content of one square of the grid.

use vstd::prelude::*;

verus! {

/// What a square holds: nothing, or the mark of one of the two players.
#[derive(Debug, Clone, Copy, PartialEq, Eq, Structural)]
pub enum Field {
    Empty,
    X,
    O,
}

} // verus!
