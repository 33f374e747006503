//! The result of a search: a square and the score that playing it secures.

use vstd::prelude::*;

verus! {

/// A square together with the score that the search found for it.
#[derive(Debug, Clone, Copy, PartialEq, Eq, Structural)]
pub struct Eval {
    pub position: usize,
    pub score: i64,
}

/// An `Eval` as mathematical integers.
pub struct EvalView {
    pub position: int,
    pub score: int,
}

impl View for Eval {
    type V = EvalView;

    open spec fn view(&self) -> EvalView {
        EvalView { position: self.position as int, score: self.score as int }
    }
}

impl Eval {
    /// Pairs a square with its score.
    pub fn new(position: usize, score: i64) -> (eval: Eval)
        ensures
            eval.position == position,
            eval.score == score,
    {
        Eval { position, score }
    }
}

} // verus!
