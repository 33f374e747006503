//! The rules that decide a game, and the exhaustive search for the best move.

use crate::board::BoardState;
use crate::eval::{Eval, EvalView};
use crate::field::Field;
use crate::player::Player;
use vstd::prelude::*;

verus! {

/// The number of lines that win a game: three rows, three columns, two diagonals.
pub const LINE_COUNT: usize = 8;

/// The number of squares of the grid, which is numbered row by row from 0.
pub const SQUARES: usize = 9;

/// The `k`-th winning line: rows first, then columns, then the two diagonals.
pub open spec fn line(k: int) -> (usize, usize, usize) {
    if k == 0 {
        (0, 1, 2)
    } else if k == 1 {
        (3, 4, 5)
    } else if k == 2 {
        (6, 7, 8)
    } else if k == 3 {
        (0, 3, 6)
    } else if k == 4 {
        (1, 4, 7)
    } else if k == 5 {
        (2, 5, 8)
    } else if k == 6 {
        (0, 4, 8)
    } else {
        (2, 4, 6)
    }
}

/// Whether the three squares of `l` hold one and the same mark.
pub open spec fn completes(cells: Seq<Field>, l: (usize, usize, usize)) -> bool {
    &&& cells[l.0 as int] != Field::Empty
    &&& cells[l.0 as int] == cells[l.1 as int]
    &&& cells[l.1 as int] == cells[l.2 as int]
}

/// The player whose mark is `mark`. The empty square belongs to nobody; it is
/// given to `Player2` so that the function is total.
pub open spec fn owner(mark: Field) -> Player {
    if mark == Field::X {
        Player::Player1
    } else {
        Player::Player2
    }
}

/// The first complete line among those numbered `from` and above, if any.
pub open spec fn first_complete(cells: Seq<Field>, from: int) -> Option<int>
    decreases LINE_COUNT - from,
{
    if from < 0 || from >= LINE_COUNT {
        None
    } else if completes(cells, line(from)) {
        Some(from)
    } else {
        first_complete(cells, from + 1)
    }
}

/// How a game with these squares stands. A complete line wins for the player
/// whose mark fills it; where several lines are complete, the first in the
/// order of `line` is reported. Without a complete line the game is a tie once
/// no square is free, and goes on until then.
pub open spec fn outcome_of(cells: Seq<Field>) -> BoardState {
    match first_complete(cells, 0) {
        Some(k) => BoardState::Winner(owner(cells[line(k).0 as int]), line(k)),
        None => if cells.contains(Field::Empty) {
            BoardState::InGame
        } else {
            BoardState::Tie
        },
    }
}

/// `first_complete` finds a complete line, the first one from `from` on, and
/// finds none only where there is none.
pub proof fn lemma_first_complete(cells: Seq<Field>, from: int)
    requires
        0 <= from <= LINE_COUNT,
    ensures
        match first_complete(cells, from) {
            Some(k) => {
                &&& from <= k < LINE_COUNT
                &&& completes(cells, line(k))
                &&& forall|j: int| from <= j < k ==> !completes(cells, #[trigger] line(j))
            },
            None => forall|j: int| from <= j < LINE_COUNT ==> !completes(cells, #[trigger] line(j)),
        },
    decreases LINE_COUNT - from,
{
    if from < LINE_COUNT && !completes(cells, line(from)) {
        lemma_first_complete(cells, from + 1);
    }
}

/// Returns the `k`-th winning line.
fn line_at(k: usize) -> (l: (usize, usize, usize))
    requires
        k < LINE_COUNT,
    ensures
        l == line(k as int),
        l.0 < SQUARES,
        l.1 < SQUARES,
        l.2 < SQUARES,
{
    if k == 0 {
        (0, 1, 2)
    } else if k == 1 {
        (3, 4, 5)
    } else if k == 2 {
        (6, 7, 8)
    } else if k == 3 {
        (0, 3, 6)
    } else if k == 4 {
        (1, 4, 7)
    } else if k == 5 {
        (2, 5, 8)
    } else if k == 6 {
        (0, 4, 8)
    } else {
        (2, 4, 6)
    }
}

/// Tells whether a square of `board` is free.
fn has_empty(board: &[Field]) -> (found: bool)
    ensures
        found == board@.contains(Field::Empty),
{
    let mut i: usize = 0;
    while i < board.len()
        invariant
            i <= board@.len(),
            forall|j: int| 0 <= j < i ==> board@[j] != Field::Empty,
        decreases board@.len() - i,
    {
        if board[i] == Field::Empty {
            return true;
        }
        i += 1;
    }
    false
}

/// Decides how a game with these nine squares stands.
pub fn check_winner(board: &[Field]) -> (state: BoardState)
    requires
        board@.len() == SQUARES,
    ensures
        state == outcome_of(board@),
{
    let mut k: usize = 0;
    while k < LINE_COUNT
        invariant
            k <= LINE_COUNT,
            board@.len() == SQUARES,
            first_complete(board@, 0) == first_complete(board@, k as int),
        decreases LINE_COUNT - k,
    {
        let l = line_at(k);
        if board[l.0] == board[l.1] && board[l.1] == board[l.2] {
            if board[l.0] == Field::X {
                return BoardState::Winner(Player::Player1, l);
            } else if board[l.0] == Field::O {
                return BoardState::Winner(Player::Player2, l);
            }
        }
        k += 1;
    }
    if has_empty(board) {
        BoardState::InGame
    } else {
        BoardState::Tie
    }
}

/// The number of free squares.
pub open spec fn empty_count(cells: Seq<Field>) -> nat
    decreases cells.len(),
{
    if cells.len() == 0 {
        0
    } else {
        empty_count(cells.drop_last()) + if cells.last() == Field::Empty {
            1nat
        } else {
            0nat
        }
    }
}

/// The squares after `player` has put a mark on square `i`.
pub open spec fn place(cells: Seq<Field>, i: int, player: Player) -> Seq<Field> {
    cells.update(i, player.sigil())
}

/// Whether `player`, who holds a move of score `held`, gives it up for a move
/// on a later square of score `fresh`. A line of `Player1` scores below zero
/// and a line of `Player2` above, so `Player1` is after the smallest score and
/// `Player2` after the largest. Among equal scores `Player1` takes the last
/// square and `Player2` the first.
pub open spec fn prefers(player: Player, fresh: int, held: int) -> bool {
    match player {
        Player::Player1 => fresh <= held,
        Player::Player2 => fresh > held,
    }
}

/// The score that `player` gets by putting a mark on the free square `i` at
/// `depth`: what the search finds for the opponent one move deeper.
pub open spec fn reply_score(cells: Seq<Field>, player: Player, depth: int, i: int) -> int
    decreases empty_count(cells), 0int, 0int,
{
    if 0 <= i < cells.len() && cells[i] == Field::Empty {
        proof {
            lemma_mark_reduces_empties(cells, i, player.sigil());
        }
        search_of(place(cells, i, player), player.other(), depth + 1).score
    } else {
        0
    }
}

/// The move that `player` likes best among the free squares below `n`, with its
/// score; `None` where no square below `n` is free.
pub open spec fn best_among(cells: Seq<Field>, player: Player, depth: int, n: int) -> Option<
    EvalView,
>
    decreases empty_count(cells), 1int, n,
{
    if n <= 0 || n > cells.len() {
        None
    } else if cells[n - 1] != Field::Empty {
        best_among(cells, player, depth, n - 1)
    } else {
        let fresh = EvalView { position: n - 1, score: reply_score(cells, player, depth, n - 1) };
        match best_among(cells, player, depth, n - 1) {
            Some(held) => if prefers(player, fresh.score, held.score) {
                Some(fresh)
            } else {
                Some(held)
            },
            None => Some(fresh),
        }
    }
}

/// What the search returns for `player`, who is to move at `depth`.
///
/// A decided game has the score 0 for a tie, `depth - 10` where `Player1` has
/// won and `10 - depth` where `Player2` has won, and the square 0, which means
/// nothing there. In a game that goes on, every free square is tried, the
/// opponent answers in the same way one move deeper, and the result is the
/// square that `player` likes best (see `prefers`) with its score.
///
/// `Player1` is after the smallest score and `Player2` after the largest, so
/// each player goes for a line of their own, the sooner the better, and where
/// the other player's line cannot be stopped, puts it off for as long as
/// possible.
pub open spec fn search_of(cells: Seq<Field>, player: Player, depth: int) -> EvalView
    decreases empty_count(cells), 2int, 0int,
{
    match outcome_of(cells) {
        BoardState::Tie => EvalView { position: 0, score: 0 },
        BoardState::Winner(Player::Player1, _) => EvalView { position: 0, score: depth - 10 },
        BoardState::Winner(Player::Player2, _) => EvalView { position: 0, score: 10 - depth },
        BoardState::InGame => match best_among(cells, player, depth, cells.len() as int) {
            Some(best) => best,
            None => EvalView { position: 0, score: 0 },
        },
    }
}

/// A mark on a free square leaves one free square fewer.
pub proof fn lemma_mark_reduces_empties(cells: Seq<Field>, i: int, mark: Field)
    requires
        0 <= i < cells.len(),
        cells[i] == Field::Empty,
        mark != Field::Empty,
    ensures
        empty_count(cells.update(i, mark)) + 1 == empty_count(cells),
    decreases cells.len(),
{
    let marked = cells.update(i, mark);
    if i == cells.len() - 1 {
        assert(marked.drop_last() =~= cells.drop_last());
    } else {
        lemma_mark_reduces_empties(cells.drop_last(), i, mark);
        assert(marked.drop_last() =~= cells.drop_last().update(i, mark));
    }
}

/// There are no more free squares than squares, and at least one where a
/// square is free.
pub proof fn lemma_empty_count_bounds(cells: Seq<Field>)
    ensures
        empty_count(cells) <= cells.len(),
        cells.contains(Field::Empty) <==> empty_count(cells) > 0,
    decreases cells.len(),
{
    if cells.len() > 0 {
        let front = cells.drop_last();
        lemma_empty_count_bounds(front);
        if cells.contains(Field::Empty) {
            let i = choose|i: int| 0 <= i < cells.len() && cells[i] == Field::Empty;
            if i < front.len() {
                assert(front[i] == Field::Empty);
            }
        }
        if front.contains(Field::Empty) {
            let i = choose|i: int| 0 <= i < front.len() && front[i] == Field::Empty;
            assert(cells[i] == Field::Empty);
        }
        if cells.last() == Field::Empty {
            assert(cells[cells.len() - 1] == Field::Empty);
        }
    }
}

/// Whether `best` is the move that `player` likes best among the free
/// squares below `n`: it is one of them, it carries its own score, no other of
/// them has a score that `player` would rather have (a smaller one for
/// `Player1`, a larger one for `Player2`), and among those of equal score it
/// is the last for `Player1` and the first for `Player2`.
pub open spec fn is_best_among(
    cells: Seq<Field>,
    player: Player,
    depth: int,
    n: int,
    best: EvalView,
) -> bool {
    &&& 0 <= best.position < n
    &&& cells[best.position] == Field::Empty
    &&& best.score == reply_score(cells, player, depth, best.position)
    &&& forall|j: int|
        0 <= j < n && cells[j] == Field::Empty ==> match player {
            Player::Player1 => {
                let other = #[trigger] reply_score(cells, player, depth, j);
                other > best.score || (other == best.score && j <= best.position)
            },
            Player::Player2 => {
                let other = #[trigger] reply_score(cells, player, depth, j);
                other < best.score || (other == best.score && j >= best.position)
            },
        }
}

/// `best_among` is `None` exactly where no square below `n` is free, and
/// otherwise the best move in the sense of `is_best_among`.
pub proof fn lemma_best_among(cells: Seq<Field>, player: Player, depth: int, n: int)
    requires
        0 <= n <= cells.len(),
    ensures
        match best_among(cells, player, depth, n) {
            Some(best) => is_best_among(cells, player, depth, n, best),
            None => forall|j: int| 0 <= j < n ==> cells[j] != Field::Empty,
        },
    decreases n,
{
    if n > 0 {
        lemma_best_among(cells, player, depth, n - 1);
    }
}

/// The search, in a game that goes on, returns a free square: the best move
/// of the player to move, in the sense of `is_best_among`, over all squares.
pub proof fn lemma_search_is_best(cells: Seq<Field>, player: Player, depth: int)
    requires
        outcome_of(cells) is InGame,
    ensures
        is_best_among(
            cells,
            player,
            depth,
            cells.len() as int,
            search_of(cells, player, depth),
        ),
        0 <= search_of(cells, player, depth).position < cells.len(),
        cells[search_of(cells, player, depth).position] == Field::Empty,
{
    lemma_best_among(cells, player, depth, cells.len() as int);
    let i = choose|i: int| 0 <= i < cells.len() && cells[i] == Field::Empty;
    assert(cells[i] == Field::Empty);
}

/// Copies `board` with `mark` put on square `i`.
fn with_mark(board: &[Field], i: usize, mark: Field) -> (next: Vec<Field>)
    requires
        i < board@.len(),
    ensures
        next@ == board@.update(i as int, mark),
{
    let mut next: Vec<Field> = Vec::with_capacity(board.len());
    let mut j: usize = 0;
    while j < board.len()
        invariant
            j <= board@.len(),
            i < board@.len(),
            next@.len() == j,
            forall|k: int| 0 <= k < j ==> next@[k] == board@.update(i as int, mark)[k],
        decreases board@.len() - j,
    {
        if j == i {
            next.push(mark);
        } else {
            next.push(board[j]);
        }
        j += 1;
    }
    assert(next@ =~= board@.update(i as int, mark));
    next
}

/// Searches the whole game tree below `board` for the best move of `player`,
/// who is to move, `depth` moves into the search. `state` is how the game
/// stands on `board`.
///
/// `Player1` plays for the smallest score and `Player2` for the largest; each
/// expects the other to do the same. The result is exactly `search_of`: in a
/// game that goes on, a free square and the score that it secures; in a decided
/// game, the score of the decision, with a square that means nothing.
///
/// The search goes one move deeper for every free square at most, and a
/// decision at `depth` has the score `depth - 10` or `10 - depth`: `depth` must
/// leave room for both in an `i64`.
pub fn minimax(state: BoardState, board: &[Field], player: Player, depth: i64) -> (eval: Eval)
    requires
        board@.len() == SQUARES,
        state == outcome_of(board@),
        i64::MIN + 10 < depth,
        depth + empty_count(board@) <= i64::MAX,
    ensures
        eval@ == search_of(board@, player, depth as int),
        state is InGame ==> eval.position < SQUARES && board@[eval.position as int]
            == Field::Empty,
    decreases empty_count(board@),
{
    match state {
        BoardState::Tie => Eval { position: 0, score: 0 },
        BoardState::Winner(Player::Player1, _) => Eval { position: 0, score: depth - 10 },
        BoardState::Winner(Player::Player2, _) => Eval { position: 0, score: 10 - depth },
        BoardState::InGame => {
            proof {
                lemma_empty_count_bounds(board@);
            }
            let mut best: Option<Eval> = None;
            let mut i: usize = 0;
            while i < SQUARES
                invariant
                    i <= SQUARES,
                    board@.len() == SQUARES,
                    i64::MIN + 10 < depth,
                    depth + empty_count(board@) <= i64::MAX,
                    empty_count(board@) > 0,
                    match best {
                        Some(held) => best_among(board@, player, depth as int, i as int) == Some(
                            held@,
                        ),
                        None => best_among(board@, player, depth as int, i as int).is_none(),
                    },
                decreases SQUARES - i,
            {
                if board[i] == Field::Empty {
                    let next = with_mark(board, i, player.get_sigil());
                    proof {
                        lemma_mark_reduces_empties(board@, i as int, player.sigil());
                    }
                    let reply = minimax(check_winner(&next), &next, player.opponent(), depth + 1);
                    let fresh = Eval::new(i, reply.score);
                    assert(reply.score == reply_score(board@, player, depth as int, i as int));
                    best =
                    match best {
                        Some(held) => if likes_better(player, fresh.score, held.score) {
                            Some(fresh)
                        } else {
                            Some(held)
                        },
                        None => Some(fresh),
                    };
                }
                i += 1;
            }
            proof {
                lemma_search_is_best(board@, player, depth as int);
            }
            match best {
                Some(found) => found,
                None => Eval { position: 0, score: 0 },
            }
        },
    }
}

/// Decides whether `player` gives up a move of score `held` for a move on a
/// later square of score `fresh`.
fn likes_better(player: Player, fresh: i64, held: i64) -> (yes: bool)
    ensures
        yes == prefers(player, fresh as int, held as int),
{
    match player {
        Player::Player1 => fresh <= held,
        Player::Player2 => fresh > held,
    }
}

/// A grid without a free square and without a complete line is a tie.
pub proof fn lemma_full_without_line_is_tie(cells: Seq<Field>)
    requires
        !cells.contains(Field::Empty),
        forall|k: int| 0 <= k < LINE_COUNT ==> !completes(cells, #[trigger] line(k)),
    ensures
        outcome_of(cells) == BoardState::Tie,
{
    lemma_first_complete(cells, 0);
}

/// A grid on which line `k` is the only complete one is won, on that line, by
/// the player whose mark fills it.
pub proof fn lemma_single_line_wins(cells: Seq<Field>, k: int)
    requires
        0 <= k < LINE_COUNT,
        completes(cells, line(k)),
        forall|j: int| 0 <= j < LINE_COUNT && j != k ==> !completes(cells, #[trigger] line(j)),
    ensures
        outcome_of(cells) == BoardState::Winner(owner(cells[line(k).0 as int]), line(k)),
        cells[line(k).0 as int] == owner(cells[line(k).0 as int]).sigil(),
{
    lemma_first_complete(cells, 0);
}

/// A grid is won exactly where some line is complete, whatever else it holds;
/// the line that is reported is complete and belongs to the reported player.
pub proof fn lemma_winner_holds_line(cells: Seq<Field>)
    ensures
        outcome_of(cells) is Winner <==> exists|k: int|
            0 <= k < LINE_COUNT && completes(cells, #[trigger] line(k)),
        match outcome_of(cells) {
            BoardState::Winner(player, l) => {
                &&& completes(cells, l)
                &&& cells[l.0 as int] == player.sigil()
                &&& exists|k: int| 0 <= k < LINE_COUNT && l == #[trigger] line(k)
            },
            BoardState::Tie => !cells.contains(Field::Empty),
            BoardState::InGame => cells.contains(Field::Empty),
        },
{
    lemma_first_complete(cells, 0);
}

/// How a game stands depends on its squares alone: two looks at the same
/// squares give the same answer.
pub proof fn lemma_outcome_is_stable(cells: Seq<Field>, again: Seq<Field>)
    requires
        cells =~= again,
    ensures
        outcome_of(cells) == outcome_of(again),
{
}

} // verus!
