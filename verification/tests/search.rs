use tictactoe::board::BoardState;
use tictactoe::brain::{check_winner, minimax};
use tictactoe::eval::Eval;
use tictactoe::player::Player;
use tictactoe::Field;

const E: Field = Field::Empty;
const X: Field = Field::X;
const O: Field = Field::O;

fn search(grid: &[Field; 9], player: Player, depth: i64) -> Eval {
    minimax(check_winner(grid), grid, player, depth)
}

/// The score that `player` gets for a mark on square `i`.
fn reply(grid: &[Field; 9], player: Player, depth: i64, i: usize) -> i64 {
    let mut next = *grid;
    next[i] = player.get_sigil();
    search(&next, -player, depth + 1).score
}

#[test]
fn eval_new_keeps_its_arguments() {
    let eval = Eval::new(7, -3);
    assert_eq!(eval.position, 7);
    assert_eq!(eval.score, -3);
    assert_eq!(eval, Eval { position: 7, score: -3 });
}

#[test]
fn empty_grid_scores_zero_for_the_first_player() {
    let eval = search(&[E; 9], Player::Player1, 0);
    assert_eq!(eval.score, 0);
    assert_eq!(eval.position, 8);
}

#[test]
fn empty_grid_scores_zero_for_the_second_player() {
    let eval = search(&[E; 9], Player::Player2, 0);
    assert_eq!(eval.score, 0);
    assert_eq!(eval.position, 0);
}

#[test]
fn tie_scores_zero_at_any_depth() {
    let grid = [X, O, X, X, O, O, O, X, X];
    assert_eq!(search(&grid, Player::Player1, 5), Eval { position: 0, score: 0 });
    assert_eq!(search(&grid, Player::Player2, 0), Eval { position: 0, score: 0 });
}

#[test]
fn line_of_first_player_scores_depth_minus_ten() {
    let grid = [X, X, X, O, O, E, E, E, E];
    assert_eq!(search(&grid, Player::Player2, 3), Eval { position: 0, score: -7 });
    assert_eq!(search(&grid, Player::Player1, 0), Eval { position: 0, score: -10 });
    assert_eq!(search(&grid, Player::Player1, 9), Eval { position: 0, score: -1 });
}

#[test]
fn line_of_second_player_scores_ten_minus_depth() {
    let grid = [O, O, O, X, X, E, X, E, E];
    assert_eq!(search(&grid, Player::Player1, 4), Eval { position: 0, score: 6 });
    assert_eq!(search(&grid, Player::Player2, 0), Eval { position: 0, score: 10 });
    assert_eq!(search(&grid, Player::Player2, 9), Eval { position: 0, score: 1 });
}

#[test]
fn single_free_square_is_chosen() {
    let grid = [X, O, X, O, X, O, O, X, E];
    assert_eq!(search(&grid, Player::Player1, 0), Eval { position: 8, score: -9 });
    assert_eq!(search(&grid, Player::Player1, 3), Eval { position: 8, score: -6 });
    assert_eq!(search(&grid, Player::Player2, 0), Eval { position: 8, score: 0 });
}

#[test]
fn first_player_takes_the_smallest_score() {
    let grid = [X, O, X, O, O, X, E, X, E];
    assert_eq!(reply(&grid, Player::Player1, 0, 6), 0);
    assert_eq!(reply(&grid, Player::Player1, 0, 8), -9);
    assert_eq!(search(&grid, Player::Player1, 0), Eval { position: 8, score: -9 });
}

#[test]
fn second_player_takes_the_largest_score() {
    let grid = [X, O, X, O, O, X, E, X, E];
    assert_eq!(reply(&grid, Player::Player2, 0, 6), -8);
    assert_eq!(reply(&grid, Player::Player2, 0, 8), 0);
    assert_eq!(search(&grid, Player::Player2, 0), Eval { position: 8, score: 0 });
}

#[test]
fn second_player_blocks_two_in_the_top_row() {
    let grid = [X, X, E, E, E, E, E, E, E];
    let replies: Vec<i64> = (2..9).map(|i| reply(&grid, Player::Player2, 0, i)).collect();
    assert_eq!(replies, vec![-6, -8, -8, -8, -8, -8, -8]);
    assert_eq!(search(&grid, Player::Player2, 0), Eval { position: 2, score: -6 });
}

#[test]
fn first_player_blocks_two_in_the_top_row() {
    let grid = [O, O, E, E, E, E, E, E, E];
    let replies: Vec<i64> = (2..9).map(|i| reply(&grid, Player::Player1, 0, i)).collect();
    assert_eq!(replies, vec![6, 8, 8, 8, 8, 8, 8]);
    assert_eq!(search(&grid, Player::Player1, 0), Eval { position: 2, score: 6 });
}

#[test]
fn each_player_completes_a_line_of_their_own_at_once() {
    let grid = [X, X, E, O, O, E, E, E, E];
    let replies: Vec<i64> =
        [2, 5, 6, 7, 8].iter().map(|&i| reply(&grid, Player::Player1, 0, i)).collect();
    assert_eq!(replies, vec![-9, 0, 8, 8, 8]);
    assert_eq!(search(&grid, Player::Player1, 0), Eval { position: 2, score: -9 });
    let replies: Vec<i64> =
        [2, 5, 6, 7, 8].iter().map(|&i| reply(&grid, Player::Player2, 0, i)).collect();
    assert_eq!(replies, vec![7, 9, -8, -8, -8]);
    assert_eq!(search(&grid, Player::Player2, 0), Eval { position: 5, score: 9 });
}

#[test]
fn first_player_takes_the_last_of_equal_scores() {
    let grid = [X, E, E, E, O, E, E, E, E];
    let replies: Vec<i64> =
        [1, 2, 3, 5, 6, 7, 8].iter().map(|&i| reply(&grid, Player::Player1, 0, i)).collect();
    assert_eq!(replies, vec![0, 0, 0, 0, 0, 0, 0]);
    assert_eq!(search(&grid, Player::Player1, 0), Eval { position: 8, score: 0 });
}

#[test]
fn second_player_takes_the_first_of_equal_scores() {
    let grid = [X, E, E, E, O, E, E, E, E];
    let replies: Vec<i64> =
        [1, 2, 3, 5, 6, 7, 8].iter().map(|&i| reply(&grid, Player::Player2, 0, i)).collect();
    assert_eq!(replies, vec![0, 0, 0, 0, 0, 0, 0]);
    assert_eq!(search(&grid, Player::Player2, 0), Eval { position: 1, score: 0 });
}

#[test]
fn second_player_answers_a_corner_in_the_centre() {
    let grid = [X, E, E, E, E, E, E, E, E];
    let replies: Vec<i64> = (1..9).map(|i| reply(&grid, Player::Player2, 0, i)).collect();
    assert_eq!(replies, vec![-4, -4, -4, 0, -4, -4, -4, -4]);
    assert_eq!(search(&grid, Player::Player2, 0), Eval { position: 4, score: 0 });
}

#[test]
fn search_is_the_same_each_time() {
    let grid = [X, E, E, E, O, E, E, E, E];
    let first = search(&grid, Player::Player1, 0);
    let second = search(&grid, Player::Player1, 0);
    assert_eq!(first, second);
    assert_eq!(first, Eval { position: 8, score: 0 });
}

#[test]
fn chosen_square_is_free_and_carries_its_own_score() {
    let grids = [
        [E; 9],
        [X, E, E, E, O, E, E, E, E],
        [X, X, E, O, O, E, E, E, E],
        [X, O, X, O, O, X, E, X, E],
        [X, O, X, O, X, O, O, X, E],
        [E, E, E, E, X, E, E, E, E],
    ];
    for grid in grids {
        assert_eq!(check_winner(&grid), BoardState::InGame);
        for player in [Player::Player1, Player::Player2] {
            let eval = search(&grid, player, 0);
            assert!(eval.position < 9);
            assert_eq!(grid[eval.position], Field::Empty);
            assert_eq!(eval.score, reply(&grid, player, 0, eval.position));
            for i in 0..9 {
                if grid[i] == Field::Empty {
                    let other = reply(&grid, player, 0, i);
                    match player {
                        Player::Player1 => assert!(
                            other > eval.score || (other == eval.score && i <= eval.position)
                        ),
                        Player::Player2 => assert!(
                            other < eval.score || (other == eval.score && i >= eval.position)
                        ),
                    }
                }
            }
        }
    }
}

#[test]
fn depth_shifts_the_score_of_a_decision() {
    let grid = [X, O, X, O, X, O, O, X, E];
    for depth in [-5i64, 0, 1, 100] {
        assert_eq!(search(&grid, Player::Player1, depth).score, depth + 1 - 10);
    }
}

#[test]
fn search_works_at_the_largest_depth() {
    let grid = [X, O, X, O, X, O, O, X, E];
    let eval = search(&grid, Player::Player1, i64::MAX - 1);
    assert_eq!(eval, Eval { position: 8, score: i64::MAX - 10 });
    let won = [O, O, O, X, X, E, X, E, E];
    assert_eq!(search(&won, Player::Player1, i64::MIN + 11).score, i64::MAX);
}
