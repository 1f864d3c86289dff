use tictactoe::board::{check_winner, is_board_full, is_legal_move, line_check, Player};
use tictactoe::engine::{computer_turn_minimax, evaluate_board, minimax};

fn empty_board() -> Vec<char> {
    vec![' '; 9]
}

fn count(board: &Vec<char>, mark: char) -> usize {
    board.iter().filter(|&&c| c == mark).count()
}

#[test]
fn toggle_swaps_players() {
    assert_eq!(Player::X.toggle(), Player::O);
    assert_eq!(Player::O.toggle(), Player::X);
    assert_eq!(Player::X.toggle().toggle(), Player::X);
}

#[test]
fn as_char_gives_marks() {
    assert_eq!(Player::X.as_char(), 'X');
    assert_eq!(Player::O.as_char(), 'O');
}

#[test]
fn line_check_matches_cells() {
    let board = vec!['X', 'X', 'X', 'O', 'O', ' ', ' ', ' ', ' '];
    assert!(line_check(&board, 'X', 0, 1, 2));
    assert!(!line_check(&board, 'O', 0, 1, 2));
    assert!(!line_check(&board, 'O', 3, 4, 5));
}

#[test]
fn winner_detects_every_line() {
    let lines: [[usize; 3]; 8] = [
        [0, 1, 2],
        [3, 4, 5],
        [6, 7, 8],
        [0, 3, 6],
        [1, 4, 7],
        [2, 5, 8],
        [0, 4, 8],
        [2, 4, 6],
    ];
    for line in lines.iter() {
        let mut board = empty_board();
        for &i in line.iter() {
            board[i] = 'X';
        }
        assert_eq!(check_winner(&board), Some(Player::X));
        let mut board = empty_board();
        for &i in line.iter() {
            board[i] = 'O';
        }
        assert_eq!(check_winner(&board), Some(Player::O));
    }
}

#[test]
fn winner_none_without_line() {
    assert_eq!(check_winner(&empty_board()), None);
    let board = vec!['X', 'O', ' ', ' ', 'X', 'O', ' ', ' ', ' '];
    assert_eq!(check_winner(&board), None);
}

#[test]
fn winner_reports_at_most_one_player() {
    let board = vec!['X', 'X', 'X', 'O', 'O', ' ', ' ', ' ', ' '];
    let w = check_winner(&board);
    assert_eq!(w, Some(Player::X));
    assert_ne!(w, Some(Player::O));
}

#[test]
fn full_board_with_no_line_is_a_tie() {
    let board = vec!['X', 'O', 'X', 'X', 'O', 'O', 'O', 'X', 'X'];
    assert_eq!(check_winner(&board), None);
    assert!(is_board_full(&board));
}

#[test]
fn is_board_full_sees_empty_cells() {
    assert!(!is_board_full(&empty_board()));
    let mut board = vec!['X'; 9];
    assert!(is_board_full(&board));
    board[4] = ' ';
    assert!(!is_board_full(&board));
}

#[test]
fn legal_moves_are_empty_cells_in_range() {
    let board = vec!['X', ' ', ' ', 'O', ' ', ' ', ' ', ' ', ' '];
    assert!(is_legal_move(&board, 1));
    assert!(!is_legal_move(&board, 0));
    assert!(!is_legal_move(&board, 3));
    assert!(!is_legal_move(&board, 9));
}

#[test]
fn evaluate_board_scores_outcomes() {
    let x_wins = vec!['X', 'X', 'X', 'O', 'O', ' ', ' ', ' ', ' '];
    assert_eq!(evaluate_board(&x_wins, Player::X, Player::O), 1);
    assert_eq!(evaluate_board(&x_wins, Player::O, Player::X), -1);
    let draw = vec!['X', 'O', 'X', 'X', 'O', 'O', 'O', 'X', 'X'];
    assert_eq!(evaluate_board(&draw, Player::X, Player::O), 0);
    assert_eq!(evaluate_board(&empty_board(), Player::X, Player::O), 0);
}

#[test]
fn evaluate_board_is_symmetric() {
    let boards = vec![
        vec!['X', 'X', 'X', 'O', 'O', ' ', ' ', ' ', ' '],
        vec!['X', 'X', ' ', 'O', 'O', 'O', ' ', ' ', 'X'],
        vec!['X', 'O', 'X', 'X', 'O', 'O', 'O', 'X', 'X'],
        empty_board(),
    ];
    for board in boards.iter() {
        let forward = evaluate_board(board, Player::X, Player::O);
        let swapped = evaluate_board(board, Player::O, Player::X);
        assert_eq!(forward, -swapped);
    }
}

#[test]
fn minimax_leaves_board_unchanged() {
    let mut board = vec!['X', ' ', ' ', 'O', ' ', ' ', ' ', ' ', 'X'];
    let before = board.clone();
    minimax(&mut board, 9, true, Player::X, Player::O);
    assert_eq!(board, before);
    minimax(&mut board, 9, false, Player::X, Player::O);
    assert_eq!(board, before);
}

#[test]
fn minimax_scores_decided_positions() {
    let mut x_wins = vec!['X', 'X', 'X', 'O', 'O', ' ', ' ', ' ', ' '];
    assert_eq!(minimax(&mut x_wins, 9, true, Player::X, Player::O), 1);
    assert_eq!(minimax(&mut x_wins, 9, true, Player::O, Player::X), -1);
    let mut draw = vec!['X', 'O', 'X', 'X', 'O', 'O', 'O', 'X', 'X'];
    assert_eq!(minimax(&mut draw, 9, false, Player::X, Player::O), 0);
}

#[test]
fn minimax_sees_an_immediate_win() {
    // X to move completes the top row from either side's turn order.
    let mut board = vec!['X', 'X', ' ', 'O', 'O', ' ', ' ', ' ', ' '];
    assert_eq!(minimax(&mut board, 9, true, Player::X, Player::O), 1);
    // O to move wins the middle row, which is a loss for computer X.
    assert_eq!(minimax(&mut board, 9, false, Player::X, Player::O), -1);
}

#[test]
fn selector_takes_the_winning_cell() {
    let mut board = vec!['X', 'X', ' ', 'O', 'O', ' ', ' ', ' ', ' '];
    computer_turn_minimax(&mut board, Player::X, Player::O);
    assert_eq!(board[2], 'X');
    assert_eq!(
        board,
        vec!['X', 'X', 'X', 'O', 'O', ' ', ' ', ' ', ' ']
    );
    assert_eq!(check_winner(&board), Some(Player::X));
}

#[test]
fn selector_fills_the_single_empty_cell() {
    let mut board = vec!['X', 'O', 'X', 'X', 'O', 'O', 'O', 'X', ' '];
    computer_turn_minimax(&mut board, Player::X, Player::O);
    assert_eq!(board[8], 'X');
    assert!(is_board_full(&board));
}

#[test]
fn selector_leaves_a_full_board_alone() {
    let full = vec!['X', 'O', 'X', 'X', 'O', 'O', 'O', 'X', 'X'];
    let mut board = full.clone();
    computer_turn_minimax(&mut board, Player::X, Player::O);
    assert_eq!(board, full);
}

#[test]
fn opening_move_is_corner_or_center() {
    let mut board = empty_board();
    computer_turn_minimax(&mut board, Player::X, Player::O);
    assert_eq!(count(&board, 'X'), 1);
    assert_eq!(count(&board, ' '), 8);
    let placed = board.iter().position(|&c| c == 'X').unwrap();
    assert!(matches!(placed, 0 | 2 | 4 | 6 | 8));
}

/// Plays out every opponent strategy: at the computer's turn the selector
/// moves, at the human's turn every legal reply is explored. The game may
/// never end in a human win.
fn explore(board: &mut Vec<char>, to_move: Player, computer: Player, human: Player) {
    if let Some(winner) = check_winner(board) {
        assert_ne!(winner, human, "the computer lost the game {:?}", board);
        return;
    }
    if is_board_full(board) {
        return;
    }
    if to_move == computer {
        computer_turn_minimax(board, computer, human);
        explore(board, human, computer, human);
    } else {
        for i in 0..9 {
            if board[i] == ' ' {
                board[i] = human.as_char();
                explore(board, computer, computer, human);
                board[i] = ' ';
            }
        }
    }
}

#[test]
fn computer_moving_first_never_loses() {
    let mut board = empty_board();
    computer_turn_minimax(&mut board, Player::X, Player::O);
    explore(&mut board, Player::O, Player::X, Player::O);
}
