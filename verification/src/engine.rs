//! The game-tree evaluator: terminal scoring and full-depth minimax
//! search, together with the move selector that commits the computer's
//! best move.

use vstd::prelude::*;
use crate::board::{Player, spec_winner, board_full, legal_move, check_winner, is_board_full};

verus! {

/// Terminal score of a position, seen from the computer's side: +1 when
/// the computer has three in a row, -1 when the human has, 0 otherwise
/// (draw or undecided).
pub open spec fn spec_evaluate_board(b: Seq<char>, computer: Player, human: Player) -> int {
    match spec_winner(b) {
        Some(p) => if p == computer {
            1
        } else if p == human {
            -1
        } else {
            0
        },
        None => 0,
    }
}

/// Scores a finished or search-horizon position from the computer's
/// perspective; exact game outcome only, never a positional heuristic.
pub fn evaluate_board(board: &Vec<char>, computer_player: Player, human_player: Player) -> (r: i32)
    requires
        board@.len() == 9,
    ensures
        r as int == spec_evaluate_board(board@, computer_player, human_player),
{
    match check_winner(board) {
        Some(player) => {
            if player == computer_player {
                1
            } else if player == human_player {
                -1
            } else {
                0
            }
        },
        None => 0,
    }
}

/// Swapping the computer and human labels negates the terminal score:
/// a decided position changes sign, a draw or undecided one stays at 0.
pub proof fn lemma_evaluate_board_symmetric(b: Seq<char>, p: Player, q: Player)
    requires
        p != q,
    ensures
        spec_evaluate_board(b, p, q) == -spec_evaluate_board(b, q, p),
{
}

/// Minimax value of a position with `depth` plies of search left. A
/// decided, depth-exhausted or full position scores by
/// `spec_evaluate_board`; otherwise the value is the best child value
/// for whichever side is to move.
pub open spec fn spec_minimax(
    b: Seq<char>,
    depth: int,
    maximizing: bool,
    computer: Player,
    human: Player,
) -> int
    decreases depth, 10int,
{
    let score = spec_evaluate_board(b, computer, human);
    if score != 0 || depth <= 0 || board_full(b) {
        score
    } else if maximizing {
        spec_max_upto(b, depth, computer, human, 9)
    } else {
        spec_min_upto(b, depth, computer, human, 9)
    }
}

/// Greatest child value over the computer's moves into the empty cells
/// with index below `i`; `i32::MIN` when no such cell exists.
pub open spec fn spec_max_upto(b: Seq<char>, depth: int, computer: Player, human: Player, i: int) -> int
    decreases depth, i,
{
    if i <= 0 || depth <= 0 {
        i32::MIN as int
    } else {
        let prev = spec_max_upto(b, depth, computer, human, i - 1);
        if b[i - 1] == ' ' {
            let child = spec_minimax(
                b.update(i - 1, computer.spec_char()),
                depth - 1,
                false,
                computer,
                human,
            );
            if child > prev {
                child
            } else {
                prev
            }
        } else {
            prev
        }
    }
}

/// Least child value over the human's moves into the empty cells with
/// index below `i`; `i32::MAX` when no such cell exists.
pub open spec fn spec_min_upto(b: Seq<char>, depth: int, computer: Player, human: Player, i: int) -> int
    decreases depth, i,
{
    if i <= 0 || depth <= 0 {
        i32::MAX as int
    } else {
        let prev = spec_min_upto(b, depth, computer, human, i - 1);
        if b[i - 1] == ' ' {
            let child = spec_minimax(
                b.update(i - 1, human.spec_char()),
                depth - 1,
                true,
                computer,
                human,
            );
            if child < prev {
                child
            } else {
                prev
            }
        } else {
            prev
        }
    }
}

/// Exhaustive depth-first search of the game tree. Every tentative mark
/// placed during the search is undone before returning, so the board
/// leaves the call exactly as it entered it.
pub fn minimax(
    board: &mut Vec<char>,
    depth: i32,
    is_maximizing: bool,
    computer_player: Player,
    human_player: Player,
) -> (score: i32)
    requires
        old(board)@.len() == 9,
        depth >= 0,
    ensures
        final(board)@ == old(board)@,
        score as int == spec_minimax(
            old(board)@,
            depth as int,
            is_maximizing,
            computer_player,
            human_player,
        ),
    decreases depth,
{
    let ghost orig: Seq<char> = board@;
    let score = evaluate_board(board, computer_player, human_player);

    if score != 0 || depth == 0 || is_board_full(board) {
        return score;
    }

    if is_maximizing {
        let mut best_score: i32 = i32::MIN;
        for i in 0..9usize
            invariant
                board@ == orig,
                orig.len() == 9,
                depth >= 1,
                best_score as int == spec_max_upto(
                    orig,
                    depth as int,
                    computer_player,
                    human_player,
                    i as int,
                ),
        {
            if board[i] == ' ' {
                let mark = computer_player.as_char();
                board.set(i, mark);
                let child = minimax(board, depth - 1, false, computer_player, human_player);
                board.set(i, ' ');
                proof {
                    assert(board@ =~= orig);
                }
                if child > best_score {
                    best_score = child;
                }
            }
        }
        best_score
    } else {
        let mut best_score: i32 = i32::MAX;
        for i in 0..9usize
            invariant
                board@ == orig,
                orig.len() == 9,
                depth >= 1,
                best_score as int == spec_min_upto(
                    orig,
                    depth as int,
                    computer_player,
                    human_player,
                    i as int,
                ),
        {
            if board[i] == ' ' {
                let mark = human_player.as_char();
                board.set(i, mark);
                let child = minimax(board, depth - 1, true, computer_player, human_player);
                board.set(i, ' ');
                proof {
                    assert(board@ =~= orig);
                }
                if child < best_score {
                    best_score = child;
                }
            }
        }
        best_score
    }
}

/// One ply of selection over the empty cells with index below `i`: the
/// best score seen so far and the first cell that reached it. A later
/// equal score never displaces the stored move.
pub open spec fn spec_select_upto(b: Seq<char>, computer: Player, human: Player, i: int) -> (
    int,
    Option<int>,
)
    decreases i,
{
    if i <= 0 {
        (i32::MIN as int, None::<int>)
    } else {
        let prev = spec_select_upto(b, computer, human, i - 1);
        if b[i - 1] == ' ' {
            let score = spec_minimax(b.update(i - 1, computer.spec_char()), 9, false, computer, human);
            if score > prev.0 {
                (score, Some(i - 1))
            } else {
                prev
            }
        } else {
            prev
        }
    }
}

/// The move the selector commits: the first empty cell whose full-depth
/// evaluation strictly exceeds that of every earlier empty cell, or
/// `None` on a full board.
pub open spec fn spec_best_move(b: Seq<char>, computer: Player, human: Player) -> Option<int> {
    spec_select_upto(b, computer, human, 9).1
}

/// Scans every empty cell, scores the computer's move into it by a
/// full-depth minimax search, and commits the first best-scoring move.
/// The board is mutated exactly once, by that final commit; on a full
/// board nothing is committed.
pub fn computer_turn_minimax(board: &mut Vec<char>, computer_player: Player, human_player: Player)
    requires
        old(board)@.len() == 9,
    ensures
        (match spec_best_move(old(board)@, computer_player, human_player) {
            Some(m) => final(board)@ == old(board)@.update(m, computer_player.spec_char()),
            None => final(board)@ == old(board)@,
        }),
        !board_full(old(board)@) ==> spec_best_move(
            old(board)@,
            computer_player,
            human_player,
        ) is Some,
{
    let ghost orig: Seq<char> = board@;
    let mut best_score: i32 = i32::MIN;
    let mut best_move: Option<usize> = None;

    for i in 0..9usize
        invariant
            board@ == orig,
            orig.len() == 9,
            best_score as int == spec_select_upto(orig, computer_player, human_player, i as int).0,
            (match best_move {
                Some(m) => m < 9 && spec_select_upto(orig, computer_player, human_player, i as int).1
                    == Some(m as int),
                None => spec_select_upto(orig, computer_player, human_player, i as int).1 is None,
            }),
    {
        if board[i] == ' ' {
            let mark = computer_player.as_char();
            board.set(i, mark);
            let score = minimax(board, 9, false, computer_player, human_player);
            board.set(i, ' ');
            proof {
                assert(board@ =~= orig);
            }
            if score > best_score {
                best_score = score;
                best_move = Some(i);
            }
        }
    }

    if let Some(move_index) = best_move {
        let mark = computer_player.as_char();
        board.set(move_index, mark);
    }

    proof {
        if !board_full(orig) {
            let j = choose|j: int| 0 <= j < orig.len() && orig[j] == ' ';
            lemma_select_upto_props(orig, computer_player, human_player, 9);
            assert(orig[j] != ' ' ==> false);
        }
    }
}

/// Every minimax value lies between the two decided-game scores: a
/// position is worth at least -1 and at most +1.
pub proof fn lemma_minimax_bounds(b: Seq<char>, depth: int, maximizing: bool, c: Player, h: Player)
    requires
        b.len() == 9,
    ensures
        -1 <= spec_minimax(b, depth, maximizing, c, h) <= 1,
    decreases depth, 10int,
{
    let score = spec_evaluate_board(b, c, h);
    if score != 0 || depth <= 0 || board_full(b) {
    } else {
        let j = choose|j: int| 0 <= j < b.len() && b[j] == ' ';
        if maximizing {
            lemma_max_upto_bounds(b, depth, c, h, 9);
        } else {
            lemma_min_upto_bounds(b, depth, c, h, 9);
        }
    }
}

/// The maximizing fold stays at `i32::MIN` until it has seen an empty
/// cell, and within the decided-game bounds afterwards.
proof fn lemma_max_upto_bounds(b: Seq<char>, depth: int, c: Player, h: Player, i: int)
    requires
        b.len() == 9,
        depth >= 1,
        0 <= i <= 9,
    ensures
        spec_max_upto(b, depth, c, h, i) == i32::MIN as int || -1 <= spec_max_upto(
            b,
            depth,
            c,
            h,
            i,
        ) <= 1,
        (exists|j: int| 0 <= j < i && b[j] == ' ') ==> -1 <= spec_max_upto(b, depth, c, h, i) <= 1,
    decreases depth, i,
{
    if i > 0 {
        lemma_max_upto_bounds(b, depth, c, h, i - 1);
        if b[i - 1] == ' ' {
            lemma_minimax_bounds(b.update(i - 1, c.spec_char()), depth - 1, false, c, h);
        }
        assert forall|j: int| 0 <= j < i && b[j] == ' ' implies -1 <= spec_max_upto(
            b,
            depth,
            c,
            h,
            i,
        ) <= 1 by {
            if j < i - 1 {
                assert(exists|k: int| 0 <= k < i - 1 && b[k] == ' ');
            }
        }
    }
}

/// The minimizing fold stays at `i32::MAX` until it has seen an empty
/// cell, and within the decided-game bounds afterwards.
proof fn lemma_min_upto_bounds(b: Seq<char>, depth: int, c: Player, h: Player, i: int)
    requires
        b.len() == 9,
        depth >= 1,
        0 <= i <= 9,
    ensures
        spec_min_upto(b, depth, c, h, i) == i32::MAX as int || -1 <= spec_min_upto(
            b,
            depth,
            c,
            h,
            i,
        ) <= 1,
        (exists|j: int| 0 <= j < i && b[j] == ' ') ==> -1 <= spec_min_upto(b, depth, c, h, i) <= 1,
    decreases depth, i,
{
    if i > 0 {
        lemma_min_upto_bounds(b, depth, c, h, i - 1);
        if b[i - 1] == ' ' {
            lemma_minimax_bounds(b.update(i - 1, h.spec_char()), depth - 1, true, c, h);
        }
        assert forall|j: int| 0 <= j < i && b[j] == ' ' implies -1 <= spec_min_upto(
            b,
            depth,
            c,
            h,
            i,
        ) <= 1 by {
            if j < i - 1 {
                assert(exists|k: int| 0 <= k < i - 1 && b[k] == ' ');
            }
        }
    }
}

/// What one ply of selection yields: a committed move is an empty cell
/// carrying the score of the computer's move into it, every earlier
/// empty cell scores strictly worse and every later one no better; no
/// move is committed only when no cell below `i` is empty.
pub proof fn lemma_select_upto_props(b: Seq<char>, c: Player, h: Player, i: int)
    requires
        b.len() == 9,
        0 <= i <= 9,
    ensures
        (match spec_select_upto(b, c, h, i) {
            (s, Some(m)) => {
                &&& 0 <= m < i
                &&& b[m] == ' '
                &&& s == spec_minimax(b.update(m, c.spec_char()), 9, false, c, h)
                &&& -1 <= s <= 1
                &&& forall|j: int|
                    0 <= j < m && b[j] == ' ' ==> spec_minimax(
                        b.update(j, c.spec_char()),
                        9,
                        false,
                        c,
                        h,
                    ) < s
                &&& forall|j: int|
                    m < j < i && b[j] == ' ' ==> spec_minimax(
                        b.update(j, c.spec_char()),
                        9,
                        false,
                        c,
                        h,
                    ) <= s
            },
            (s, None) => s == i32::MIN as int && (forall|j: int| 0 <= j < i ==> b[j] != ' '),
        }),
    decreases i,
{
    if i > 0 {
        lemma_select_upto_props(b, c, h, i - 1);
        if b[i - 1] == ' ' {
            lemma_minimax_bounds(b.update(i - 1, c.spec_char()), 9, false, c, h);
        }
    }
}

/// The selector's choice is playing-optimal: on a board with an empty
/// cell it commits a legal move whose full-depth evaluation is at least
/// that of every other legal move, and it is the first such move — a
/// later move of equal score never displaces it. On a full board it
/// commits nothing.
pub proof fn lemma_best_move_optimal(b: Seq<char>, c: Player, h: Player)
    requires
        b.len() == 9,
    ensures
        (match spec_best_move(b, c, h) {
            Some(m) => {
                &&& legal_move(b, m)
                &&& forall|j: int|
                    legal_move(b, j) ==> spec_minimax(b.update(j, c.spec_char()), 9, false, c, h)
                        <= spec_minimax(b.update(m, c.spec_char()), 9, false, c, h)
                &&& forall|j: int|
                    legal_move(b, j) && j < m ==> spec_minimax(
                        b.update(j, c.spec_char()),
                        9,
                        false,
                        c,
                        h,
                    ) < spec_minimax(b.update(m, c.spec_char()), 9, false, c, h)
            },
            None => board_full(b),
        }),
{
    lemma_select_upto_props(b, c, h, 9);
}

/// A position with a single empty cell leaves the selector no choice:
/// the move it commits is exactly that cell.
pub proof fn lemma_single_empty_selected(b: Seq<char>, c: Player, h: Player, k: int)
    requires
        b.len() == 9,
        legal_move(b, k),
        forall|j: int| 0 <= j < 9 && j != k ==> b[j] != ' ',
    ensures
        spec_best_move(b, c, h) == Some(k),
{
    lemma_select_upto_props(b, c, h, 9);
}

} // verus!
