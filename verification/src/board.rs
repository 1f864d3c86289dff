//! The board model: players, marks, the nine-cell board, winning lines,
//! and winner detection.

use vstd::prelude::*;

verus! {

/// One of the two players, identified by the mark it plays.
#[derive(Copy, Clone, PartialEq, Eq, Structural, Debug)]
pub enum Player {
    X,
    O,
}

impl Player {
    /// The character this player marks cells with.
    pub open spec fn spec_char(self) -> char {
        match self {
            Player::X => 'X',
            Player::O => 'O',
        }
    }

    /// The opposing player.
    pub open spec fn spec_toggle(self) -> Player {
        match self {
            Player::X => Player::O,
            Player::O => Player::X,
        }
    }

    pub fn toggle(&self) -> (r: Player)
        ensures
            r == self.spec_toggle(),
    {
        match self {
            Player::X => Player::O,
            Player::O => Player::X,
        }
    }

    pub fn as_char(&self) -> (r: char)
        ensures
            r == self.spec_char(),
    {
        match self {
            Player::X => 'X',
            Player::O => 'O',
        }
    }
}

/// A cell of the board holds a player's mark iff it differs from the
/// empty mark `' '`; a board is a sequence of exactly nine cells.
///
/// `line_wins` holds when the three indexed cells all carry `mark`.
pub open spec fn line_wins(b: Seq<char>, mark: char, i: int, j: int, k: int) -> bool {
    b[i] == mark && b[j] == mark && b[k] == mark
}

/// Some of the eight winning lines (three rows, three columns, two
/// diagonals) is filled with `mark`.
pub open spec fn has_line(b: Seq<char>, mark: char) -> bool {
    ||| line_wins(b, mark, 0, 1, 2)
    ||| line_wins(b, mark, 3, 4, 5)
    ||| line_wins(b, mark, 6, 7, 8)
    ||| line_wins(b, mark, 0, 3, 6)
    ||| line_wins(b, mark, 1, 4, 7)
    ||| line_wins(b, mark, 2, 5, 8)
    ||| line_wins(b, mark, 0, 4, 8)
    ||| line_wins(b, mark, 2, 4, 6)
}

/// The winner of a position: the first player, in the fixed enumeration
/// order X before O, that has three marks in a row; `None` otherwise.
pub open spec fn spec_winner(b: Seq<char>) -> Option<Player> {
    if has_line(b, 'X') {
        Some(Player::X)
    } else if has_line(b, 'O') {
        Some(Player::O)
    } else {
        None
    }
}

/// No cell of the board is empty.
pub open spec fn board_full(b: Seq<char>) -> bool {
    forall|i: int| 0 <= i < b.len() ==> b[i] != ' '
}

/// A move is legal while the cell it names is on the board and empty.
pub open spec fn legal_move(b: Seq<char>, idx: int) -> bool {
    0 <= idx < 9 && b[idx] == ' '
}

/// True iff all three indexed cells hold `mark`. No side effects.
pub fn line_check(board: &Vec<char>, mark: char, a: usize, b: usize, c: usize) -> (r: bool)
    requires
        board@.len() == 9,
        a < 9,
        b < 9,
        c < 9,
    ensures
        r == line_wins(board@, mark, a as int, b as int, c as int),
{
    board[a] == mark && board[b] == mark && board[c] == mark
}

/// Whether `mark` fills one of the eight winning lines.
fn mark_has_line(board: &Vec<char>, mark: char) -> (r: bool)
    requires
        board@.len() == 9,
    ensures
        r == has_line(board@, mark),
{
    line_check(board, mark, 0, 1, 2) || line_check(board, mark, 3, 4, 5)
        || line_check(board, mark, 6, 7, 8) || line_check(board, mark, 0, 3, 6)
        || line_check(board, mark, 1, 4, 7) || line_check(board, mark, 2, 5, 8)
        || line_check(board, mark, 0, 4, 8) || line_check(board, mark, 2, 4, 6)
}

/// Checks all eight winning lines for each player, X's lines before O's,
/// and returns the first player found with three in a row.
pub fn check_winner(board: &Vec<char>) -> (r: Option<Player>)
    requires
        board@.len() == 9,
    ensures
        r == spec_winner(board@),
{
    if mark_has_line(board, 'X') {
        Some(Player::X)
    } else if mark_has_line(board, 'O') {
        Some(Player::O)
    } else {
        None
    }
}

/// True iff no cell of the board is empty.
pub fn is_board_full(board: &Vec<char>) -> (r: bool)
    requires
        board@.len() == 9,
    ensures
        r == board_full(board@),
{
    for i in 0..9usize
        invariant
            board@.len() == 9,
            forall|j: int| 0 <= j < i ==> board@[j] != ' ',
    {
        if board[i] == ' ' {
            return false;
        }
    }
    true
}

/// True iff `idx` names a cell that is on the board and still empty.
pub fn is_legal_move(board: &Vec<char>, idx: usize) -> (r: bool)
    requires
        board@.len() == 9,
    ensures
        r == legal_move(board@, idx as int),
{
    idx < 9 && board[idx] == ' '
}

/// The winner of a board is at most one player: no board is ever reported
/// as won by both X and O at once.
pub proof fn lemma_winner_exclusive(b: Seq<char>)
    ensures
        !(spec_winner(b) == Some(Player::X) && spec_winner(b) == Some(Player::O)),
{
}

} // verus!
