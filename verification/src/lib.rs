//! A verified tic-tac-toe engine: a nine-cell board model with winner
//! detection, a minimax game-tree evaluator, and a move selector that
//! commits the optimal move for the computer player.

pub mod board;
pub mod engine;
