//! Rules engine for a two-player Xiangqi (Chinese chess) variant on a
//! 10 x 9 board: board state, per-piece move generation, move validation
//! and application, and the simplified win condition (a general with no
//! legal destination loses).

pub mod board;
pub mod rules;
