//! A two-player connection game on a 7 by 6 grid with an automated opponent:
//! the board and its bit masks, the table of winning lines, the game state,
//! and a depth-bounded minimax search.

pub mod board;
pub mod board_column;
pub mod connect4;
pub mod difficulty;
pub mod masks;
pub mod minimax;
pub mod player;
