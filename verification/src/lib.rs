//! Bitboards for a chess engine: sets of squares packed into one 64-bit
//! word each, and the position that is made of them.

pub mod bits;
pub mod board;
pub mod order;
pub mod pieces;
pub mod position;
pub mod sides;

pub use crate::board::{BitBoard, BitBoardIterator};
pub use crate::position::Position;
