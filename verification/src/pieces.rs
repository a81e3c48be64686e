//! The six kinds of piece, as indices into the tables of a position.

use vstd::prelude::*;

verus! {

/// The pawns.
pub const PAWN: usize = 0;

/// The knights.
pub const KNIGHT: usize = 1;

/// The bishops.
pub const BISHOP: usize = 2;

/// The rooks.
pub const ROOK: usize = 3;

/// The queens.
pub const QUEEN: usize = 4;

/// The king.
pub const KING: usize = 5;

} // verus!
