//! The two sides, as indices into the tables of a position.

use vstd::prelude::*;

verus! {

/// The side that moves first.
pub const WHITE: usize = 0;

/// The side that moves second.
pub const BLACK: usize = 1;

} // verus!
