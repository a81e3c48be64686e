//! A position: one bitboard for each side and kind of piece, and for each
//! side the bitboard of all its pieces.

use crate::bits::{lemma_ones_or, lemma_ones_zero};
use crate::board::{lemma_on_board, lemma_same_squares, BitBoard};
use crate::sides;
use vstd::prelude::*;
use vstd::set_lib::lemma_set_disjoint_lens;

verus! {

/// The boards of a position.
///
/// `bb_pieces` is written freely; `bb_sides` follows it only when
/// `update_sides` is called, and is stale in between.
#[derive(Debug)]
pub struct Position {
    /// The squares of each side's pieces of each kind: `[side][kind]`.
    pub bb_pieces: [[BitBoard; 6]; 2],
    /// The squares of all pieces of each side: `[side]`.
    pub bb_sides: [BitBoard; 2],
}

impl Clone for Position {
    /// A position with the same boards.
    fn clone(&self) -> (r: Self)
        ensures
            r == *self,
    {
        Position { bb_pieces: self.bb_pieces, bb_sides: self.bb_sides }
    }
}

/// The squares on one of the first `kinds` of the boards.
spec fn occupied_below(boards: [BitBoard; 6], kinds: int) -> Set<int>
    decreases kinds,
{
    if kinds <= 0 {
        Set::empty()
    } else {
        occupied_below(boards, kinds - 1).union(boards[kinds - 1]@)
    }
}

/// The counts of the first `kinds` of the boards, added up.
spec fn count_below(boards: [BitBoard; 6], kinds: int) -> nat
    decreases kinds,
{
    if kinds <= 0 {
        0
    } else {
        count_below(boards, kinds - 1) + boards[kinds - 1]@.len()
    }
}

impl Position {
    /// The squares that hold a piece of `side`, of whatever kind: the
    /// squares of the boards of its six kinds together.
    pub open spec fn occupied(self, side: int) -> Set<int> {
        self.bb_pieces[side][0]@.union(self.bb_pieces[side][1]@).union(
            self.bb_pieces[side][2]@,
        ).union(self.bb_pieces[side][3]@).union(self.bb_pieces[side][4]@).union(
            self.bb_pieces[side][5]@,
        )
    }

    /// Whether the board of each side holds the squares of that side's
    /// pieces and no others.
    pub open spec fn in_sync(self) -> bool {
        forall|side: int| 0 <= side < 2 ==> (#[trigger] self.bb_sides[side])@ == self.occupied(side)
    }

    /// Whether no square holds two pieces of `side`: the boards of its six
    /// kinds share no square.
    pub open spec fn kinds_disjoint(self, side: int) -> bool {
        forall|j: int, k: int|
            0 <= j < k < 6 ==> (#[trigger] self.bb_pieces[side][j])@.disjoint(
                (#[trigger] self.bb_pieces[side][k])@,
            )
    }

    /// The counts of the six boards of `side`'s pieces, added up.
    pub open spec fn piece_count(self, side: int) -> nat {
        self.bb_pieces[side][0]@.len() + self.bb_pieces[side][1]@.len()
            + self.bb_pieces[side][2]@.len() + self.bb_pieces[side][3]@.len()
            + self.bb_pieces[side][4]@.len() + self.bb_pieces[side][5]@.len()
    }

    /// The position without pieces.
    pub fn new() -> (r: Self)
        ensures
            forall|side: int, kind: int|
                0 <= side < 2 && 0 <= kind < 6 ==> (#[trigger] r.bb_pieces[side][kind])@
                    == Set::<int>::empty(),
            forall|side: int|
                0 <= side < 2 ==> (#[trigger] r.bb_sides[side])@ == Set::<int>::empty(),
            forall|side: int, kind: int|
                0 <= side < 2 && 0 <= kind < 6 ==> (#[trigger] r.bb_pieces[side][kind])@.len() == 0,
            forall|side: int| 0 <= side < 2 ==> (#[trigger] r.bb_sides[side])@.len() == 0,
            r.in_sync(),
    {
        let r = Position {
            bb_pieces: [[BitBoard::empty(); 6]; 2],
            bb_sides: [BitBoard::empty(); 2],
        };
        proof {
            assert forall|side: int| 0 <= side < 2 implies (#[trigger] r.bb_sides[side])@
                == r.occupied(side) by {
                assert(r.bb_sides[side]@ =~= r.occupied(side));
            }
        }
        r
    }

    /// Brings the board of each side up to date: afterwards it holds the
    /// squares of that side's pieces, whatever it held before. The boards of
    /// the pieces stay as they are.
    pub fn update_sides(&mut self)
        ensures
            final(self).bb_pieces == old(self).bb_pieces,
            final(self).in_sync(),
    {
        self.bb_sides[sides::WHITE] = BitBoard(0);
        self.bb_sides[sides::BLACK] = BitBoard(0);
        proof {
            lemma_ones_zero();
        }
        for piece in 0..6
            invariant
                self.bb_pieces == old(self).bb_pieces,
                self.bb_sides[sides::WHITE as int]@ == occupied_below(
                    self.bb_pieces[sides::WHITE as int],
                    piece as int,
                ),
                self.bb_sides[sides::BLACK as int]@ == occupied_below(
                    self.bb_pieces[sides::BLACK as int],
                    piece as int,
                ),
        {
            proof {
                let white = sides::WHITE as int;
                let black = sides::BLACK as int;
                lemma_ones_or(self.bb_sides[white].0, self.bb_pieces[white][piece as int].0);
                lemma_ones_or(self.bb_sides[black].0, self.bb_pieces[black][piece as int].0);
            }
            self.bb_sides[sides::WHITE].0 |= self.bb_pieces[sides::WHITE][piece].0;
            self.bb_sides[sides::BLACK].0 |= self.bb_pieces[sides::BLACK][piece].0;
        }
        proof {
            lemma_occupied_all(*self, sides::WHITE as int);
            lemma_occupied_all(*self, sides::BLACK as int);
        }
    }
}

/// The squares of all six kinds are the squares of the six boards
/// together.
proof fn lemma_occupied_all(p: Position, side: int)
    ensures
        occupied_below(p.bb_pieces[side], 6) == p.occupied(side),
        count_below(p.bb_pieces[side], 6) == p.piece_count(side),
{
    reveal_with_fuel(occupied_below, 7);
    reveal_with_fuel(count_below, 7);
    assert(occupied_below(p.bb_pieces[side], 6) =~= p.occupied(side));
}

/// Where no square holds two pieces of the side, the squares of the first
/// `kinds` kinds are as many as the boards of these kinds count together,
/// and none of them is on the board of a later kind.
proof fn lemma_occupied_count(p: Position, side: int, kinds: int)
    requires
        0 <= kinds <= 6,
        p.kinds_disjoint(side),
    ensures
        occupied_below(p.bb_pieces[side], kinds).finite(),
        occupied_below(p.bb_pieces[side], kinds).len() == count_below(p.bb_pieces[side], kinds),
        forall|later: int|
            kinds <= later < 6 ==> occupied_below(p.bb_pieces[side], kinds).disjoint(
                (#[trigger] p.bb_pieces[side][later])@,
            ),
    decreases kinds,
{
    if kinds > 0 {
        let less = occupied_below(p.bb_pieces[side], kinds - 1);
        let board = p.bb_pieces[side][kinds - 1]@;
        lemma_occupied_count(p, side, kinds - 1);
        lemma_on_board(p.bb_pieces[side][kinds - 1]);
        lemma_set_disjoint_lens(less, board);
        assert forall|later: int| kinds <= later < 6 implies less.union(board).disjoint(
            (#[trigger] p.bb_pieces[side][later])@,
        ) by {
            assert(board.disjoint(p.bb_pieces[side][later]@));
        }
    }
}

/// Where the board of a side is up to date and no square holds two of that
/// side's pieces, the board of the side counts as many squares as the
/// boards of its six kinds count together.
pub proof fn lemma_side_count(p: Position, side: int)
    requires
        0 <= side < 2,
        p.in_sync(),
        p.kinds_disjoint(side),
    ensures
        p.bb_sides[side]@.len() == p.piece_count(side),
{
    lemma_occupied_count(p, side, 6);
    lemma_occupied_all(p, side);
    assert(p.bb_sides[side]@ == p.occupied(side));
}

/// Where the board of a side is up to date, its word is the bitwise or of
/// the words of the boards of that side's six kinds.
pub proof fn lemma_side_word(p: Position, side: int)
    requires
        0 <= side < 2,
        p.in_sync(),
    ensures
        p.bb_sides[side].0 == p.bb_pieces[side][0].0 | p.bb_pieces[side][1].0
            | p.bb_pieces[side][2].0 | p.bb_pieces[side][3].0 | p.bb_pieces[side][4].0
            | p.bb_pieces[side][5].0,
{
    let w = |kind: int| p.bb_pieces[side][kind].0;
    let w1 = w(0) | w(1);
    let w2 = w1 | w(2);
    let w3 = w2 | w(3);
    let w4 = w3 | w(4);
    let w5 = w4 | w(5);
    lemma_ones_or(w(0), w(1));
    lemma_ones_or(w1, w(2));
    lemma_ones_or(w2, w(3));
    lemma_ones_or(w3, w(4));
    lemma_ones_or(w4, w(5));
    assert(p.bb_sides[side]@ == p.occupied(side));
    lemma_same_squares(p.bb_sides[side], BitBoard(w5));
}

} // verus!
