//! The bitboard: a set of squares held in one 64-bit word.
//!
//! Bit `i` of the word stands for square `i`. Square 0 is the first file of
//! the first rank (A1) and square 63 the last file of the last rank (H8);
//! each rank takes eight neighbouring bits, files in order.
//!
//! A square index is a `usize`. Every operation that takes one reduces it
//! modulo 64, so that an index of 64 or more names the square it wraps
//! around to and no shift is ever out of range.

use crate::bits::{
    lemma_lowest_one, lemma_ones_and_not, lemma_ones_finite, lemma_ones_injective, lemma_ones_or,
    lemma_ones_probe, lemma_ones_single, lemma_ones_zero, ones,
};
use crate::order::{
    ascending, is_ascending, lemma_ascending, lemma_ascending_none, lemma_ascending_step,
};
use vstd::prelude::*;

verus! {

/// The square that a square index names: the index modulo 64.
pub open spec fn wrapped(square: usize) -> int {
    (square % 64) as int
}

/// A set of squares, one bit of the word for each.
#[derive(Copy, Clone, PartialEq, Eq, Structural, PartialOrd, Ord, Hash, Debug)]
pub struct BitBoard(pub u64);

impl View for BitBoard {
    type V = Set<int>;

    /// The squares on the board.
    open spec fn view(&self) -> Set<int> {
        ones(self.0)
    }
}

impl Default for BitBoard {
    /// The board without squares.
    fn default() -> (r: Self)
        ensures
            r@ == Set::<int>::empty(),
    {
        BitBoard::empty()
    }
}

/// The word with the bit of `square` alone.
fn square_mask(square: usize) -> (mask: u64)
    ensures
        mask == 1u64 << (wrapped(square) as u64),
        ones(mask) == set![wrapped(square)],
{
    let shift: u64 = (square % 64) as u64;
    proof {
        lemma_ones_single(shift);
    }
    1u64 << shift
}

impl BitBoard {
    /// The squares of the board, lowest first.
    pub open spec fn squares(&self) -> Seq<int> {
        ascending(self@)
    }

    /// The board without squares.
    pub fn empty() -> (r: Self)
        ensures
            r@ == Set::<int>::empty(),
    {
        proof {
            lemma_ones_zero();
        }
        BitBoard(0)
    }

    /// The board that holds `square` and no other square.
    pub fn from_square(square: usize) -> (r: Self)
        ensures
            r@ == set![wrapped(square)],
    {
        BitBoard(square_mask(square))
    }

    /// Puts `square` on the board; the other squares stay as they are.
    pub fn set_bit(&mut self, square: usize)
        ensures
            final(self)@ == old(self)@.insert(wrapped(square)),
    {
        let mask = square_mask(square);
        proof {
            lemma_ones_or(self.0, mask);
            assert(ones(self.0).union(set![wrapped(square)]) =~= ones(self.0).insert(
                wrapped(square),
            ));
        }
        self.0 |= mask;
    }

    /// Takes `square` off the board; the other squares stay as they are.
    pub fn clear_bit(&mut self, square: usize)
        ensures
            final(self)@ == old(self)@.remove(wrapped(square)),
    {
        let mask = square_mask(square);
        proof {
            lemma_ones_and_not(self.0, mask);
            assert(ones(self.0).difference(set![wrapped(square)]) =~= ones(self.0).remove(
                wrapped(square),
            ));
        }
        self.0 &= !mask;
    }

    /// Whether `square` is on the board.
    pub fn is_set(&self, square: usize) -> (r: bool)
        ensures
            r == self@.contains(wrapped(square)),
    {
        let mask = square_mask(square);
        proof {
            lemma_ones_probe(self.0, wrapped(square) as u64);
        }
        (self.0 & mask) != 0
    }

    /// The number of squares on the board.
    pub fn popcount(&self) -> (r: u32)
        ensures
            r == self@.len(),
            r <= 64,
    {
        proof {
            lemma_ones_finite(self.0);
        }
        self.0.count_ones()
    }

    /// A traversal of the squares of the board: it hands out each square
    /// of the board once and no other square, lowest first. The board
    /// itself is left as it is, so that it can be traversed again.
    pub fn iter(&self) -> (it: BitBoardIterator)
        ensures
            it@ == self.squares(),
            is_ascending(it@),
            it@.to_set() == self@,
            it@.len() == self@.len(),
    {
        proof {
            lemma_squares(*self);
        }
        BitBoardIterator(self.0)
    }
}

/// A traversal of the squares of a bitboard, lowest square first.
pub struct BitBoardIterator(u64);

impl View for BitBoardIterator {
    type V = Seq<int>;

    /// The squares still to come, in the order in which `next` hands them
    /// out.
    closed spec fn view(&self) -> Seq<int> {
        ascending(ones(self.0))
    }
}

impl BitBoardIterator {
    /// Hands out the lowest square still to come and drops it from the
    /// traversal; `None` once no square is left.
    pub fn next(&mut self) -> (r: Option<usize>)
        ensures
            (match r {
                Some(square) => {
                    &&& old(self)@.len() > 0
                    &&& square < 64
                    &&& square as int == old(self)@[0]
                    &&& final(self)@ == old(self)@.skip(1)
                },
                None => old(self)@.len() == 0 && final(self)@.len() == 0,
            }),
    {
        if self.0 == 0 {
            proof {
                lemma_ones_zero();
                lemma_ascending_none(ones(0));
            }
            None
        } else {
            let lsb = self.0.trailing_zeros() as usize;
            proof {
                lemma_lowest_one(self.0);
                lemma_ascending_step(ones(self.0), 0, lsb as int);
                assert((seq![lsb as int] + ascending(ones(self.0).remove(lsb as int))).skip(1)
                    =~= ascending(ones(self.0).remove(lsb as int)));
            }
            self.0 &= self.0 - 1;
            Some(lsb)
        }
    }
}

/// A board holds squares of `0..64` only, so finitely many, 64 at most.
pub proof fn lemma_on_board(b: BitBoard)
    ensures
        b@.finite(),
        b@.len() <= 64,
        forall|square: int| b@.contains(square) ==> 0 <= square < 64,
{
    lemma_ones_finite(b.0);
}

/// A board is determined by the squares it holds: two boards with the same
/// squares are the same board.
pub proof fn lemma_same_squares(a: BitBoard, b: BitBoard)
    requires
        a@ == b@,
    ensures
        a == b,
{
    lemma_ones_injective(a.0, b.0);
}

/// The board made from one square holds that square and no other: asked
/// for square `j`, the board `single` that `from_square(i)` returned says
/// yes where `j` names the square that `i` names, and no for every other
/// `j`. Below 64 an index names itself, so there it says yes for `j == i`
/// alone.
pub proof fn lemma_from_square_is_set(single: BitBoard, i: usize, j: usize)
    requires
        single@ == set![wrapped(i)],
    ensures
        single@.contains(wrapped(j)) <==> wrapped(i) == wrapped(j),
        i < 64 && j < 64 ==> (single@.contains(wrapped(j)) <==> i == j),
{
}

/// Setting a square that was not on the board and clearing it again gives
/// back the board one started from: `set` is what `set_bit(square)` makes
/// of `m`, and `cleared` what `clear_bit(square)` makes of `set`.
pub proof fn lemma_set_then_clear(m: BitBoard, set: BitBoard, cleared: BitBoard, square: usize)
    requires
        !m@.contains(wrapped(square)),
        set@ == m@.insert(wrapped(square)),
        cleared@ == set@.remove(wrapped(square)),
    ensures
        cleared == m,
{
    assert(cleared@ =~= m@);
    lemma_same_squares(cleared, m);
}

/// The empty board counts no square, and the board made from one square
/// counts one: `none` is what `empty()` returns and `single` what
/// `from_square(square)` returns.
pub proof fn lemma_popcount_empty_and_single(none: BitBoard, single: BitBoard, square: usize)
    requires
        none@ == Set::<int>::empty(),
        single@ == set![wrapped(square)],
    ensures
        none@.len() == 0,
        single@.len() == 1,
{
}

/// Setting a square twice is the same as setting it once: `once` is what
/// `set_bit(square)` makes of `m`, and `twice` what it makes of `once`.
pub proof fn lemma_set_bit_idempotent(m: BitBoard, once: BitBoard, twice: BitBoard, square: usize)
    requires
        once@ == m@.insert(wrapped(square)),
        twice@ == once@.insert(wrapped(square)),
    ensures
        twice == once,
{
    assert(twice@ =~= once@);
    lemma_same_squares(twice, once);
}

/// Clearing a square twice is the same as clearing it once: `once` is what
/// `clear_bit(square)` makes of `m`, and `twice` what it makes of `once`.
pub proof fn lemma_clear_bit_idempotent(
    m: BitBoard,
    once: BitBoard,
    twice: BitBoard,
    square: usize,
)
    requires
        once@ == m@.remove(wrapped(square)),
        twice@ == once@.remove(wrapped(square)),
    ensures
        twice == once,
{
    assert(twice@ =~= once@);
    lemma_same_squares(twice, once);
}

/// The squares of a board, lowest first, are in strictly ascending order,
/// hold each square of the board once and no other square, and are as many
/// as the board counts.
pub proof fn lemma_squares(b: BitBoard)
    ensures
        is_ascending(b.squares()),
        b.squares().no_duplicates(),
        b.squares().to_set() == b@,
        b.squares().len() == b@.len(),
{
    lemma_ones_finite(b.0);
    lemma_ascending(b@);
}

/// Whatever a traversal has handed out already, the squares still to come
/// are squares of `0..64` in strictly ascending order.
pub proof fn lemma_traversal_ascending(it: BitBoardIterator)
    ensures
        is_ascending(it@),
        forall|i: int| 0 <= i < it@.len() ==> 0 <= #[trigger] it@[i] < 64,
{
    lemma_ones_finite(it.0);
    lemma_ascending(ones(it.0));
    assert forall|i: int| 0 <= i < it@.len() implies 0 <= #[trigger] it@[i] < 64 by {
        assert(it@.to_set().contains(it@[i]));
    }
}

/// Two traversals of one board hand out the same squares in the same
/// order: `first` and `second` are what two calls of `iter()` on `b`
/// returned.
pub proof fn lemma_iter_twice(b: BitBoard, first: BitBoardIterator, second: BitBoardIterator)
    requires
        first@ == b.squares(),
        second@ == b.squares(),
    ensures
        first@ == second@,
{
}

} // verus!
