//! The word-level model: which bits of a `u64` are one, and what the
//! bitwise operators do to them.

use crate::order::is_least;
use vstd::prelude::*;
use vstd::std_specs::bits::{axiom_u64_trailing_zeros, u64_trailing_zeros};

verus! {

/// Whether bit `i` of `word` is one. Bit 0 is the least significant bit;
/// a word has no bits outside `0..64`.
pub open spec fn bit(word: u64, i: int) -> bool {
    0 <= i < 64 && (word >> (i as u64)) & 1 == 1
}

/// The positions of the one bits of `word`.
pub open spec fn ones(word: u64) -> Set<int> {
    Set::new(|i: int| bit(word, i))
}

/// What `u64::count_ones` of the standard library returns: the number
/// of ones in the binary representation of the word, that is, how many bit
/// positions of it hold a one. Taken on trust from the documentation of the
/// standard library.
pub assume_specification[ u64::count_ones ](i: u64) -> (r: u32)
    ensures
        r == ones(i).len(),
;

/// The one bits of a word lie in `0..64`, so there are finitely many of
/// them, 64 at most.
pub proof fn lemma_ones_finite(word: u64)
    ensures
        ones(word).finite(),
        ones(word).len() <= 64,
        forall|i: int| ones(word).contains(i) ==> 0 <= i < 64,
{
    vstd::set_lib::lemma_int_range(0, 64);
    assert(ones(word).subset_of(vstd::set_lib::set_int_range(0, 64)));
    vstd::set_lib::lemma_len_subset(ones(word), vstd::set_lib::set_int_range(0, 64));
}

proof fn lemma_bit_zero(j: u64)
    by (bit_vector)
    ensures
        (0u64 >> j) & 1 != 1,
{
}

/// The zero word has no one bits.
pub proof fn lemma_ones_zero()
    ensures
        ones(0) == Set::<int>::empty(),
{
    assert forall|i: int| !ones(0).contains(i) by {
        if 0 <= i < 64 {
            lemma_bit_zero(i as u64);
        }
    }
    assert(ones(0) =~= Set::<int>::empty());
}

proof fn lemma_bit_single(s: u64, j: u64)
    by (bit_vector)
    requires
        s < 64,
        j < 64,
    ensures
        ((1u64 << s) >> j) & 1 == 1 <==> j == s,
{
}

/// A one shifted left by `s` has its single one bit at position `s`.
pub proof fn lemma_ones_single(s: u64)
    requires
        s < 64,
    ensures
        ones(1u64 << s) == set![s as int],
{
    assert forall|i: int| ones(1u64 << s).contains(i) <==> i == s by {
        if 0 <= i < 64 {
            lemma_bit_single(s, i as u64);
        }
    }
    assert(ones(1u64 << s) =~= set![s as int]);
}

proof fn lemma_bit_or(a: u64, b: u64, j: u64)
    by (bit_vector)
    requires
        j < 64,
    ensures
        ((a | b) >> j) & 1 == 1 <==> (a >> j) & 1 == 1 || (b >> j) & 1 == 1,
{
}

/// Bitwise or is the union of the one bits.
pub proof fn lemma_ones_or(a: u64, b: u64)
    ensures
        ones(a | b) == ones(a).union(ones(b)),
{
    assert forall|i: int| ones(a | b).contains(i) <==> ones(a).union(ones(b)).contains(i) by {
        if 0 <= i < 64 {
            lemma_bit_or(a, b, i as u64);
        }
    }
    assert(ones(a | b) =~= ones(a).union(ones(b)));
}

proof fn lemma_bit_and_not(a: u64, b: u64, j: u64)
    by (bit_vector)
    requires
        j < 64,
    ensures
        ((a & !b) >> j) & 1 == 1 <==> (a >> j) & 1 == 1 && (b >> j) & 1 != 1,
{
}

/// Masking a word with the complement of another takes the one bits of the
/// second away from those of the first.
pub proof fn lemma_ones_and_not(a: u64, b: u64)
    ensures
        ones(a & !b) == ones(a).difference(ones(b)),
{
    assert forall|i: int|
        ones(a & !b).contains(i) <==> ones(a).difference(ones(b)).contains(i) by {
        if 0 <= i < 64 {
            lemma_bit_and_not(a, b, i as u64);
        }
    }
    assert(ones(a & !b) =~= ones(a).difference(ones(b)));
}

proof fn lemma_bit_probe(word: u64, s: u64)
    by (bit_vector)
    requires
        s < 64,
    ensures
        word & (1u64 << s) != 0 <==> (word >> s) & 1 == 1,
{
}

/// Masking a word with a one shifted left by `s` leaves something exactly
/// when bit `s` of the word is one.
pub proof fn lemma_ones_probe(word: u64, s: u64)
    requires
        s < 64,
    ensures
        word & (1u64 << s) != 0 <==> ones(word).contains(s as int),
{
    lemma_bit_probe(word, s);
}

proof fn lemma_bit_differs(a: u64, b: u64, j: u64)
    by (bit_vector)
    requires
        j < 64,
        ((a ^ b) >> j) & 1 == 1,
    ensures
        (a >> j) & 1 == 1 <==> (b >> j) & 1 != 1,
{
}

proof fn lemma_xor_zero(a: u64, b: u64)
    by (bit_vector)
    requires
        a ^ b == 0,
    ensures
        a == b,
{
}

/// A word is determined by its one bits.
pub proof fn lemma_ones_injective(a: u64, b: u64)
    requires
        ones(a) == ones(b),
    ensures
        a == b,
{
    let x = a ^ b;
    if x != 0 {
        axiom_u64_trailing_zeros(x);
        let t = u64_trailing_zeros(x) as u64;
        lemma_bit_differs(a, b, t);
        assert(ones(a).contains(t as int) <==> bit(a, t as int));
        assert(ones(b).contains(t as int) <==> bit(b, t as int));
        assert(false);
    }
    lemma_xor_zero(a, b);
}

proof fn lemma_bit_clear_lowest(word: u64, t: u64, j: u64)
    by (bit_vector)
    requires
        t < 64,
        j < 64,
        (word >> t) & 1 == 1,
        word << ((64 - t) as u64) == 0,
    ensures
        ((word & ((word - 1) as u64)) >> j) & 1 == 1 <==> (word >> j) & 1 == 1 && j != t,
        j < t ==> (word >> j) & 1 != 1,
{
}

/// The number of trailing zeros of a word other than zero is the position
/// of its lowest one bit, and `word & (word - 1)` is the word without that
/// bit.
pub proof fn lemma_lowest_one(word: u64)
    requires
        word != 0,
    ensures
        u64_trailing_zeros(word) < 64,
        is_least(ones(word), u64_trailing_zeros(word) as int),
        ones(word & ((word - 1) as u64)) == ones(word).remove(u64_trailing_zeros(word) as int),
{
    axiom_u64_trailing_zeros(word);
    let t = u64_trailing_zeros(word) as u64;
    let rest = word & ((word - 1) as u64);
    assert forall|i: int|
        (ones(rest).contains(i) <==> ones(word).remove(t as int).contains(i)) && (ones(
            word,
        ).contains(i) ==> t <= i) by {
        if 0 <= i < 64 {
            lemma_bit_clear_lowest(word, t, i as u64);
        }
    }
    lemma_bit_clear_lowest(word, t, t);
    assert(ones(rest) =~= ones(word).remove(t as int));
}

} // verus!
