//! Sets of squares listed smallest first.

use vstd::prelude::*;

verus! {

/// Whether `m` is the smallest member of `s`.
pub open spec fn is_least(s: Set<int>, m: int) -> bool {
    s.contains(m) && forall|j: int| s.contains(j) ==> m <= j
}

/// Whether each entry of `q` is smaller than every entry after it.
pub open spec fn is_ascending(q: Seq<int>) -> bool {
    forall|i: int, j: int| 0 <= i < j < q.len() ==> q[i] < q[j]
}

/// The members of `s` from `lo` up to 63, smallest first.
pub open spec fn ascending_from(s: Set<int>, lo: int) -> Seq<int>
    decreases 64 - lo,
{
    if lo >= 64 {
        Seq::empty()
    } else if s.contains(lo) {
        seq![lo] + ascending_from(s, lo + 1)
    } else {
        ascending_from(s, lo + 1)
    }
}

/// The members of `s` among the squares `0..64`, smallest first.
pub open spec fn ascending(s: Set<int>) -> Seq<int> {
    ascending_from(s, 0)
}

/// The listing from `lo` holds the members of `s` in `lo..64` and nothing
/// else.
pub proof fn lemma_ascending_members(s: Set<int>, lo: int)
    ensures
        forall|x: int| #[trigger]
            ascending_from(s, lo).contains(x) ==> lo <= x < 64 && s.contains(x),
        forall|x: int|
            lo <= x < 64 && #[trigger] s.contains(x) ==> ascending_from(s, lo).contains(x),
    decreases 64 - lo,
{
    let q = ascending_from(s, lo);
    if lo < 64 {
        let tail = ascending_from(s, lo + 1);
        lemma_ascending_members(s, lo + 1);
        if s.contains(lo) {
            assert(q == seq![lo] + tail);
            assert forall|x: int| #[trigger] q.contains(x) implies lo <= x < 64 && s.contains(
                x,
            ) by {
                let i = choose|i: int| 0 <= i < q.len() && q[i] == x;
                if i > 0 {
                    assert(tail[i - 1] == x);
                    assert(tail.contains(x));
                }
            }
            assert forall|x: int| lo <= x < 64 && #[trigger] s.contains(x) implies q.contains(
                x,
            ) by {
                if x == lo {
                    assert(q[0] == x);
                } else {
                    assert(tail.contains(x));
                    let i = choose|i: int| 0 <= i < tail.len() && tail[i] == x;
                    assert(q[i + 1] == x);
                }
            }
        } else {
            assert(q == tail);
        }
    } else {
        assert(q.len() == 0);
    }
}

/// The listing from `lo` is in strictly ascending order.
pub proof fn lemma_ascending_sorted(s: Set<int>, lo: int)
    ensures
        is_ascending(ascending_from(s, lo)),
    decreases 64 - lo,
{
    let q = ascending_from(s, lo);
    if lo < 64 {
        let tail = ascending_from(s, lo + 1);
        lemma_ascending_sorted(s, lo + 1);
        lemma_ascending_members(s, lo + 1);
        if s.contains(lo) {
            assert(q == seq![lo] + tail);
            assert forall|i: int, j: int| 0 <= i < j < q.len() implies q[i] < q[j] by {
                assert(q[j] == tail[j - 1]);
                assert(tail.contains(tail[j - 1]));
                if i > 0 {
                    assert(q[i] == tail[i - 1]);
                } else {
                    assert(q[i] == lo);
                }
            }
        }
    }
}

/// Two sets with the same members from `lo` on have the same listing from
/// `lo`.
pub proof fn lemma_ascending_agree(s1: Set<int>, s2: Set<int>, lo: int)
    requires
        forall|x: int| lo <= x ==> (s1.contains(x) <==> s2.contains(x)),
    ensures
        ascending_from(s1, lo) == ascending_from(s2, lo),
    decreases 64 - lo,
{
    if lo < 64 {
        lemma_ascending_agree(s1, s2, lo + 1);
    }
}

/// Where `m` is the smallest member of `s` from `lo` on, the listing from
/// `lo` starts with `m` and goes on with the listing of `s` without `m`.
pub proof fn lemma_ascending_step(s: Set<int>, lo: int, m: int)
    requires
        lo <= m < 64,
        s.contains(m),
        forall|j: int| lo <= j && s.contains(j) ==> m <= j,
    ensures
        ascending_from(s, lo) == seq![m] + ascending_from(s.remove(m), lo),
    decreases m - lo,
{
    if lo == m {
        lemma_ascending_agree(s.remove(m), s, m + 1);
    } else {
        lemma_ascending_step(s, lo + 1, m);
    }
}

/// A set without members among the squares has the empty listing.
pub proof fn lemma_ascending_none(s: Set<int>)
    requires
        forall|x: int| 0 <= x < 64 ==> !s.contains(x),
    ensures
        ascending(s) == Seq::<int>::empty(),
{
    lemma_ascending_members(s, 0);
    let q = ascending(s);
    if q.len() > 0 {
        assert(q.contains(q[0]));
    }
    assert(q.len() == 0);
    assert(q =~= Seq::<int>::empty());
}

/// The listing of a set of squares is in strictly ascending order, holds
/// each member once and nothing else, and so is as long as the set is
/// large.
pub proof fn lemma_ascending(s: Set<int>)
    requires
        forall|x: int| s.contains(x) ==> 0 <= x < 64,
    ensures
        is_ascending(ascending(s)),
        ascending(s).no_duplicates(),
        ascending(s).to_set() == s,
        ascending(s).len() == s.len(),
{
    let q = ascending(s);
    lemma_ascending_sorted(s, 0);
    lemma_ascending_members(s, 0);
    assert(q.no_duplicates()) by {
        assert forall|i: int, j: int| 0 <= i < q.len() && 0 <= j < q.len() && i != j implies q[i]
            != q[j] by {
            if i < j {
                assert(q[i] < q[j]);
            } else {
                assert(q[j] < q[i]);
            }
        }
    }
    assert(q.to_set() =~= s);
    q.unique_seq_to_set();
}

} // verus!
