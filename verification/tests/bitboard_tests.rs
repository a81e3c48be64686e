use bitboard::board::{BitBoard, BitBoardIterator};
use std::collections::HashSet;

fn drain(mut it: BitBoardIterator) -> Vec<usize> {
    let mut out = Vec::new();
    while let Some(square) = it.next() {
        out.push(square);
    }
    out
}

const SAMPLES: [u64; 8] = [
    0,
    1,
    0x8000_0000_0000_0000,
    0x8000_0000_0000_0001,
    0x0000_0000_0000_ff00,
    0x00ff_0000_0000_0000,
    0x5555_5555_5555_5555,
    u64::MAX,
];

#[test]
fn empty_has_no_squares() {
    let b = BitBoard::empty();
    assert_eq!(b.0, 0);
    assert_eq!(b.popcount(), 0);
    for square in 0..64 {
        assert!(!b.is_set(square));
    }
    assert_eq!(drain(b.iter()), Vec::<usize>::new());
}

#[test]
fn from_square_holds_that_square_only() {
    for i in 0..64 {
        let b = BitBoard::from_square(i);
        for j in 0..64 {
            assert_eq!(b.is_set(j), i == j);
        }
    }
}

#[test]
fn from_square_sets_the_bit_of_the_square() {
    assert_eq!(BitBoard::from_square(0).0, 1);
    assert_eq!(BitBoard::from_square(1).0, 2);
    assert_eq!(BitBoard::from_square(9).0, 512);
    assert_eq!(BitBoard::from_square(63).0, 0x8000_0000_0000_0000);
}

#[test]
fn ranks_take_eight_bits_each() {
    let mut second_rank = BitBoard::empty();
    for file in 0..8 {
        second_rank.set_bit(8 + file);
    }
    assert_eq!(second_rank.0, 0x0000_0000_0000_ff00);
    let mut last_rank = BitBoard::empty();
    for file in 0..8 {
        last_rank.set_bit(7 * 8 + file);
    }
    assert_eq!(last_rank.0, 0xff00_0000_0000_0000);
}

#[test]
fn set_bit_adds_one_square() {
    let mut b = BitBoard(0x0000_0000_0000_ff00);
    b.set_bit(3);
    assert_eq!(b.0, 0x0000_0000_0000_ff08);
    assert!(b.is_set(3));
    assert_eq!(b.popcount(), 9);
}

#[test]
fn clear_bit_takes_one_square() {
    let mut b = BitBoard(0x0000_0000_0000_ff00);
    b.clear_bit(8);
    assert_eq!(b.0, 0x0000_0000_0000_fe00);
    assert!(!b.is_set(8));
    assert_eq!(b.popcount(), 7);
}

#[test]
fn set_then_clear_gives_the_board_back() {
    for word in SAMPLES {
        for square in 0..64 {
            let m = BitBoard(word);
            if m.is_set(square) {
                continue;
            }
            let mut b = m;
            b.set_bit(square);
            assert!(b.is_set(square));
            b.clear_bit(square);
            assert_eq!(b, m);
        }
    }
}

#[test]
fn set_then_clear_drops_a_square_that_was_set() {
    let m = BitBoard(0b1000);
    let mut b = m;
    b.set_bit(3);
    b.clear_bit(3);
    assert_eq!(b, BitBoard(0));
    assert_ne!(b, m);
}

#[test]
fn popcount_of_empty_and_of_single_squares() {
    assert_eq!(BitBoard::empty().popcount(), 0);
    for square in 0..64 {
        assert_eq!(BitBoard::from_square(square).popcount(), 1);
    }
}

#[test]
fn popcount_counts_the_squares() {
    assert_eq!(BitBoard(0xff).popcount(), 8);
    assert_eq!(BitBoard(0x8000_0000_0000_0001).popcount(), 2);
    assert_eq!(BitBoard(0x5555_5555_5555_5555).popcount(), 32);
    assert_eq!(BitBoard(u64::MAX).popcount(), 64);
    assert_eq!(BitBoard(3).popcount(), 2);
}

#[test]
fn set_bit_twice_is_set_bit_once() {
    for word in SAMPLES {
        for square in 0..64 {
            let mut once = BitBoard(word);
            once.set_bit(square);
            let mut twice = once;
            twice.set_bit(square);
            assert_eq!(twice, once);
        }
    }
}

#[test]
fn clear_bit_twice_is_clear_bit_once() {
    for word in SAMPLES {
        for square in 0..64 {
            let mut once = BitBoard(word);
            once.clear_bit(square);
            let mut twice = once;
            twice.clear_bit(square);
            assert_eq!(twice, once);
        }
    }
}

#[test]
fn iter_yields_the_squares_in_ascending_order() {
    for word in SAMPLES {
        let b = BitBoard(word);
        let squares = drain(b.iter());
        let expected: Vec<usize> = (0..64).filter(|&square| b.is_set(square)).collect();
        assert_eq!(squares, expected);
        for pair in squares.windows(2) {
            assert!(pair[0] < pair[1]);
        }
        assert_eq!(squares.len(), b.popcount() as usize);
    }
}

#[test]
fn iter_leaves_the_board_and_can_be_repeated() {
    for word in SAMPLES {
        let b = BitBoard(word);
        let first = drain(b.iter());
        assert_eq!(b.0, word);
        let second = drain(b.iter());
        assert_eq!(first, second);
    }
}

#[test]
fn two_traversals_do_not_disturb_each_other() {
    let b = BitBoard(0b1011);
    let mut a = b.iter();
    let mut c = b.iter();
    assert_eq!(a.next(), Some(0));
    assert_eq!(a.next(), Some(1));
    assert_eq!(c.next(), Some(0));
    assert_eq!(a.next(), Some(3));
    assert_eq!(c.next(), Some(1));
    assert_eq!(a.next(), None);
    assert_eq!(c.next(), Some(3));
    assert_eq!(c.next(), None);
}

#[test]
fn next_stays_none_once_exhausted() {
    let mut it = BitBoard::from_square(17).iter();
    assert_eq!(it.next(), Some(17));
    assert_eq!(it.next(), None);
    assert_eq!(it.next(), None);
    let mut none = BitBoard::empty().iter();
    assert_eq!(none.next(), None);
    assert_eq!(none.next(), None);
}

#[test]
fn iter_over_the_full_board() {
    let squares = drain(BitBoard(u64::MAX).iter());
    let expected: Vec<usize> = (0..64).collect();
    assert_eq!(squares, expected);
}

#[test]
fn corner_squares_scenario() {
    let mut b = BitBoard::empty();
    b.set_bit(0);
    b.set_bit(63);
    assert_eq!(b.popcount(), 2);
    assert_eq!(drain(b.iter()), vec![0, 63]);
    assert_eq!(b.0, 0x8000_0000_0000_0001);
}

#[test]
fn indices_wrap_around_at_64() {
    assert_eq!(BitBoard::from_square(64), BitBoard::from_square(0));
    assert_eq!(BitBoard::from_square(64 + 17), BitBoard::from_square(17));
    assert_eq!(BitBoard::from_square(usize::MAX), BitBoard::from_square(63));

    let mut b = BitBoard::empty();
    b.set_bit(70);
    assert_eq!(b, BitBoard::from_square(6));
    assert!(b.is_set(6));
    assert!(b.is_set(70));
    assert!(b.is_set(6 + 128));
    assert!(!b.is_set(71));

    b.set_bit(63);
    b.clear_bit(127);
    assert_eq!(b, BitBoard::from_square(6));
    b.clear_bit(64 + 6);
    assert_eq!(b, BitBoard::empty());
}

#[test]
fn default_board_is_empty() {
    let b = BitBoard::default();
    assert_eq!(b, BitBoard::empty());
    assert_eq!(b.popcount(), 0);
}

#[test]
fn boards_compare_by_their_words() {
    assert_eq!(BitBoard(5), BitBoard(5));
    assert_ne!(BitBoard(5), BitBoard(6));
    assert!(BitBoard(1) < BitBoard(2));
    assert!(BitBoard(u64::MAX) > BitBoard(0));
    assert_eq!(BitBoard(3).max(BitBoard(9)), BitBoard(9));
}

#[test]
fn boards_copy_hash_and_print() {
    let a = BitBoard(0b101);
    let b = a;
    let c = a.clone();
    assert_eq!(a, b);
    assert_eq!(a, c);
    let mut seen = HashSet::new();
    assert!(seen.insert(a));
    assert!(!seen.insert(b));
    assert!(seen.insert(BitBoard(0)));
    assert_eq!(format!("{:?}", a), "BitBoard(5)");
}
