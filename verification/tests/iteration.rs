//! The double-ended iteration protocol over owned and borrowed regions.

use bitvec::boxed::BitBox;
use bitvec::cursor::Msb0;
use bitvec::pointer::BitPtrError;

/// The ten-bit pattern 1011001101, logical index 0 first, packed Msb0.
fn pattern_box() -> BitBox<Msb0> {
    BitBox::new(vec![0b1011_0011u8, 0b0100_0000u8], 0, 10).unwrap()
}

/// The same pattern as plain booleans.
fn pattern_bits() -> [bool; 10] {
    [true, false, true, true, false, false, true, true, false, true]
}

#[test]
fn front_consumption_yields_all_bits_then_stays_exhausted() {
    let mut it = pattern_box().into_iter();
    for i in 0usize..10 {
        assert_eq!(it.next(), Some(pattern_bits()[i]));
    }
    assert_eq!(it.next(), None);
    assert_eq!(it.next(), None);
    assert_eq!(it.next(), None);
    assert_eq!(it.size_hint(), (0, Some(0)));
    assert_eq!(it.next_back(), None);
}

#[test]
fn front_back_interleavings_yield_the_same_bits() {
    for k in 0usize..11 {
        let mut it = pattern_box().into_iter();
        let mut recovered: [Option<bool>; 10] = [None; 10];
        for i in 0usize..k {
            recovered[i] = it.next();
        }
        for j in 0usize..(10 - k) {
            recovered[9 - j] = it.next_back();
        }
        assert_eq!(it.next(), None);
        assert_eq!(it.next_back(), None);
        for i in 0usize..10 {
            assert_eq!(recovered[i], Some(pattern_bits()[i]));
        }
    }
}

#[test]
fn size_hint_is_exact_after_every_step() {
    let mut it = pattern_box().into_iter();
    let mut remaining: usize = 10;
    for step in 0usize..12 {
        assert_eq!(it.size_hint(), (remaining, Some(remaining)));
        if step % 2 == 0 {
            it.next();
        } else {
            it.next_back();
        }
        if remaining > 0 {
            remaining -= 1;
        }
    }
    assert_eq!(it.size_hint(), (0, Some(0)));
}

#[test]
fn nth_matches_repeated_next() {
    for n in 0usize..10 {
        let mut by_nth = pattern_box().into_iter();
        let mut by_next = pattern_box().into_iter();
        let mut stepped: Option<bool> = None;
        for _ in 0usize..(n + 1) {
            stepped = by_next.next();
        }
        assert_eq!(by_nth.nth(n), stepped);
        assert_eq!(by_nth.size_hint(), by_next.size_hint());
        assert_eq!(by_nth.next(), by_next.next());
    }
}

#[test]
fn nth_past_the_end_exhausts() {
    let mut it = pattern_box().into_iter();
    assert_eq!(it.nth(10), None);
    assert_eq!(it.size_hint(), (0, Some(0)));
    assert_eq!(it.next(), None);

    let mut far = pattern_box().into_iter();
    assert_eq!(far.nth(1000), None);
    assert_eq!(far.next(), None);
}

#[test]
fn count_reads_the_remaining_length() {
    let it = pattern_box().into_iter();
    assert_eq!(it.count(), 10);

    let mut part = pattern_box().into_iter();
    part.next();
    part.next_back();
    part.next();
    assert_eq!(part.count(), 7);
}

#[test]
fn last_is_one_back_step() {
    let it = pattern_box().into_iter();
    assert_eq!(it.last(), Some(true));

    let mut part = pattern_box().into_iter();
    part.next_back();
    assert_eq!(part.last(), Some(false));

    let mut drained = pattern_box().into_iter();
    for _ in 0usize..10 {
        drained.next();
    }
    assert_eq!(drained.last(), None);
}

#[test]
fn scenario_three_front_two_back_then_drain() {
    let mut it = pattern_box().into_iter();
    assert_eq!(it.next(), Some(true));
    assert_eq!(it.next(), Some(false));
    assert_eq!(it.next(), Some(true));
    assert_eq!(it.next_back(), Some(true));
    assert_eq!(it.next_back(), Some(false));
    assert_eq!(it.size_hint(), (5, Some(5)));
    assert_eq!(it.next(), Some(true));
    assert_eq!(it.next(), Some(false));
    assert_eq!(it.next(), Some(false));
    assert_eq!(it.next(), Some(true));
    assert_eq!(it.next(), Some(true));
    assert_eq!(it.next(), None);
}

#[test]
fn dropping_iterators_at_any_stage_is_sound() {
    // Untouched.
    let zero = pattern_box().into_iter();
    drop(zero);
    // Fully drained from the front.
    let mut full = pattern_box().into_iter();
    while full.next().is_some() {}
    drop(full);
    // Partially drained from the front only.
    let mut front = pattern_box().into_iter();
    front.next();
    front.next();
    drop(front);
    // Partially drained from the back only.
    let mut back = pattern_box().into_iter();
    back.next_back();
    back.next_back();
    drop(back);
    // Interleaved.
    let mut mixed = pattern_box().into_iter();
    mixed.next();
    mixed.next_back();
    mixed.next();
    drop(mixed);
}

#[test]
fn borrowed_iteration_leaves_the_box_usable() {
    let bb = pattern_box();
    let mut it = bb.iter();
    assert_eq!(it.next(), Some(true));
    assert_eq!(it.next_back(), Some(true));
    assert_eq!(it.size_hint(), (8, Some(8)));
    // The box itself is untouched by iterating a borrowed view.
    assert_eq!(bb.len(), 10);
    let mut again = bb.iter();
    assert_eq!(again.next(), Some(true));
}

#[test]
fn transient_iterator_does_not_advance_the_owner() {
    let owner = pattern_box().into_iter();
    let mut transient = owner.iterator();
    assert_eq!(transient.next(), Some(true));
    assert_eq!(transient.next(), Some(false));
    assert_eq!(owner.size_hint(), (10, Some(10)));
}

#[test]
fn nth_on_a_borrowed_iterator_skips() {
    let bb = pattern_box();
    let mut it = bb.iter();
    assert_eq!(it.nth(3), Some(true));
    assert_eq!(it.size_hint(), (6, Some(6)));
    assert_eq!(it.nth(100), None);
    assert_eq!(it.size_hint(), (0, Some(0)));
}

#[test]
fn empty_region_is_exhausted_from_the_start() {
    let empty: BitBox<Msb0> = BitBox::new(vec![], 0, 0).unwrap();
    assert_eq!(empty.len(), 0);
    let mut it = empty.into_iter();
    assert_eq!(it.size_hint(), (0, Some(0)));
    assert_eq!(it.next(), None);
    assert_eq!(it.next_back(), None);
    assert_eq!(it.last(), None);
}

#[test]
fn lsb0_reads_the_low_bit_first() {
    let bb: BitBox<bitvec::cursor::Lsb0> = BitBox::new(vec![0b0000_0101u8], 0, 3).unwrap();
    let mut it = bb.into_iter();
    assert_eq!(it.next(), Some(true));
    assert_eq!(it.next(), Some(false));
    assert_eq!(it.next(), Some(true));
    assert_eq!(it.next(), None);
}

#[test]
fn head_offset_starts_mid_element() {
    // Same bytes as the pattern, but the window starts at logical bit 2.
    let bb: BitBox<Msb0> = BitBox::new(vec![0b1011_0011u8, 0b0100_0000u8], 2, 8).unwrap();
    let mut it = bb.into_iter();
    for i in 2usize..10 {
        assert_eq!(it.next(), Some(pattern_bits()[i]));
    }
    assert_eq!(it.next(), None);
}

#[test]
fn box_construction_rejects_bad_windows() {
    let r: Result<BitBox<Msb0>, BitPtrError> = BitBox::new(vec![0u8], 8, 0);
    assert_eq!(r.err(), Some(BitPtrError::InvalidRange));
    let r: Result<BitBox<Msb0>, BitPtrError> = BitBox::new(vec![0u8], 0, 9);
    assert_eq!(r.err(), Some(BitPtrError::InvalidRange));
    let r: Result<BitBox<Msb0>, BitPtrError> = BitBox::new(vec![0u8], 7, 2);
    assert_eq!(r.err(), Some(BitPtrError::InvalidRange));
    let ok: Result<BitBox<Msb0>, BitPtrError> = BitBox::new(vec![0u8], 7, 1);
    assert!(ok.is_ok());
}
