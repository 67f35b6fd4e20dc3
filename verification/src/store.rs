//! The element-store contract: the storage unit that physically holds
//! packed bits.
//!
//! Storage elements here are eight-bit unsigned words.  The contract has
//! two operations: the width of one element in bits, and a mask with
//! exactly one bit set, used to test a single physical position within an
//! element.

use vstd::prelude::*;

verus! {

/// The number of bits in one storage element.
pub open spec fn elem_bits() -> int {
    8
}

/// Whether physical bit `pos` of element `e` is set.
pub open spec fn nth_bit(e: u8, pos: int) -> bool {
    ((e >> (pos as u8)) & 1) == 1
}

/// A value with exactly bit `pos` set.
pub open spec fn mask_spec(pos: int) -> u8 {
    1u8 << (pos as u8)
}

/// The width of one storage element in bits.
pub fn bit_width() -> (r: usize)
    ensures
        r == elem_bits(),
{
    8
}

/// The single-bit mask for physical position `position` of an element.
pub fn mask_for(position: u8) -> (r: u8)
    requires
        position < elem_bits(),
    ensures
        r == mask_spec(position as int),
        forall|q: int| 0 <= q < elem_bits() ==> (nth_bit(r, q) <==> q == position),
{
    proof {
        lemma_mask_single_bit(position);
    }
    1u8 << position
}

/// A mask has its own position set and no other.
pub proof fn lemma_mask_single_bit(position: u8)
    requires
        position < elem_bits(),
    ensures
        forall|q: int| 0 <= q < elem_bits() ==> (nth_bit(mask_spec(position as int), q) <==> q
            == position),
{
    assert forall|q: int| 0 <= q < elem_bits() implies (nth_bit(
        mask_spec(position as int),
        q,
    ) <==> q == position) by {
        let qb = q as u8;
        assert(position < 8 && qb < 8 ==> ((((1u8 << position) >> qb) & 1) == 1 <==> qb
            == position)) by (bit_vector);
    }
}

/// Testing an element against a mask reads exactly the masked bit.
pub proof fn lemma_mask_test(e: u8, position: u8)
    requires
        position < elem_bits(),
    ensures
        (e & mask_spec(position as int)) != 0 <==> nth_bit(e, position as int),
{
    assert(position < 8 ==> ((e & (1u8 << position)) != 0 <==> ((e >> position) & 1) == 1))
        by (bit_vector);
}

} // verus!
