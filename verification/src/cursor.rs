//! The bit-order contract: how a logical bit index within one storage
//! element maps to a physical bit position in that element.
//!
//! The mapping must be a bijection on `[0, elem_bits())`; here that is
//! stated as two proof obligations (the image stays in range, and the
//! mapping is injective) that every implementation discharges.

use vstd::prelude::*;

use crate::store::elem_bits;

verus! {

/// A bit-order: a total bijection from logical bit indices to physical
/// bit positions within one storage element.
pub trait Cursor: Sized {
    /// The physical position that logical index `logical` maps to.
    spec fn pos_spec(logical: int) -> int;

    /// The mapping sends `[0, elem_bits())` into `[0, elem_bits())`.
    proof fn lemma_pos_in_range(logical: int)
        requires
            0 <= logical < elem_bits(),
        ensures
            0 <= Self::pos_spec(logical) < elem_bits(),
    ;

    /// The mapping is injective on `[0, elem_bits())`; together with the
    /// range bound this makes it a bijection on that interval.
    proof fn lemma_pos_injective(a: int, b: int)
        requires
            0 <= a < elem_bits(),
            0 <= b < elem_bits(),
            Self::pos_spec(a) == Self::pos_spec(b),
        ensures
            a == b,
    ;

    /// Compute the physical position of logical index `logical`.
    fn at(logical: u8) -> (r: u8)
        requires
            logical < elem_bits(),
        ensures
            r == Self::pos_spec(logical as int),
            r < elem_bits(),
    ;
}

/// Most-significant-bit-first ordering: logical index 0 is the highest
/// physical bit of an element.
pub struct Msb0;

/// Least-significant-bit-first ordering: logical index 0 is the lowest
/// physical bit of an element.
pub struct Lsb0;

impl Cursor for Msb0 {
    open spec fn pos_spec(logical: int) -> int {
        elem_bits() - 1 - logical
    }

    proof fn lemma_pos_in_range(logical: int) {
    }

    proof fn lemma_pos_injective(a: int, b: int) {
    }

    fn at(logical: u8) -> (r: u8) {
        7 - logical
    }
}

impl Cursor for Lsb0 {
    open spec fn pos_spec(logical: int) -> int {
        logical
    }

    proof fn lemma_pos_in_range(logical: int) {
    }

    proof fn lemma_pos_injective(a: int, b: int) {
    }

    fn at(logical: u8) -> (r: u8) {
        logical
    }
}

} // verus!
