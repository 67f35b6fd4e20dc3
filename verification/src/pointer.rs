//! The compact bit-region descriptor.
//!
//! A [`BitPtr`] names a contiguous run of logical bits inside a buffer of
//! storage elements: the index of the first element (`base`), the offset of
//! the first live bit within that element (`head`, always below the element
//! width), and the number of live bits (`len`).  All address arithmetic of
//! the crate is centralised here; derived sub-descriptors come only from
//! the validated split operations, never from ad hoc field surgery.

use vstd::prelude::*;

use crate::cursor::Cursor;
use crate::store::{elem_bits, lemma_mask_test, mask_for, nth_bit};

verus! {

/// The ways a descriptor operation can fail.
#[derive(Clone, Copy, Debug, PartialEq, Eq, Structural)]
pub enum BitPtrError {
    /// Construction was asked for a descriptor that no valid encoding can
    /// hold: a head offset at or past the element width, or a span whose
    /// end would overflow address arithmetic.
    InvalidRange,
    /// An index or split point lay beyond the current window length.
    OutOfBounds,
}

/// The descriptor: element index of the first storage element, head bit
/// offset within it, and the number of live bits.
#[derive(Clone, Copy, Debug, PartialEq, Eq, Structural)]
pub struct BitPtr {
    base: usize,
    head: usize,
    len: usize,
}

/// The bit of `data` that absolute logical index `idx` (measured in the
/// virtual bitstream that starts at element 0) addresses under order `C`.
pub open spec fn bit_at<C: Cursor>(data: Seq<u8>, idx: int) -> bool {
    nth_bit(data[idx / 8], C::pos_spec(idx % 8))
}

/// The run of `len` bits of `data` that starts at absolute logical index
/// `start`, read under order `C`.
pub open spec fn bits_of<C: Cursor>(data: Seq<u8>, start: int, len: int) -> Seq<bool> {
    Seq::new(len as nat, |i: int| bit_at::<C>(data, start + i))
}

/// Whether `(base, head, len)` fits the descriptor encoding: the head
/// offset stays below the element width and the span's end stays within
/// address arithmetic.
pub open spec fn encodable(base: int, head: int, len: int) -> bool {
    &&& 0 <= head < elem_bits()
    &&& base * elem_bits() + head + len <= usize::MAX
}

impl BitPtr {
    /// The element index of the first storage element.
    pub closed spec fn base_spec(self) -> nat {
        self.base as nat
    }

    /// The offset of the first live bit within the element at `base`.
    pub closed spec fn head_spec(self) -> nat {
        self.head as nat
    }

    /// The number of live bits.
    pub closed spec fn len_spec(self) -> nat {
        self.len as nat
    }

    /// The absolute logical index of the first live bit.
    pub open spec fn start(self) -> int {
        self.base_spec() * elem_bits() + self.head_spec()
    }

    /// The descriptor's own encoding invariant, independent of any buffer.
    pub open spec fn inv(self) -> bool {
        encodable(self.base_spec() as int, self.head_spec() as int, self.len_spec() as int)
    }

    /// Well-formedness against a concrete buffer: the whole window
    /// `[start, start + len)` lies within the buffer's bits.
    pub open spec fn wf(self, data: Seq<u8>) -> bool {
        &&& self.inv()
        &&& self.start() + self.len_spec() <= data.len() * elem_bits()
    }

    /// The logical bit sequence the descriptor addresses within `data`.
    pub open spec fn bits_in<C: Cursor>(self, data: Seq<u8>) -> Seq<bool> {
        bits_of::<C>(data, self.start(), self.len_spec() as int)
    }

    /// Build a descriptor, validating the encoding.
    ///
    /// Fails with `InvalidRange` exactly when `head` is at or past the
    /// element width or the span `base * elem_bits() + head + len` would
    /// overflow address arithmetic; inputs are never silently clamped.
    pub fn new(base: usize, head: usize, len: usize) -> (r: Result<BitPtr, BitPtrError>)
        ensures
            r is Ok <==> encodable(base as int, head as int, len as int),
            r matches Ok(p) ==> p.base_spec() == base && p.head_spec() == head && p.len_spec()
                == len && p.inv(),
            r matches Err(e) ==> e == BitPtrError::InvalidRange,
    {
        if head >= 8 {
            return Err(BitPtrError::InvalidRange);
        }
        let start_bits: usize = match base.checked_mul(8) {
            Some(s) => s,
            None => {
                return Err(BitPtrError::InvalidRange);
            },
        };
        let with_head: usize = match start_bits.checked_add(head) {
            Some(s) => s,
            None => {
                return Err(BitPtrError::InvalidRange);
            },
        };
        match with_head.checked_add(len) {
            Some(_) => Ok(BitPtr { base, head, len }),
            None => Err(BitPtrError::InvalidRange),
        }
    }

    /// The number of live bits in the window.
    pub fn len(&self) -> (r: usize)
        ensures
            r == self.len_spec(),
    {
        self.len
    }

    /// Whether the window holds no live bits.
    pub fn is_empty(&self) -> (r: bool)
        ensures
            r == (self.len_spec() == 0),
    {
        self.len == 0
    }

    /// Read the bit at logical position `index`, which the caller has
    /// already bounds-checked.  This is the one unchecked accessor; every
    /// public entry point reaches it only through a checked guard.
    fn read_bit<C: Cursor>(&self, data: &Vec<u8>, index: usize) -> (r: bool)
        requires
            self.wf(data@),
            index < self.len_spec(),
        ensures
            r == self.bits_in::<C>(data@)[index as int],
    {
        proof {
            lemma_elem_of_index(
                self.base_spec() as int,
                self.head_spec() as int,
                index as int,
                data@.len() as int,
            );
            assert(self.start() + self.len_spec() <= data@.len() * 8);
        }
        let abs: usize = self.head + index;
        let elem: usize = self.base + abs / 8;
        let pos: u8 = (abs % 8) as u8;
        let phys: u8 = C::at(pos);
        let mask: u8 = mask_for(phys);
        let e: u8 = data[elem];
        proof {
            lemma_mask_test(e, phys);
            assert(self.start() + index == elem * 8 + pos);
            assert((self.start() + index) / 8 == elem && (self.start() + index) % 8 == pos) by {
                assert(elem * 8 + pos == 8 * (elem as int) + pos);
            };
        }
        (e & mask) != 0
    }

    /// Read the bit at logical position `index`.
    ///
    /// Fails with `OutOfBounds` exactly when `index` is at or past the
    /// window length.
    pub fn get<C: Cursor>(&self, data: &Vec<u8>, index: usize) -> (r: Result<bool, BitPtrError>)
        requires
            self.wf(data@),
        ensures
            index < self.len_spec() ==> r == Ok::<bool, BitPtrError>(
                self.bits_in::<C>(data@)[index as int],
            ),
            index >= self.len_spec() ==> r == Err::<bool, BitPtrError>(BitPtrError::OutOfBounds),
    {
        if index >= self.len {
            return Err(BitPtrError::OutOfBounds);
        }
        Ok(self.read_bit::<C>(data, index))
    }

    /// Yield the front bit together with the descriptor of the window
    /// shrunk by one at the front, rolling the head into the next storage
    /// element when it passes the element boundary.
    ///
    /// Returns `None` exactly when the window is empty; that is the
    /// terminal condition of iteration, not an error.
    pub fn split_front<C: Cursor>(&self, data: &Vec<u8>) -> (r: Option<(bool, BitPtr)>)
        requires
            self.wf(data@),
        ensures
            r is None <==> self.len_spec() == 0,
            r matches Some((b, p)) ==> {
                &&& b == self.bits_in::<C>(data@)[0]
                &&& p.wf(data@)
                &&& p.start() == self.start() + 1
                &&& p.len_spec() == self.len_spec() - 1
                &&& p.bits_in::<C>(data@) == self.bits_in::<C>(data@).drop_first()
            },
    {
        if self.len == 0 {
            return None;
        }
        let bit = self.read_bit::<C>(data, 0);
        let next = if self.head == 7 {
            proof {
                assert(self.base_spec() * 8 < data@.len() * 8);
            }
            BitPtr { base: self.base + 1, head: 0, len: self.len - 1 }
        } else {
            BitPtr { base: self.base, head: self.head + 1, len: self.len - 1 }
        };
        proof {
            assert(next.bits_in::<C>(data@) =~= self.bits_in::<C>(data@).drop_first());
        }
        Some((bit, next))
    }

    /// Yield the back bit together with the descriptor of the window
    /// shrunk by one at the back.
    ///
    /// Returns `None` exactly when the window is empty.
    pub fn split_back<C: Cursor>(&self, data: &Vec<u8>) -> (r: Option<(bool, BitPtr)>)
        requires
            self.wf(data@),
        ensures
            r is None <==> self.len_spec() == 0,
            r matches Some((b, p)) ==> {
                &&& b == self.bits_in::<C>(data@).last()
                &&& p.wf(data@)
                &&& p.start() == self.start()
                &&& p.len_spec() == self.len_spec() - 1
                &&& p.bits_in::<C>(data@) == self.bits_in::<C>(data@).drop_last()
            },
    {
        if self.len == 0 {
            return None;
        }
        let bit = self.read_bit::<C>(data, self.len - 1);
        let next = BitPtr { base: self.base, head: self.head, len: self.len - 1 };
        proof {
            assert(next.bits_in::<C>(data@) =~= self.bits_in::<C>(data@).drop_last());
        }
        Some((bit, next))
    }

    /// Partition the window at logical position `n` into the first `n`
    /// bits and the rest.
    ///
    /// Fails with `OutOfBounds` exactly when `n` is past the window
    /// length.
    pub fn split_at(&self, n: usize) -> (r: Result<(BitPtr, BitPtr), BitPtrError>)
        requires
            self.inv(),
        ensures
            r is Ok <==> n <= self.len_spec(),
            r matches Ok((front, back)) ==> {
                &&& front.inv()
                &&& back.inv()
                &&& front.start() == self.start()
                &&& front.len_spec() == n
                &&& back.start() == self.start() + n
                &&& back.len_spec() == self.len_spec() - n
            },
            r matches Err(e) ==> e == BitPtrError::OutOfBounds,
    {
        if n > self.len {
            return Err(BitPtrError::OutOfBounds);
        }
        let front = BitPtr { base: self.base, head: self.head, len: n };
        let abs: usize = self.head + n;
        proof {
            lemma_split_arith(self.base_spec() as int, abs as int);
        }
        let back = BitPtr { base: self.base + abs / 8, head: abs % 8, len: self.len - n };
        Ok((front, back))
    }
}

/// Arithmetic glue for `read_bit`: the element that absolute index
/// `head + index` falls in lies within the buffer.
proof fn lemma_elem_of_index(base: int, head: int, index: int, n: int)
    requires
        0 <= base,
        0 <= head < 8,
        0 <= index,
        base * 8 + head + index < n * 8,
    ensures
        base + (head + index) / 8 < n,
        base * 8 + head + index == (base + (head + index) / 8) * 8 + (head + index) % 8,
        0 <= (head + index) % 8 < 8,
{
    let abs = head + index;
    let d = abs / 8;
    let m = abs % 8;
    assert(abs == 8 * d + m && 0 <= m < 8);
    assert(8 * (base + d) <= base * 8 + abs);
    assert(base + d < n);
    assert((base + d) * 8 + m == base * 8 + abs);
}

/// Arithmetic glue for `split_at`: advancing by a whole number of bits
/// lands on the element/offset pair given by division by the width.
proof fn lemma_split_arith(base: int, abs: int)
    requires
        0 <= base,
        0 <= abs,
    ensures
        (base + abs / 8) * 8 + abs % 8 == base * 8 + abs,
        0 <= abs % 8 < 8,
        base + abs / 8 <= (base * 8 + abs) / 8,
{
    let d = abs / 8;
    let m = abs % 8;
    assert(abs == 8 * d + m && 0 <= m < 8);
    assert((base + d) * 8 + m == base * 8 + abs);
    assert(8 * (base + d) <= base * 8 + abs);
}

} // verus!
