//! The owning buffer and its owning iterator.
//!
//! A [`BitBox`] exclusively owns one contiguous allocation of storage
//! elements together with the descriptor of the live bit region inside
//! it.  Turning the box into an [`IntoIter`] moves the allocation into
//! the iterator, so the backing storage lives exactly as long as the
//! iterator does, however many bits have been consumed from either end;
//! it is released once, when the iterator is dropped.  Each step narrows
//! the iterator's window by delegating to a transient borrowed-region
//! iterator and persisting the narrowed descriptor.

use vstd::prelude::*;

use core::marker::PhantomData;

use crate::cursor::Cursor;
use crate::laws::{back_step, front_step};
use crate::pointer::{bits_of, BitPtr, BitPtrError};
use crate::slice::Iter;

verus! {

/// A bit region that owns its backing allocation.
#[verifier::reject_recursive_types(C)]
pub struct BitBox<C: Cursor> {
    elems: Vec<u8>,
    bitptr: BitPtr,
    order: PhantomData<C>,
}

/// An owning iterator: the backing allocation, held for the iterator's
/// whole lifetime, and the descriptor of the region still undergoing
/// iteration.
#[verifier::reject_recursive_types(C)]
pub struct IntoIter<C: Cursor> {
    /// Owner of the full slab; dropped only with the iterator itself.
    bitbox: BitBox<C>,
    /// Descriptor for the region undergoing iteration.
    region: BitPtr,
}

impl<C: Cursor> BitBox<C> {
    /// The storage elements of the backing allocation.
    pub closed spec fn elems_spec(self) -> Seq<u8> {
        self.elems@
    }

    /// The descriptor of the live region.
    pub closed spec fn bitptr_spec(self) -> BitPtr {
        self.bitptr
    }

    /// The live region lies inside the allocation.
    pub open spec fn wf(self) -> bool {
        self.bitptr_spec().wf(self.elems_spec())
    }

    /// The logical bit sequence the box holds, front first.
    pub open spec fn bits(self) -> Seq<bool> {
        self.bitptr_spec().bits_in::<C>(self.elems_spec())
    }

    /// Take ownership of `elems` as the backing allocation of a region
    /// of `len` bits starting at bit `head` of the first element.
    ///
    /// Fails with `InvalidRange` exactly when the descriptor encoding
    /// rejects `(0, head, len)` or the region would run past the end of
    /// the allocation; the inputs are never clamped.
    pub fn new(elems: Vec<u8>, head: usize, len: usize) -> (r: Result<BitBox<C>, BitPtrError>)
        ensures
            r is Ok <==> crate::pointer::encodable(0, head as int, len as int) && head + len <= elems@.len()
                * 8,
            r matches Ok(b) ==> {
                &&& b.wf()
                &&& b.elems_spec() == elems@
                &&& b.bitptr_spec().start() == head
                &&& b.bitptr_spec().len_spec() == len
                &&& b.bits() == bits_of::<C>(elems@, head as int, len as int)
            },
            r matches Err(e) ==> e == BitPtrError::InvalidRange,
    {
        let bitptr = match BitPtr::new(0, head, len) {
            Ok(p) => p,
            Err(e) => {
                return Err(e);
            },
        };
        let n: usize = elems.len();
        let fits: bool = if n > usize::MAX / 8 {
            proof {
                assert(8 * (usize::MAX / 8) >= usize::MAX - 7);
                assert(head + len <= usize::MAX < n * 8);
            }
            true
        } else {
            head + len <= n * 8
        };
        if !fits {
            return Err(BitPtrError::InvalidRange);
        }
        Ok(BitBox { elems, bitptr, order: PhantomData })
    }

    /// The number of live bits.
    pub fn len(&self) -> (r: usize)
        ensures
            r == self.bits().len(),
    {
        self.bitptr.len()
    }

    /// The single accessor that yields the box's current descriptor.
    pub fn bitptr(&self) -> (r: BitPtr)
        ensures
            r == self.bitptr_spec(),
    {
        self.bitptr
    }

    /// Iterate over the region while the box keeps its allocation.
    pub fn iter(&self) -> (r: Iter<'_, C>)
        requires
            self.wf(),
        ensures
            r.wf(),
            r.bits() == self.bits(),
            r.data_spec() == self.elems_spec(),
            r.region_spec() == self.bitptr_spec(),
    {
        Iter::new(&self.elems, self.bitptr)
    }

    /// Move the box into an owning iterator over its whole region.  The
    /// allocation moves with it and is released only when the iterator
    /// is dropped.
    pub fn into_iter(self) -> (r: IntoIter<C>)
        requires
            self.wf(),
        ensures
            r.wf(),
            r.bits() == self.bits(),
            r.elems_spec() == self.elems_spec(),
            r.region_spec() == self.bitptr_spec(),
    {
        let region = self.bitptr();
        IntoIter { region, bitbox: self }
    }
}

impl<C: Cursor> IntoIter<C> {
    /// The storage elements of the owned allocation.
    pub closed spec fn elems_spec(self) -> Seq<u8> {
        self.bitbox.elems@
    }

    /// The descriptor of the window still undergoing iteration.
    pub closed spec fn region_spec(self) -> BitPtr {
        self.region
    }

    /// The window still undergoing iteration lies inside the owned
    /// allocation.
    pub open spec fn wf(self) -> bool {
        self.region_spec().wf(self.elems_spec())
    }

    /// The bits not yet consumed, front first.
    pub open spec fn bits(self) -> Seq<bool> {
        self.region_spec().bits_in::<C>(self.elems_spec())
    }

    /// A transient borrowed-region iterator over the current window.
    pub fn iterator(&self) -> (r: Iter<'_, C>)
        requires
            self.wf(),
        ensures
            r.wf(),
            r.bits() == self.bits(),
            r.data_spec() == self.elems_spec(),
            r.region_spec() == self.region_spec(),
    {
        Iter::new(&self.bitbox.elems, self.region)
    }

    /// Yield the front bit and narrow the window past it; `None` once
    /// the window is empty, and from then on forever (fused).
    pub fn next(&mut self) -> (r: Option<bool>)
        requires
            old(self).wf(),
        ensures
            final(self).wf(),
            r == front_step(old(self).bits()).0,
            final(self).bits() == front_step(old(self).bits()).1,
            old(self).bits().len() == 0 ==> r is None && final(self).bits().len() == 0,
            old(self).bits().len() > 0 ==> r == Some(old(self).bits()[0]) && final(self).bits()
                == old(self).bits().drop_first(),
    {
        let mut slice_iter = self.iterator();
        let out = slice_iter.next();
        self.region = slice_iter.bitptr();
        out
    }

    /// Yield the back bit and narrow the window before it; `None` once
    /// the window is empty, and from then on forever (fused).
    pub fn next_back(&mut self) -> (r: Option<bool>)
        requires
            old(self).wf(),
        ensures
            final(self).wf(),
            r == back_step(old(self).bits()).0,
            final(self).bits() == back_step(old(self).bits()).1,
            old(self).bits().len() == 0 ==> r is None && final(self).bits().len() == 0,
            old(self).bits().len() > 0 ==> r == Some(old(self).bits().last()) && final(self).bits()
                == old(self).bits().drop_last(),
    {
        let mut slice_iter = self.iterator();
        let out = slice_iter.next_back();
        self.region = slice_iter.bitptr();
        out
    }

    /// The exactly-known remaining length: lower and upper bound agree,
    /// after any interleaving of front and back steps.
    pub fn size_hint(&self) -> (r: (usize, Option<usize>))
        requires
            self.wf(),
        ensures
            r.0 == self.bits().len(),
            r.1 == Some(self.bits().len() as usize),
    {
        self.iterator().size_hint()
    }

    /// Skip `n` bits and yield the one after them, by one split at `n`
    /// and one front step; past the end the iterator is exhausted and
    /// the result is the terminal `None`.
    pub fn nth(&mut self, n: usize) -> (r: Option<bool>)
        requires
            old(self).wf(),
        ensures
            final(self).wf(),
            n < old(self).bits().len() ==> r == Some(old(self).bits()[n as int])
                && final(self).bits() == old(self).bits().skip(n + 1),
            n >= old(self).bits().len() ==> r is None && final(self).bits().len() == 0,
    {
        let mut slice_iter = self.iterator();
        let out = slice_iter.nth(n);
        self.region = slice_iter.bitptr();
        out
    }

    /// The number of bits that remain, read directly without consuming
    /// them; the allocation is released with `self`.
    pub fn count(self) -> (r: usize)
        requires
            self.wf(),
        ensures
            r == self.bits().len(),
    {
        self.region.len()
    }

    /// The back bit of the window, as one back step from the current
    /// state; the allocation is released with `self`.
    pub fn last(self) -> (r: Option<bool>)
        requires
            self.wf(),
        ensures
            r == back_step(self.bits()).0,
    {
        let mut this = self;
        this.next_back()
    }
}

} // verus!
