//! The borrowed-region iterator.
//!
//! An [`Iter`] walks a bit region inside a buffer it merely borrows.  It
//! is the transient engine behind all iteration in the crate: each step
//! reads the extreme bit through the descriptor's split operations and
//! adopts the shrunk descriptor as its new window.

use vstd::prelude::*;

use core::marker::PhantomData;

use crate::cursor::Cursor;
use crate::laws::{back_step, front_step};
use crate::pointer::BitPtr;

verus! {

/// A double-ended iterator over a borrowed bit region.
#[verifier::reject_recursive_types(C)]
pub struct Iter<'a, C: Cursor> {
    data: &'a Vec<u8>,
    region: BitPtr,
    order: PhantomData<C>,
}

impl<'a, C: Cursor> Iter<'a, C> {
    /// The buffer the window lives in.
    pub closed spec fn data_spec(self) -> Seq<u8> {
        self.data@
    }

    /// The descriptor of the current window.
    pub closed spec fn region_spec(self) -> BitPtr {
        self.region
    }

    /// The window stays inside the borrowed buffer.
    pub open spec fn wf(self) -> bool {
        self.region_spec().wf(self.data_spec())
    }

    /// The bits still live in the window, front first.
    pub open spec fn bits(self) -> Seq<bool> {
        self.region_spec().bits_in::<C>(self.data_spec())
    }

    /// Begin iteration over the region `region` describes within `data`.
    pub fn new(data: &'a Vec<u8>, region: BitPtr) -> (r: Iter<'a, C>)
        requires
            region.wf(data@),
        ensures
            r.wf(),
            r.data_spec() == data@,
            r.region_spec() == region,
    {
        Iter { data, region, order: PhantomData }
    }

    /// The descriptor of the window as it now stands.
    pub fn bitptr(&self) -> (r: BitPtr)
        ensures
            r == self.region_spec(),
    {
        self.region
    }

    /// Yield the front bit and shrink the window past it; `None` once the
    /// window is empty, and from then on forever (fused).
    pub fn next(&mut self) -> (r: Option<bool>)
        requires
            old(self).wf(),
        ensures
            final(self).wf(),
            final(self).data_spec() == old(self).data_spec(),
            r == front_step(old(self).bits()).0,
            final(self).bits() == front_step(old(self).bits()).1,
    {
        match self.region.split_front::<C>(self.data) {
            Some((bit, rest)) => {
                self.region = rest;
                Some(bit)
            },
            None => None,
        }
    }

    /// Yield the back bit and shrink the window before it; `None` once
    /// the window is empty, and from then on forever (fused).
    pub fn next_back(&mut self) -> (r: Option<bool>)
        requires
            old(self).wf(),
        ensures
            final(self).wf(),
            final(self).data_spec() == old(self).data_spec(),
            r == back_step(old(self).bits()).0,
            final(self).bits() == back_step(old(self).bits()).1,
    {
        match self.region.split_back::<C>(self.data) {
            Some((bit, rest)) => {
                self.region = rest;
                Some(bit)
            },
            None => None,
        }
    }

    /// Skip `n` bits and yield the one after them: the bit at logical
    /// position `n`, with the window shrunk past it.  Past the end the
    /// window is exhausted and the result is the terminal `None`.
    pub fn nth(&mut self, n: usize) -> (r: Option<bool>)
        requires
            old(self).wf(),
        ensures
            final(self).wf(),
            final(self).data_spec() == old(self).data_spec(),
            n < old(self).bits().len() ==> r == Some(old(self).bits()[n as int])
                && final(self).bits() == old(self).bits().skip(n + 1),
            n >= old(self).bits().len() ==> r is None && final(self).bits().len() == 0,
    {
        let len: usize = self.region.len();
        let k: usize = if n >= len {
            len
        } else {
            n
        };
        match self.region.split_at(k) {
            Ok((_, back)) => {
                proof {
                    assert(back.wf(self.data@));
                    assert(back.bits_in::<C>(self.data@) =~= old(self).bits().skip(k as int));
                }
                match back.split_front::<C>(self.data) {
                    Some((bit, rest)) => {
                        self.region = rest;
                        proof {
                            assert(old(self).bits().skip(k as int)[0] == old(self).bits()[k as int]);
                            assert(self.bits() =~= old(self).bits().skip(k + 1));
                        }
                        Some(bit)
                    },
                    None => {
                        self.region = back;
                        None
                    },
                }
            },
            Err(_) => {
                // The split point is clamped to the window, so the split
                // cannot fail.
                proof {
                    assert(false);
                }
                None
            },
        }
    }

    /// The exactly-known remaining length: lower and upper bound agree.
    pub fn size_hint(&self) -> (r: (usize, Option<usize>))
        ensures
            r.0 == self.bits().len(),
            r.1 == Some(self.bits().len() as usize),
    {
        let len: usize = self.region.len();
        (len, Some(len))
    }
}

} // verus!
