//! A bit-addressable view over word-oriented memory.
//!
//! Logical sequences of individual bits are stored packed into fixed-width
//! storage elements and addressed through a compact descriptor, the
//! [`pointer::BitPtr`]: the element index of the first storage element, a
//! head bit offset into that element, and a total bit count.  Built on top
//! of the descriptor is a double-ended iteration protocol that consumes a
//! region one bit at a time from either end, for borrowed regions
//! ([`slice::Iter`]) and for regions that carry their own backing
//! allocation ([`boxed::IntoIter`]).

pub mod boxed;
pub mod cursor;
pub mod laws;
pub mod pointer;
pub mod slice;
pub mod store;
