//! A read position over a borrowed byte buffer.

use vstd::prelude::*;
use vstd::slice::slice_subrange;
use crate::header::Endianness;
use crate::wire::{read_u16_in, u16_from_bytes};

verus! {

/// A byte buffer together with the position of the next byte to read. The
/// position never passes the end of the buffer. A read for which too few
/// bytes are left gives `None` and leaves the cursor where it was.
#[derive(Clone, Copy, Debug)]
pub struct Cursor<'a> {
    buf: &'a [u8],
    pos: usize,
}

impl<'a> Cursor<'a> {
    #[verifier::type_invariant]
    spec fn in_bounds(self) -> bool {
        self.pos <= self.buf@.len()
    }

    /// All the bytes of the buffer, read or not.
    pub closed spec fn bytes(self) -> Seq<u8> {
        self.buf@
    }

    /// The number of bytes read so far.
    pub closed spec fn offset(self) -> nat {
        self.pos as nat
    }

    /// The bytes not read yet.
    pub open spec fn remaining(self) -> Seq<u8> {
        self.bytes().skip(self.offset() as int)
    }

    /// Whether `self` is `before` moved forward by `n` bytes over the same
    /// buffer, so that it has `before.remaining().skip(n)` left to read.
    pub open spec fn advanced_from(self, before: Self, n: nat) -> bool {
        &&& self.bytes() == before.bytes()
        &&& self.offset() == before.offset() + n
        &&& self.offset() <= self.bytes().len()
    }

    /// A cursor at the start of `buf`.
    pub fn new(buf: &'a [u8]) -> (c: Self)
        ensures
            c.bytes() == buf@,
            c.offset() == 0,
            c.remaining() == buf@,
    {
        Cursor { buf, pos: 0 }
    }

    /// The number of bytes read so far.
    pub fn position(&self) -> (p: usize)
        ensures
            p == self.offset(),
            p <= self.bytes().len(),
    {
        proof {
            use_type_invariant(self);
        }
        self.pos
    }

    /// Reads one byte.
    pub fn read_u8(&mut self) -> (r: Option<u8>)
        ensures
            old(self).remaining().len() >= 1 ==> r == Some(old(self).remaining()[0])
                && final(self).advanced_from(*old(self), 1),
            old(self).remaining().len() < 1 ==> r is None && *final(self) == *old(self),
    {
        proof {
            use_type_invariant(&*self);
        }
        if self.pos < self.buf.len() {
            let b = self.buf[self.pos];
            self.pos = self.pos + 1;
            Some(b)
        } else {
            None
        }
    }

    /// Reads a sixteen-bit integer in the given byte order.
    pub fn read_u16(&mut self, order: Endianness) -> (r: Option<u16>)
        ensures
            old(self).remaining().len() >= 2 ==> r == Some(
                u16_from_bytes(order, old(self).remaining()[0], old(self).remaining()[1]),
            ) && final(self).advanced_from(*old(self), 2),
            old(self).remaining().len() < 2 ==> r is None && *final(self) == *old(self),
    {
        proof {
            use_type_invariant(&*self);
        }
        let rest = slice_subrange(self.buf, self.pos, self.buf.len());
        match read_u16_in(order, rest) {
            Some(v) => {
                self.pos = self.pos + 2;
                Some(v)
            },
            None => None,
        }
    }

    /// Reads exactly `n` bytes.
    pub fn read_exact(&mut self, n: usize) -> (r: Option<&'a [u8]>)
        ensures
            old(self).remaining().len() >= n ==> (r matches Some(taken) && taken@ == old(
                self,
            ).remaining().take(n as int)) && final(self).advanced_from(*old(self), n as nat),
            old(self).remaining().len() < n ==> r is None && *final(self) == *old(self),
    {
        proof {
            use_type_invariant(&*self);
        }
        if n <= self.buf.len() - self.pos {
            let taken = slice_subrange(self.buf, self.pos, self.pos + n);
            self.pos = self.pos + n;
            Some(taken)
        } else {
            None
        }
    }
}

} // verus!
