//! A forward-only, bounds-checked cursor over a byte buffer.

use vstd::prelude::*;
use vstd::slice::slice_subrange;

verus! {

/// A read position inside a borrowed byte buffer.
///
/// The buffer is never copied: every run of bytes handed out borrows from it.
pub struct ByteReader<'a> {
    bytes: &'a [u8],
    pos: usize,
}

impl<'a> ByteReader<'a> {
    /// The whole buffer, from its first byte.
    pub closed spec fn source(&self) -> Seq<u8> {
        self.bytes@
    }

    /// How many bytes have been consumed.
    pub closed spec fn position(&self) -> nat {
        self.pos as nat
    }

    /// The position never passes the end of the buffer.
    pub open spec fn wf(&self) -> bool {
        self.position() <= self.source().len()
    }

    /// A reader at the start of `bytes`.
    pub fn new(bytes: &'a [u8]) -> (r: Self)
        ensures
            r.wf(),
            r.source() == bytes@,
            r.position() == 0,
    {
        ByteReader { bytes, pos: 0 }
    }

    /// The number of bytes consumed so far.
    pub fn offset(&self) -> (r: usize)
        requires
            self.wf(),
        ensures
            r == self.position(),
            r <= self.source().len(),
    {
        self.pos
    }

    /// The number of bytes not yet consumed.
    pub fn remaining(&self) -> (r: usize)
        requires
            self.wf(),
        ensures
            r == self.source().len() - self.position(),
    {
        self.bytes.len() - self.pos
    }

    /// The whole buffer this reader walks over.
    pub fn buffer(&self) -> (r: &'a [u8])
        ensures
            r@ == self.source(),
    {
        self.bytes
    }

    /// Consumes exactly `n` bytes and hands them out, or consumes nothing
    /// and returns `None` when fewer than `n` bytes remain.
    pub fn take(&mut self, n: usize) -> (r: Option<&'a [u8]>)
        requires
            old(self).wf(),
        ensures
            final(self).wf(),
            final(self).source() == old(self).source(),
            match r {
                Some(run) => {
                    &&& old(self).position() + n <= old(self).source().len()
                    &&& run@ == old(self).source().subrange(
                        old(self).position() as int,
                        old(self).position() + n,
                    )
                    &&& final(self).position() == old(self).position() + n
                },
                None => {
                    &&& old(self).position() + n > old(self).source().len()
                    &&& final(self).position() == old(self).position()
                },
            },
    {
        if n <= self.bytes.len() - self.pos {
            let run = slice_subrange(self.bytes, self.pos, self.pos + n);
            self.pos = self.pos + n;
            Some(run)
        } else {
            None
        }
    }
}

} // verus!
