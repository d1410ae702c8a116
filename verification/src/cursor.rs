//! A bounds-checked reader over the bytes of an archive.

use crate::endian::{le_u32, le_u64, le_value};
use crate::error::ArchiveError;
use vstd::prelude::*;
use vstd::slice::{slice_subrange, slice_to_vec};

verus! {

/// A position in a run of bytes. Every read is checked against the end of the
/// run: a cursor never reads past it, whatever offsets it is given.
pub struct BinaryCursor<'a> {
    data: &'a [u8],
    pos: usize,
}

impl<'a> BinaryCursor<'a> {
    /// The bytes the cursor reads from.
    pub closed spec fn bytes(&self) -> Seq<u8> {
        self.data@
    }

    /// The offset of the next byte to be read.
    pub closed spec fn pos(&self) -> nat {
        self.pos as nat
    }

    /// The number of bytes between the position and the end.
    pub open spec fn left(&self) -> nat {
        (self.bytes().len() - self.pos()) as nat
    }

    /// The `n` bytes that start at the position.
    pub open spec fn window(&self, n: nat) -> Seq<u8> {
        self.bytes().subrange(self.pos() as int, (self.pos() + n) as int)
    }

    #[verifier::type_invariant]
    spec fn within(&self) -> bool {
        self.pos <= self.data@.len()
    }

    /// A cursor at the start of `data`.
    pub fn new(data: &'a [u8]) -> (c: Self)
        ensures
            c.bytes() == data@,
            c.pos() == 0,
    {
        BinaryCursor { data, pos: 0 }
    }

    /// The offset of the next byte to be read.
    pub fn position(&self) -> (p: u64)
        ensures
            p == self.pos(),
            self.pos() <= self.bytes().len(),
    {
        proof {
            use_type_invariant(self);
        }
        self.pos as u64
    }

    /// The length of the source.
    pub fn len(&self) -> (n: u64)
        ensures
            n == self.bytes().len(),
    {
        self.data.len() as u64
    }

    /// The number of bytes not yet read.
    pub fn remaining(&self) -> (n: u64)
        ensures
            n == self.left(),
            self.pos() <= self.bytes().len(),
    {
        proof {
            use_type_invariant(self);
        }
        (self.data.len() - self.pos) as u64
    }

    /// Moves to `offset`, counted from the start of the source. An offset past
    /// the end is refused and leaves the cursor where it was; the end itself
    /// is a valid position.
    pub fn seek(&mut self, offset: u64) -> (r: Result<(), ArchiveError>)
        ensures
            final(self).bytes() == old(self).bytes(),
            offset <= old(self).bytes().len() ==> r is Ok && final(self).pos() == offset,
            offset > old(self).bytes().len() ==> final(self).pos() == old(self).pos() && r == Err::<
                (),
                ArchiveError,
            >(
                ArchiveError::OutOfBounds {
                    offset,
                    length: old(self).bytes().len() as u64,
                },
            ),
    {
        let length: u64 = self.data.len() as u64;
        if offset > length {
            return Err(ArchiveError::OutOfBounds { offset, length });
        }
        self.pos = offset as usize;
        Ok(())
    }

    /// Reads four bytes as an unsigned little-endian number.
    pub fn read_u32(&mut self) -> (r: Result<u32, ArchiveError>)
        ensures
            final(self).bytes() == old(self).bytes(),
            old(self).left() >= 4 ==> final(self).pos() == old(self).pos() + 4 && r is Ok
                && r->Ok_0 as nat == le_value(old(self).window(4)),
            old(self).left() < 4 ==> final(self).pos() == old(self).pos() && r == Err::<
                u32,
                ArchiveError,
            >(
                ArchiveError::Truncated {
                    offset: old(self).pos() as u64,
                    wanted: 4,
                    available: old(self).left() as u64,
                },
            ),
    {
        proof {
            use_type_invariant(&*self);
        }
        let available: usize = self.data.len() - self.pos;
        if available < 4 {
            return Err(
                ArchiveError::Truncated {
                    offset: self.pos as u64,
                    wanted: 4,
                    available: available as u64,
                },
            );
        }
        let field = slice_subrange(self.data, self.pos, self.pos + 4);
        assert(field@.subrange(0, 4) == field@);
        let v: u32 = le_u32(field);
        self.pos = self.pos + 4;
        Ok(v)
    }

    /// Reads eight bytes as an unsigned little-endian number.
    pub fn read_u64(&mut self) -> (r: Result<u64, ArchiveError>)
        ensures
            final(self).bytes() == old(self).bytes(),
            old(self).left() >= 8 ==> final(self).pos() == old(self).pos() + 8 && r is Ok
                && r->Ok_0 as nat == le_value(old(self).window(8)),
            old(self).left() < 8 ==> final(self).pos() == old(self).pos() && r == Err::<
                u64,
                ArchiveError,
            >(
                ArchiveError::Truncated {
                    offset: old(self).pos() as u64,
                    wanted: 8,
                    available: old(self).left() as u64,
                },
            ),
    {
        proof {
            use_type_invariant(&*self);
        }
        let available: usize = self.data.len() - self.pos;
        if available < 8 {
            return Err(
                ArchiveError::Truncated {
                    offset: self.pos as u64,
                    wanted: 8,
                    available: available as u64,
                },
            );
        }
        let field = slice_subrange(self.data, self.pos, self.pos + 8);
        assert(field@.subrange(0, 8) == field@);
        let v: u64 = le_u64(field);
        self.pos = self.pos + 8;
        Ok(v)
    }

    /// Reads the next `n` bytes.
    pub fn read_bytes(&mut self, n: u64) -> (r: Result<Vec<u8>, ArchiveError>)
        ensures
            final(self).bytes() == old(self).bytes(),
            n <= old(self).left() ==> final(self).pos() == old(self).pos() + n && r is Ok
                && r->Ok_0@ == old(self).window(n as nat),
            n > old(self).left() ==> final(self).pos() == old(self).pos() && r == Err::<
                Vec<u8>,
                ArchiveError,
            >(
                ArchiveError::Truncated {
                    offset: old(self).pos() as u64,
                    wanted: n,
                    available: old(self).left() as u64,
                },
            ),
    {
        proof {
            use_type_invariant(&*self);
        }
        let available: usize = self.data.len() - self.pos;
        if n > available as u64 {
            return Err(
                ArchiveError::Truncated {
                    offset: self.pos as u64,
                    wanted: n,
                    available: available as u64,
                },
            );
        }
        let end: usize = self.pos + n as usize;
        let out: Vec<u8> = slice_to_vec(slice_subrange(self.data, self.pos, end));
        self.pos = end;
        Ok(out)
    }
}

} // verus!
