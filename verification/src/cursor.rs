//! A sequential, bounds-checked, big-endian byte reader over a borrowed
//! buffer.
//!
//! Every read either advances the read offset by exactly the requested
//! number of bytes or fails with [`Error::ReadPastEnd`] while leaving the
//! cursor untouched. The cursor never rewinds: each successful read is a
//! commitment.

use vstd::prelude::*;

verus! {

/// Error raised when a read asks for more bytes than remain in the buffer.
#[derive(Debug, Clone, Copy, PartialEq, Eq, Structural)]
pub enum Error {
    /// A read wanted `tried` bytes while only `left` were still unread.
    ReadPastEnd { tried: usize, left: usize },
}

/// A forward-only reader over a borrowed byte buffer.
#[derive(Debug)]
pub struct Cursor<'a> {
    /// The borrowed buffer being read.
    pub bytes: &'a [u8],
    /// The read offset; never exceeds `bytes.len()` (see [`Cursor::wf`]).
    pub pos: usize,
}

impl<'a> Cursor<'a> {
    /// The whole underlying buffer, including bytes already consumed.
    pub open spec fn data(&self) -> Seq<u8> {
        self.bytes@
    }

    /// The current read offset into the buffer.
    pub open spec fn position(&self) -> int {
        self.pos as int
    }

    /// The read offset never exceeds the buffer length.
    pub open spec fn wf(&self) -> bool {
        self.pos <= self.bytes@.len()
    }

    /// How many bytes remain to be read.
    pub open spec fn remaining(&self) -> int {
        self.data().len() - self.position()
    }

    /// Starts reading `bytes` from the beginning.
    pub fn new(bytes: &'a [u8]) -> (r: Self)
        ensures
            r.wf(),
            r.data() == bytes@,
            r.position() == 0,
    {
        Cursor { bytes, pos: 0 }
    }

    /// Consumes the next `I::spec_size()` bytes as a big-endian unsigned
    /// integer, or fails without moving when fewer bytes remain.
    pub fn read_integer<I: Integer>(&mut self) -> (r: Result<I, Error>)
        requires
            old(self).wf(),
        ensures
            final(self).wf(),
            final(self).data() == old(self).data(),
            I::spec_size() <= old(self).remaining() ==> {
                &&& final(self).position() == old(self).position() + I::spec_size()
                &&& r matches Ok(v) && v == I::spec_from_be(
                    old(self).data().subrange(
                        old(self).position(),
                        old(self).position() + I::spec_size(),
                    ),
                )
            },
            I::spec_size() > old(self).remaining() ==> {
                &&& *final(self) == *old(self)
                &&& r == Err::<I, Error>(
                    Error::ReadPastEnd {
                        tried: I::spec_size(),
                        left: old(self).remaining() as usize,
                    },
                )
            },
    {
        let size = I::size();
        if size > self.bytes.len() - self.pos {
            Err(Error::ReadPastEnd { tried: size, left: self.bytes.len() - self.pos })
        } else {
            let window = &self.bytes[self.pos..self.pos + size];
            let value = I::from_be_bytes(window);
            self.pos = self.pos + size;
            Ok(value)
        }
    }

    /// Consumes exactly `count` bytes and returns them as an owned buffer,
    /// or fails without moving when fewer bytes remain.
    pub fn read_bytes(&mut self, count: usize) -> (r: Result<Vec<u8>, Error>)
        requires
            old(self).wf(),
        ensures
            final(self).wf(),
            final(self).data() == old(self).data(),
            count <= old(self).remaining() ==> {
                &&& final(self).position() == old(self).position() + count
                &&& r matches Ok(taken) && taken@ == old(self).data().subrange(
                    old(self).position(),
                    old(self).position() + count,
                )
            },
            count > old(self).remaining() ==> {
                &&& *final(self) == *old(self)
                &&& r == Err::<Vec<u8>, Error>(
                    Error::ReadPastEnd { tried: count, left: old(self).remaining() as usize },
                )
            },
    {
        if count > self.bytes.len() - self.pos {
            Err(Error::ReadPastEnd { tried: count, left: self.bytes.len() - self.pos })
        } else {
            let window = &self.bytes[self.pos..self.pos + count];
            let taken = vstd::slice::slice_to_vec(window);
            self.pos = self.pos + count;
            Ok(taken)
        }
    }
}

/// Unsigned integer types the cursor can decode from big-endian bytes.
pub trait Integer: Sized {
    /// Width of the encoding in bytes.
    spec fn spec_size() -> usize;

    /// The value that `bytes` encode in big-endian order.
    spec fn spec_from_be(bytes: Seq<u8>) -> Self;

    /// Width of the encoding in bytes, as a run-time value.
    fn size() -> (r: usize)
        ensures
            r == Self::spec_size(),
    ;

    /// Decodes exactly `Self::spec_size()` big-endian bytes.
    fn from_be_bytes(bytes: &[u8]) -> (r: Self)
        requires
            bytes@.len() == Self::spec_size(),
        ensures
            r == Self::spec_from_be(bytes@),
    ;
}

impl Integer for u8 {
    open spec fn spec_size() -> usize {
        1
    }

    open spec fn spec_from_be(bytes: Seq<u8>) -> u8 {
        bytes[0]
    }

    fn size() -> usize {
        1
    }

    fn from_be_bytes(bytes: &[u8]) -> u8 {
        bytes[0]
    }
}

impl Integer for u16 {
    open spec fn spec_size() -> usize {
        2
    }

    open spec fn spec_from_be(bytes: Seq<u8>) -> u16 {
        (bytes[0] * 0x100 + bytes[1]) as u16
    }

    fn size() -> usize {
        2
    }

    fn from_be_bytes(bytes: &[u8]) -> u16 {
        (bytes[0] as u16) * 0x100 + (bytes[1] as u16)
    }
}

impl Integer for u32 {
    open spec fn spec_size() -> usize {
        4
    }

    open spec fn spec_from_be(bytes: Seq<u8>) -> u32 {
        (bytes[0] * 0x100_0000 + bytes[1] * 0x1_0000 + bytes[2] * 0x100 + bytes[3]) as u32
    }

    fn size() -> usize {
        4
    }

    fn from_be_bytes(bytes: &[u8]) -> u32 {
        (bytes[0] as u32) * 0x100_0000 + (bytes[1] as u32) * 0x1_0000 + (bytes[2] as u32) * 0x100
            + (bytes[3] as u32)
    }
}

} // verus!
