//! Sequential, bounds-checked cursor over an immutable byte buffer.
//!
//! Every read either returns a value and advances the cursor, or fails
//! with [`DecodeError::OutOfBounds`] and leaves the cursor exactly where
//! it was; consumed bytes are never re-read. Multi-byte values are read
//! big-endian, the format's fixed byte order.

use crate::errors::DecodeError;
use vstd::prelude::*;

verus! {

/// The value of two bytes read big-endian.
pub open spec fn be16(b0: u8, b1: u8) -> u16 {
    (b0 * 0x100 + b1) as u16
}

/// The value of four bytes read big-endian.
pub open spec fn be32(b0: u8, b1: u8, b2: u8, b3: u8) -> u32 {
    (b0 * 0x1000000 + b1 * 0x10000 + b2 * 0x100 + b3) as u32
}

/// What reading one byte at `pos` yields: the value and the new
/// position, or the out-of-bounds error. Mirrors [`ByteStream::parse_u1`].
pub open spec fn spec_read_u1(data: Seq<u8>, pos: int) -> Result<(u8, int), DecodeError> {
    if 0 <= pos && data.len() - pos >= 1 {
        Ok((data[pos], pos + 1))
    } else {
        Err(DecodeError::OutOfBounds { requested: 1, remaining: (data.len() - pos) as usize })
    }
}

/// What reading a big-endian 16-bit value at `pos` yields. Mirrors
/// [`ByteStream::parse_u2`].
pub open spec fn spec_read_u2(data: Seq<u8>, pos: int) -> Result<(u16, int), DecodeError> {
    if 0 <= pos && data.len() - pos >= 2 {
        Ok((be16(data[pos], data[pos + 1]), pos + 2))
    } else {
        Err(DecodeError::OutOfBounds { requested: 2, remaining: (data.len() - pos) as usize })
    }
}

/// What reading a big-endian 32-bit value at `pos` yields. Mirrors
/// [`ByteStream::parse_u4`].
pub open spec fn spec_read_u4(data: Seq<u8>, pos: int) -> Result<(u32, int), DecodeError> {
    if 0 <= pos && data.len() - pos >= 4 {
        Ok((be32(data[pos], data[pos + 1], data[pos + 2], data[pos + 3]), pos + 4))
    } else {
        Err(DecodeError::OutOfBounds { requested: 4, remaining: (data.len() - pos) as usize })
    }
}

/// What reading `n` raw bytes at `pos` yields. Mirrors
/// [`ByteStream::parse_n`].
pub open spec fn spec_read_n(data: Seq<u8>, pos: int, n: usize) -> Result<(Seq<u8>, int), DecodeError> {
    if 0 <= pos && data.len() - pos >= n {
        Ok((data.subrange(pos, pos + n), pos + n))
    } else {
        Err(DecodeError::OutOfBounds { requested: n, remaining: (data.len() - pos) as usize })
    }
}

/// Cursor over a byte buffer: the bytes plus how many of them are
/// already consumed.
pub struct ByteStream {
    data: Vec<u8>,
    pos: usize,
}

impl ByteStream {
    /// The whole underlying buffer, consumed part included.
    pub closed spec fn bytes(&self) -> Seq<u8> {
        self.data@
    }

    /// How many bytes are already consumed; also the offset of the next
    /// read.
    pub closed spec fn position(&self) -> int {
        self.pos as int
    }

    /// The cursor never stands past the end of its buffer.
    pub open spec fn wf(&self) -> bool {
        0 <= self.position() <= self.bytes().len()
    }

    /// How many bytes remain unconsumed.
    pub open spec fn remaining(&self) -> int {
        self.bytes().len() - self.position()
    }

    /// A fresh cursor at the start of `xs`.
    pub fn new(xs: Vec<u8>) -> (s: ByteStream)
        ensures
            s.wf(),
            s.bytes() == xs@,
            s.position() == 0,
    {
        ByteStream { data: xs, pos: 0 }
    }

    /// The offset of the next read.
    pub fn pos(&self) -> (r: usize)
        ensures
            r == self.position(),
    {
        self.pos
    }

    /// How many bytes remain unconsumed.
    pub fn remaining_len(&self) -> (r: usize)
        requires
            self.wf(),
        ensures
            r == self.remaining(),
    {
        self.data.len() - self.pos
    }

    /// Whether every byte is consumed.
    pub fn is_exhausted(&self) -> (r: bool)
        requires
            self.wf(),
        ensures
            r == (self.remaining() == 0),
    {
        self.data.len() - self.pos == 0
    }

    /// Reads one byte.
    pub fn parse_u1(&mut self) -> (r: Result<u8, DecodeError>)
        requires
            old(self).wf(),
        ensures
            final(self).wf(),
            final(self).bytes() == old(self).bytes(),
            match r {
                Ok(v) => old(self).remaining() >= 1
                    && final(self).position() == old(self).position() + 1
                    && v == old(self).bytes()[old(self).position()],
                Err(e) => old(self).remaining() < 1
                    && *final(self) == *old(self)
                    && e == (DecodeError::OutOfBounds {
                        requested: 1,
                        remaining: old(self).remaining() as usize,
                    }),
            },
    {
        if self.data.len() - self.pos >= 1 {
            let v = self.data[self.pos];
            self.pos = self.pos + 1;
            Ok(v)
        } else {
            Err(DecodeError::OutOfBounds { requested: 1, remaining: self.data.len() - self.pos })
        }
    }

    /// Reads a 16-bit big-endian value.
    pub fn parse_u2(&mut self) -> (r: Result<u16, DecodeError>)
        requires
            old(self).wf(),
        ensures
            final(self).wf(),
            final(self).bytes() == old(self).bytes(),
            match r {
                Ok(v) => old(self).remaining() >= 2
                    && final(self).position() == old(self).position() + 2
                    && v == be16(
                        old(self).bytes()[old(self).position()],
                        old(self).bytes()[old(self).position() + 1],
                    ),
                Err(e) => old(self).remaining() < 2
                    && *final(self) == *old(self)
                    && e == (DecodeError::OutOfBounds {
                        requested: 2,
                        remaining: old(self).remaining() as usize,
                    }),
            },
    {
        if self.data.len() - self.pos >= 2 {
            let b0 = self.data[self.pos];
            let b1 = self.data[self.pos + 1];
            self.pos = self.pos + 2;
            Ok(b0 as u16 * 0x100 + b1 as u16)
        } else {
            Err(DecodeError::OutOfBounds { requested: 2, remaining: self.data.len() - self.pos })
        }
    }

    /// Reads a 32-bit big-endian value.
    pub fn parse_u4(&mut self) -> (r: Result<u32, DecodeError>)
        requires
            old(self).wf(),
        ensures
            final(self).wf(),
            final(self).bytes() == old(self).bytes(),
            match r {
                Ok(v) => old(self).remaining() >= 4
                    && final(self).position() == old(self).position() + 4
                    && v == be32(
                        old(self).bytes()[old(self).position()],
                        old(self).bytes()[old(self).position() + 1],
                        old(self).bytes()[old(self).position() + 2],
                        old(self).bytes()[old(self).position() + 3],
                    ),
                Err(e) => old(self).remaining() < 4
                    && *final(self) == *old(self)
                    && e == (DecodeError::OutOfBounds {
                        requested: 4,
                        remaining: old(self).remaining() as usize,
                    }),
            },
    {
        if self.data.len() - self.pos >= 4 {
            let b0 = self.data[self.pos];
            let b1 = self.data[self.pos + 1];
            let b2 = self.data[self.pos + 2];
            let b3 = self.data[self.pos + 3];
            self.pos = self.pos + 4;
            Ok(b0 as u32 * 0x1000000 + b1 as u32 * 0x10000 + b2 as u32 * 0x100 + b3 as u32)
        } else {
            Err(DecodeError::OutOfBounds { requested: 4, remaining: self.data.len() - self.pos })
        }
    }

    /// Reads the next `n` bytes.
    pub fn parse_n(&mut self, n: usize) -> (r: Result<Vec<u8>, DecodeError>)
        requires
            old(self).wf(),
        ensures
            final(self).wf(),
            final(self).bytes() == old(self).bytes(),
            match r {
                Ok(v) => old(self).remaining() >= n
                    && final(self).position() == old(self).position() + n
                    && v@ == old(self).bytes().subrange(
                        old(self).position(),
                        old(self).position() + n,
                    ),
                Err(e) => old(self).remaining() < n
                    && *final(self) == *old(self)
                    && e == (DecodeError::OutOfBounds {
                        requested: n,
                        remaining: old(self).remaining() as usize,
                    }),
            },
    {
        if self.data.len() - self.pos >= n {
            let mut v: Vec<u8> = Vec::new();
            let mut i: usize = 0;
            let len = self.data.len();
            while i < n
                invariant
                    self.wf(),
                    i <= n,
                    len == self.bytes().len(),
                    self.remaining() >= n,
                    v@ =~= self.bytes().subrange(self.position(), self.position() + i),
                decreases n - i,
            {
                assert(self.position() + i < len);
                v.push(self.data[self.pos + i]);
                i = i + 1;
            }
            proof {
                assert(v@ =~= self.bytes().subrange(self.position(), self.position() + n));
            }
            self.pos = self.pos + n;
            Ok(v)
        } else {
            Err(DecodeError::OutOfBounds { requested: n, remaining: self.data.len() - self.pos })
        }
    }
}

} // verus!
