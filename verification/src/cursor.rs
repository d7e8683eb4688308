//! The binary cursor: a forward-only reader over a byte buffer that decodes
//! one primitive of the canonical encoding at a time.
//!
//! The canonical encoding is deterministic and length-prefixed: a `u64` is
//! eight little-endian bytes, a `u32` four, a boolean one byte that must be
//! `0` or `1`, and a byte sequence is a `u32` little-endian length followed
//! by that many raw bytes.

use vstd::prelude::*;
use vstd::bytes::{spec_u32_from_le_bytes, spec_u64_from_le_bytes, u32_from_le_bytes, u64_from_le_bytes};
use vstd::slice::{slice_subrange, slice_to_vec};

verus! {

/// A failure of the binary cursor: the buffer holds too few bytes for the
/// next primitive, or a boolean byte is not one of the two canonical values.
#[derive(Clone, Copy, Debug, PartialEq, Eq, Structural)]
pub enum CursorError {
    UnexpectedEof,
    InvalidBool,
}

/// Holds when a `u64` can be decoded at `pos`: eight bytes remain.
pub open spec fn u64_read_ok(data: Seq<u8>, pos: int) -> bool {
    pos + 8 <= data.len()
}

/// The `u64` encoded little-endian in the eight bytes at `pos`.
pub open spec fn u64_at(data: Seq<u8>, pos: int) -> u64 {
    spec_u64_from_le_bytes(data.subrange(pos, pos + 8))
}

/// Holds when a `u32` can be decoded at `pos`: four bytes remain.
pub open spec fn u32_read_ok(data: Seq<u8>, pos: int) -> bool {
    pos + 4 <= data.len()
}

/// The `u32` encoded little-endian in the four bytes at `pos`.
pub open spec fn u32_at(data: Seq<u8>, pos: int) -> u32 {
    spec_u32_from_le_bytes(data.subrange(pos, pos + 4))
}

/// Holds when a boolean can be decoded at `pos`: one byte remains and it is
/// one of the two canonical values.
pub open spec fn bool_read_ok(data: Seq<u8>, pos: int) -> bool {
    pos + 1 <= data.len() && (data[pos] == 0 || data[pos] == 1)
}

/// The boolean encoded in the byte at `pos`.
pub open spec fn bool_at(data: Seq<u8>, pos: int) -> bool {
    data[pos] == 1
}

/// The error a boolean decode at `pos` fails with when `bool_read_ok` does
/// not hold: truncation if no byte remains, otherwise a non-canonical byte.
pub open spec fn bool_err_at(data: Seq<u8>, pos: int) -> CursorError {
    if pos + 1 <= data.len() {
        CursorError::InvalidBool
    } else {
        CursorError::UnexpectedEof
    }
}

/// Holds when a byte sequence can be decoded at `pos`: four bytes of length
/// prefix remain, and as many payload bytes as the prefix announces.
pub open spec fn bytes_read_ok(data: Seq<u8>, pos: int) -> bool {
    u32_read_ok(data, pos) && pos + 4 + u32_at(data, pos) <= data.len()
}

/// The payload of the byte sequence encoded at `pos`.
pub open spec fn bytes_at(data: Seq<u8>, pos: int) -> Seq<u8> {
    data.subrange(pos + 4, pos + 4 + u32_at(data, pos))
}

/// The position just past the byte sequence encoded at `pos`.
pub open spec fn bytes_end(data: Seq<u8>, pos: int) -> int {
    pos + 4 + u32_at(data, pos)
}

/// Forward-only reader over an in-memory byte buffer.
///
/// Every decoding method either consumes exactly the bytes of one primitive
/// and returns its value, or fails and leaves the cursor untouched; the
/// buffer itself is never modified.
pub struct Cursor {
    data: Vec<u8>,
    pos: usize,
}

impl Cursor {
    /// The whole underlying buffer.
    pub closed spec fn bytes(&self) -> Seq<u8> {
        self.data@
    }

    /// The current read position within the buffer.
    pub closed spec fn position(&self) -> int {
        self.pos as int
    }

    /// The position never runs past the end of the buffer.
    pub open spec fn wf(&self) -> bool {
        0 <= self.position() <= self.bytes().len()
    }

    /// A cursor positioned at the start of the given buffer.
    pub fn new(data: &[u8]) -> (c: Cursor)
        ensures
            c.bytes() == data@,
            c.position() == 0,
            c.wf(),
    {
        Cursor { data: slice_to_vec(data), pos: 0 }
    }

    /// How many bytes remain to be read.
    pub fn remaining(&self) -> (n: usize)
        requires
            self.wf(),
        ensures
            n == self.bytes().len() - self.position(),
    {
        self.data.len() - self.pos
    }

    /// The current read position, for callers that track consumption.
    pub fn current_position(&self) -> (n: usize)
        ensures
            n == self.position(),
    {
        self.pos
    }

    /// Decodes the next `u64`: eight little-endian bytes.
    pub fn decode_u64(&mut self) -> (r: Result<u64, CursorError>)
        requires
            old(self).wf(),
        ensures
            final(self).wf(),
            final(self).bytes() == old(self).bytes(),
            u64_read_ok(old(self).bytes(), old(self).position()) ==> {
                &&& r == Ok::<u64, CursorError>(u64_at(old(self).bytes(), old(self).position()))
                &&& final(self).position() == old(self).position() + 8
            },
            !u64_read_ok(old(self).bytes(), old(self).position()) ==> {
                &&& r == Err::<u64, CursorError>(CursorError::UnexpectedEof)
                &&& final(self).position() == old(self).position()
            },
    {
        if self.data.len() - self.pos >= 8 {
            let s = slice_subrange(self.data.as_slice(), self.pos, self.pos + 8);
            let x = u64_from_le_bytes(s);
            self.pos = self.pos + 8;
            Ok(x)
        } else {
            Err(CursorError::UnexpectedEof)
        }
    }

    /// Decodes the next `u32`: four little-endian bytes.
    pub fn decode_u32(&mut self) -> (r: Result<u32, CursorError>)
        requires
            old(self).wf(),
        ensures
            final(self).wf(),
            final(self).bytes() == old(self).bytes(),
            u32_read_ok(old(self).bytes(), old(self).position()) ==> {
                &&& r == Ok::<u32, CursorError>(u32_at(old(self).bytes(), old(self).position()))
                &&& final(self).position() == old(self).position() + 4
            },
            !u32_read_ok(old(self).bytes(), old(self).position()) ==> {
                &&& r == Err::<u32, CursorError>(CursorError::UnexpectedEof)
                &&& final(self).position() == old(self).position()
            },
    {
        if self.data.len() - self.pos >= 4 {
            let s = slice_subrange(self.data.as_slice(), self.pos, self.pos + 4);
            let x = u32_from_le_bytes(s);
            self.pos = self.pos + 4;
            Ok(x)
        } else {
            Err(CursorError::UnexpectedEof)
        }
    }

    /// Decodes the next boolean: one byte, `0` or `1`.
    pub fn decode_bool(&mut self) -> (r: Result<bool, CursorError>)
        requires
            old(self).wf(),
        ensures
            final(self).wf(),
            final(self).bytes() == old(self).bytes(),
            bool_read_ok(old(self).bytes(), old(self).position()) ==> {
                &&& r == Ok::<bool, CursorError>(bool_at(old(self).bytes(), old(self).position()))
                &&& final(self).position() == old(self).position() + 1
            },
            !bool_read_ok(old(self).bytes(), old(self).position()) ==> {
                &&& r == Err::<bool, CursorError>(bool_err_at(old(self).bytes(), old(self).position()))
                &&& final(self).position() == old(self).position()
            },
    {
        if self.data.len() - self.pos >= 1 {
            let b = self.data[self.pos];
            if b == 0 {
                self.pos = self.pos + 1;
                Ok(false)
            } else if b == 1 {
                self.pos = self.pos + 1;
                Ok(true)
            } else {
                Err(CursorError::InvalidBool)
            }
        } else {
            Err(CursorError::UnexpectedEof)
        }
    }

    /// Decodes the next byte sequence: a `u32` little-endian length prefix
    /// followed by that many raw bytes.
    pub fn decode_bytes(&mut self) -> (r: Result<Vec<u8>, CursorError>)
        requires
            old(self).wf(),
        ensures
            final(self).wf(),
            final(self).bytes() == old(self).bytes(),
            bytes_read_ok(old(self).bytes(), old(self).position()) ==> {
                &&& r matches Ok(v) && v@ == bytes_at(old(self).bytes(), old(self).position())
                &&& final(self).position() == bytes_end(old(self).bytes(), old(self).position())
            },
            !bytes_read_ok(old(self).bytes(), old(self).position()) ==> {
                &&& r matches Err(e) && e == CursorError::UnexpectedEof
                &&& final(self).position() == old(self).position()
            },
    {
        if self.data.len() - self.pos >= 4 {
            let s = slice_subrange(self.data.as_slice(), self.pos, self.pos + 4);
            let n = u32_from_le_bytes(s);
            let len: usize = n as usize;
            if self.data.len() - (self.pos + 4) >= len {
                let payload = slice_subrange(self.data.as_slice(), self.pos + 4, self.pos + 4 + len);
                let v = slice_to_vec(payload);
                self.pos = self.pos + 4 + len;
                Ok(v)
            } else {
                Err(CursorError::UnexpectedEof)
            }
        } else {
            Err(CursorError::UnexpectedEof)
        }
    }
}

} // verus!
