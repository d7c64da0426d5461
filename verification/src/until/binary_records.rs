//! Small records that object data is built from: a byte used as a flag, a
//! length-prefixed string padded to 4 bytes, and packed bit vectors.
use vstd::prelude::*;

use crate::binary::{align_up, align_up_exec, copy_range, fits, has_bytes, opt_u32, opt_u8, read_u32, read_u8};
use crate::error::ReadError;
use crate::serialized_file::{read_count, spec_count};
use vstd::utf8::{decode_utf8, valid_utf8};

verus! {

/// A byte read as a flag: any value but 0 is `true`.
#[derive(Debug, Clone, Copy, PartialEq, Eq, Structural)]
pub struct U8Bool(pub bool);

impl U8Bool {
    pub open spec fn spec_read(buf: Seq<u8>, pos: int) -> Result<(U8Bool, int), ReadError> {
        match opt_u8(buf, pos) {
            None => Err(ReadError::UnexpectedEof),
            Some(b) => Ok((U8Bool(b != 0), pos + 1)),
        }
    }

    pub fn read(buf: &[u8], pos: usize) -> (r: Result<(U8Bool, usize), ReadError>)
        ensures
            match Self::spec_read(buf@, pos as int) {
                Ok((v, p)) => r matches Ok((w, q)) && w == v && q == p,
                Err(e) => r matches Err(f) && f == e,
            },
    {
        let len = buf.len();
        match read_u8(buf, pos) {
            None => Err(ReadError::UnexpectedEof),
            Some(b) => Ok((U8Bool(b != 0), pos + 1)),
        }
    }

    /// The flag.
    pub fn get(&self) -> (r: bool)
        ensures
            r == self.0,
    {
        self.0
    }
}

/// `n` bytes from `pos`, then the position rounded up to a multiple of 4.
pub open spec fn spec_padded_bytes(buf: Seq<u8>, pos: int, n: int) -> Result<(Seq<u8>, int), ReadError> {
    if !fits(buf, pos, n) {
        Err(ReadError::UnexpectedEof)
    } else if align_up(pos + n, 4) > usize::MAX {
        Err(ReadError::Overflow)
    } else {
        Ok((buf.subrange(pos, pos + n), align_up(pos + n, 4)))
    }
}

fn read_padded_bytes(buf: &[u8], pos: usize, n: u32) -> (r: Result<(Vec<u8>, usize), ReadError>)
    ensures
        match spec_padded_bytes(buf@, pos as int, n as int) {
            Ok((v, p)) => r matches Ok((w, q)) && w@ == v && q == p,
            Err(e) => r matches Err(f) && f == e,
        },
{
    if !has_bytes(buf.len(), pos, n as usize) {
        return Err(ReadError::UnexpectedEof);
    }
    let end = pos + n as usize;
    let next = match align_up_exec(end, 4) {
        Some(p) => p,
        None => return Err(ReadError::Overflow),
    };
    Ok((copy_range(buf, pos, end), next))
}

/// A string stored as a signed length, that many bytes, and padding to 4 bytes.
#[derive(Debug, Clone, PartialEq, Eq)]
pub struct AlignedString {
    pub string_length: i32,
    pub string: Vec<u8>,
}

impl AlignedString {
    pub open spec fn spec_read(buf: Seq<u8>, pos: int, big: bool) -> Result<
        ((i32, Seq<u8>), int),
        ReadError,
    > {
        match spec_count(buf, pos, big) {
            Err(e) => Err(e),
            Ok(n) => match spec_padded_bytes(buf, pos + 4, n) {
                Err(e) => Err(e),
                Ok((b, p)) => Ok(((n as i32, b), p)),
            },
        }
    }

    pub fn read(buf: &[u8], pos: usize, big: bool) -> (r: Result<(AlignedString, usize), ReadError>)
        ensures
            match Self::spec_read(buf@, pos as int, big) {
                Ok(((n, b), p)) => r matches Ok((s, q)) && s.string_length == n && s.string@ == b
                    && q == p,
                Err(e) => r matches Err(f) && f == e,
            },
    {
        let len = buf.len();
        let n = read_count(buf, pos, big)?;
        let (string, p) = read_padded_bytes(buf, pos + 4, n)?;
        Ok((AlignedString { string_length: n as i32, string }, p))
    }

    /// The text, which must be valid UTF-8.
    pub fn to_string(&self) -> (r: String)
        requires
            valid_utf8(self.string@),
        ensures
            r@ == decode_utf8(self.string@),
    {
        crate::text::string_from_utf8_lossy(self.string.as_slice())
    }
}

/// Bits packed into bytes: the number of items, the bytes, and the bits per item.
#[derive(Debug, Clone, PartialEq, Eq)]
pub struct PackedIntVector {
    pub num_items: u32,
    pub num_data: i32,
    pub data: Vec<u8>,
    pub bit_size: u8,
}

impl PackedIntVector {
    /// The number of items, the count of bytes and their padding, the bytes, and the
    /// bit size followed by padding.
    pub open spec fn spec_read(buf: Seq<u8>, pos: int, big: bool) -> Result<
        ((u32, i32, Seq<u8>, u8), int),
        ReadError,
    > {
        match opt_u32(buf, pos, big) {
            None => Err(ReadError::UnexpectedEof),
            Some(items) => match spec_count(buf, pos + 4, big) {
                Err(e) => Err(e),
                Ok(n) => match spec_padded_bytes(buf, pos + 8, n) {
                    Err(e) => Err(e),
                    Ok((b, p)) => match opt_u8(buf, p) {
                        None => Err(ReadError::UnexpectedEof),
                        Some(bits) => if align_up(p + 1, 4) > usize::MAX {
                            Err(ReadError::Overflow)
                        } else {
                            Ok(((items, n as i32, b, bits), align_up(p + 1, 4)))
                        },
                    },
                },
            },
        }
    }

    pub fn read(buf: &[u8], pos: usize, big: bool) -> (r: Result<(PackedIntVector, usize), ReadError>)
        ensures
            match Self::spec_read(buf@, pos as int, big) {
                Ok(((i, n, b, s), p)) => r matches Ok((v, q)) && v.num_items == i && v.num_data == n
                    && v.data@ == b && v.bit_size == s && q == p,
                Err(e) => r matches Err(f) && f == e,
            },
    {
        let len = buf.len();
        let num_items = match read_u32(buf, pos, big) {
            Some(v) => v,
            None => return Err(ReadError::UnexpectedEof),
        };
        let n = read_count(buf, pos + 4, big)?;
        let (data, p) = read_padded_bytes(buf, pos + 8, n)?;
        let bit_size = match read_u8(buf, p) {
            Some(v) => v,
            None => return Err(ReadError::UnexpectedEof),
        };
        let next = match align_up_exec(p + 1, 4) {
            Some(q) => q,
            None => return Err(ReadError::Overflow),
        };
        Ok((PackedIntVector { num_items, num_data: n as i32, data, bit_size }, next))
    }
}

/// Packed rotations: the number of items and the bytes.
#[derive(Debug, Clone, PartialEq, Eq)]
pub struct PackedQuatVector {
    pub num_items: u32,
    pub num_data: i32,
    pub data: Vec<u8>,
}

impl PackedQuatVector {
    pub open spec fn spec_read(buf: Seq<u8>, pos: int, big: bool) -> Result<
        ((u32, i32, Seq<u8>), int),
        ReadError,
    > {
        match opt_u32(buf, pos, big) {
            None => Err(ReadError::UnexpectedEof),
            Some(items) => match spec_count(buf, pos + 4, big) {
                Err(e) => Err(e),
                Ok(n) => match spec_padded_bytes(buf, pos + 8, n) {
                    Err(e) => Err(e),
                    Ok((b, p)) => Ok(((items, n as i32, b), p)),
                },
            },
        }
    }

    pub fn read(buf: &[u8], pos: usize, big: bool) -> (r: Result<(PackedQuatVector, usize), ReadError>)
        ensures
            match Self::spec_read(buf@, pos as int, big) {
                Ok(((i, n, b), p)) => r matches Ok((v, q)) && v.num_items == i && v.num_data == n
                    && v.data@ == b && q == p,
                Err(e) => r matches Err(f) && f == e,
            },
    {
        let len = buf.len();
        let num_items = match read_u32(buf, pos, big) {
            Some(v) => v,
            None => return Err(ReadError::UnexpectedEof),
        };
        let n = read_count(buf, pos + 4, big)?;
        let (data, p) = read_padded_bytes(buf, pos + 8, n)?;
        Ok((PackedQuatVector { num_items, num_data: n as i32, data }, p))
    }
}

} // verus!
