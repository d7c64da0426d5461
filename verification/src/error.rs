//! The ways reading a file can fail.
use vstd::prelude::*;

verus! {

/// Why a read was refused.
#[derive(Debug, Clone, Copy, PartialEq, Eq, Structural)]
pub enum ReadError {
    /// The data ended before a value was complete.
    UnexpectedEof,
    /// The file does not start with the expected signature.
    BadMagic,
    /// A field holds a value that the format does not define.
    InvalidValue,
    /// The data is compressed with a method this library does not decode.
    UnsupportedCompression,
    /// The compressed data could not be decompressed.
    Decompress,
    /// The requested item does not exist.
    NotFound,
    /// An offset or size does not fit in the machine's integers.
    Overflow,
    /// The serialized file format version is not one this library reads.
    UnsupportedVersion,
}

} // verus!
