//! The error type shared by all codecs.

use vstd::prelude::*;

verus! {

/// Result type used throughout the crate.
pub type Result<T, E = Error> = core::result::Result<T, E>;

/// Errors produced by the codecs of this crate.
#[derive(Debug, Clone, Copy, PartialEq, Eq)]
pub enum Error {
    /// The buffer ends before the item does.
    Incomplete { needed: usize, have: usize },
    /// The first octet of a frame is not the start octet.
    InvalidStartByte { expected: u8, got: u8 },
    /// The last octet of a frame is not the end octet.
    InvalidEndByte { expected: u8, got: u8 },
    /// The length octet does not fit the kind of frame that carries it.
    LengthMismatch { declared: usize, actual: usize },
    /// The two length octets of a variable-length frame disagree.
    LengthOctetsDiffer { first: u8, second: u8 },
    /// The checksum octet is not the sum of the covered octets.
    ChecksumMismatch { expected: u8, got: u8 },
    /// The Type ID is not the one that was asked for.
    UnknownAsduType(u8),
    /// A field holds a value outside its domain.
    InvalidValue { field: &'static str, value: i64 },
    /// The frame has a format that is not known.
    UnsupportedFormat,
    /// The ASDU does not fit into one APDU.
    AsduTooLong { len: usize, max: usize },
}

} // verus!
