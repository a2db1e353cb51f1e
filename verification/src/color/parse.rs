//! The errors of parsing and encoding color specifications.
use vstd::prelude::*;

verus! {

#[verifier::external_type_specification]
#[verifier::external_body]
pub struct ExIoError(std::io::Error);

/// Why a color specification could not be parsed, with byte offsets where
/// they help.
#[derive(Debug, Clone, PartialEq, Eq, Structural)]
pub enum ParseError {
    /// The input is empty.
    Empty,
    /// Unknown color format prefix.
    UnknownFormat,
    /// Invalid hex value at `offset`.
    InvalidHex { offset: usize },
    /// A `#` color of length `len` (expected 3, 6, 9 or 12).
    InvalidSharpLength { len: usize },
    /// A color component is missing.
    MissingComponent,
    /// There are too many color components.
    TooManyComponents,
    /// Invalid floating-point value at `offset`.
    InvalidFloat { offset: usize },
    /// A floating-point value is out of range.
    OutOfRange,
}

/// Why a color specification could not be encoded.
#[derive(Debug)]
pub enum EncodeError {
    /// Not enough space to write the encoded data.
    BufferOverflow(usize),
    /// Writing failed.
    IoError(std::io::Error),
}

} // verus!
