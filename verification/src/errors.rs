//! Error types of the codec model, the serialization formats and the
//! search backends.
use vstd::prelude::*;

verus! {

#[verifier::external_type_specification]
#[verifier::external_body]
pub struct ExStdIoError(std::io::Error);

/// Errors raised when a compressed vector is built from invalid parts.
#[non_exhaustive]
#[derive(Debug, Clone, Copy, PartialEq, Eq)]
pub enum CodecError {
    /// The bit width is not one of `{2, 4, 8}`.
    UnsupportedBitWidth {
        /// The rejected bit width.
        got: u8,
    },
    /// The number of indices differs from the declared dimension.
    DimensionMismatch {
        /// The declared dimension.
        expected: usize,
        /// The number of indices supplied.
        got: usize,
    },
    /// An index does not fit in the bit width.
    IndexOutOfRange {
        /// Position of the first offending index.
        index: usize,
        /// Its value.
        value: u8,
    },
    /// The residual flag byte is neither `0x00` nor `0x01`.
    InvalidResidualFlag {
        /// The flag byte found.
        got: u8,
    },
}

/// Errors produced by serialization and file I/O operations.
#[non_exhaustive]
#[derive(Debug)]
pub enum IoError {
    /// The input slice is shorter than expected.
    Truncated {
        /// Minimum bytes required.
        needed: usize,
        /// Bytes actually available.
        got: usize,
    },
    /// The format version byte is not recognized.
    UnknownVersion {
        /// The version byte found in the data.
        got: u8,
    },
    /// The `bit_width` field in the serialized data is not in `{2, 4, 8}`.
    InvalidBitWidth {
        /// The invalid bit-width value.
        got: u8,
    },
    /// The `config_hash` field contains bytes that are not valid UTF-8.
    InvalidUtf8,
    /// A length in the serialized data does not match the expected value.
    LengthMismatch,
    /// An inner codec operation failed during decode.
    Decode(CodecError),
    /// A file system I/O error.
    Io(std::io::Error),
    /// The corpus file does not start with a known magic.
    BadMagic {
        /// The four bytes found.
        got: [u8; 4],
    },
    /// A corpus file header field is out of range.
    InvalidHeader,
}

impl From<CodecError> for IoError {
    fn from(e: CodecError) -> (r: Self) {
        IoError::Decode(e)
    }
}

impl vstd::std_specs::convert::FromSpecImpl<CodecError> for IoError {
    open spec fn obeys_from_spec() -> bool {
        true
    }

    open spec fn from_spec(e: CodecError) -> Self {
        IoError::Decode(e)
    }
}

impl From<std::io::Error> for IoError {
    fn from(e: std::io::Error) -> (r: Self) {
        IoError::Io(e)
    }
}

impl vstd::std_specs::convert::FromSpecImpl<std::io::Error> for IoError {
    open spec fn obeys_from_spec() -> bool {
        true
    }

    open spec fn from_spec(e: std::io::Error) -> Self {
        IoError::Io(e)
    }
}

/// Errors produced by search backends.
#[non_exhaustive]
#[derive(Debug, Clone, PartialEq, Eq)]
pub enum BackendError {
    /// The backend holds no vectors.
    Empty,
    /// A search asked for zero results.
    InvalidTopK,
    /// An adapter-specific failure, with its message.
    Adapter(String),
}

} // verus!
