//! Error and policy codes of the C ABI.
//!
//! The codes are fixed for the crate's 0.x line so that C consumers do not
//! have to recompile on minor-version bumps: adding a kind is allowed,
//! changing an existing code is a breaking change.
use vstd::prelude::*;
use crate::errors::{BackendError, CodecError, IoError};
use crate::policy::CompressionPolicy;

verus! {

/// Canonical error kinds reported by every entry point of the C ABI.
#[derive(Copy, Clone, Debug, PartialEq, Eq, Hash, Structural)]
pub enum TinyQuantErrorKind {
    /// Operation succeeded.
    Success,
    /// A handle argument was null or previously freed.
    InvalidHandle,
    /// Vector length / dimension mismatch.
    DimensionMismatch,
    /// The config hash of a compressed vector does not match the config.
    ConfigMismatch,
    /// Codebook bit width does not match the config.
    CodebookIncompatible,
    /// Duplicate vector id on a corpus insert.
    DuplicateVector,
    /// I/O layer error: serialization, file or format issue.
    Io,
    /// Caller passed a malformed argument.
    InvalidArgument,
    /// A panic crossed the ABI boundary and was captured.
    Panic,
    /// An error kind that could not be classified.
    Unknown,
}

/// The ABI code of each error kind.
pub open spec fn error_kind_code(k: TinyQuantErrorKind) -> u32 {
    match k {
        TinyQuantErrorKind::Success => 0,
        TinyQuantErrorKind::InvalidHandle => 1,
        TinyQuantErrorKind::DimensionMismatch => 2,
        TinyQuantErrorKind::ConfigMismatch => 3,
        TinyQuantErrorKind::CodebookIncompatible => 4,
        TinyQuantErrorKind::DuplicateVector => 5,
        TinyQuantErrorKind::Io => 6,
        TinyQuantErrorKind::InvalidArgument => 7,
        TinyQuantErrorKind::Panic => 98,
        TinyQuantErrorKind::Unknown => 99,
    }
}

impl Default for TinyQuantErrorKind {
    /// The default kind is success.
    fn default() -> (r: Self)
        ensures
            r == TinyQuantErrorKind::Success,
    {
        TinyQuantErrorKind::Success
    }
}

impl TinyQuantErrorKind {
    /// The fixed ABI code of this kind.
    pub fn code(self) -> (r: u32)
        ensures
            r == error_kind_code(self),
    {
        match self {
            TinyQuantErrorKind::Success => 0,
            TinyQuantErrorKind::InvalidHandle => 1,
            TinyQuantErrorKind::DimensionMismatch => 2,
            TinyQuantErrorKind::ConfigMismatch => 3,
            TinyQuantErrorKind::CodebookIncompatible => 4,
            TinyQuantErrorKind::DuplicateVector => 5,
            TinyQuantErrorKind::Io => 6,
            TinyQuantErrorKind::InvalidArgument => 7,
            TinyQuantErrorKind::Panic => 98,
            TinyQuantErrorKind::Unknown => 99,
        }
    }

    /// The kind reported for a codec error: dimension mismatches keep
    /// their kind, every other codec error is a caller-driven invalid
    /// argument.
    pub fn of_codec_error(e: &CodecError) -> (r: Self)
        ensures
            r == (if e is DimensionMismatch {
                TinyQuantErrorKind::DimensionMismatch
            } else {
                TinyQuantErrorKind::InvalidArgument
            }),
    {
        match e {
            CodecError::DimensionMismatch { .. } => TinyQuantErrorKind::DimensionMismatch,
            _ => TinyQuantErrorKind::InvalidArgument,
        }
    }

    /// The kind reported for a backend error: an empty backend or a zero
    /// `top_k` is an invalid argument, an adapter failure is unknown.
    pub fn of_backend_error(e: &BackendError) -> (r: Self)
        ensures
            r == (if e is Adapter {
                TinyQuantErrorKind::Unknown
            } else {
                TinyQuantErrorKind::InvalidArgument
            }),
    {
        match e {
            BackendError::Empty => TinyQuantErrorKind::InvalidArgument,
            BackendError::InvalidTopK => TinyQuantErrorKind::InvalidArgument,
            BackendError::Adapter(_) => TinyQuantErrorKind::Unknown,
        }
    }

    /// The kind reported for a serialization or file error: always `Io`.
    pub fn of_io_error(e: &IoError) -> (r: Self)
        ensures
            r == TinyQuantErrorKind::Io,
    {
        TinyQuantErrorKind::Io
    }
}

/// Compression-policy discriminator over the C ABI.
#[derive(Copy, Clone, Debug, PartialEq, Eq, Structural)]
pub enum TinyQuantCompressionPolicy {
    /// Lossy compression through the TinyQuant codec.
    Compress,
    /// Store the FP32 vector verbatim (no compression).
    Passthrough,
    /// Cast to FP16 without quantisation.
    Fp16,
}

impl TinyQuantCompressionPolicy {
    /// The fixed ABI code of this policy.
    pub fn code(self) -> (r: u32)
        ensures
            r == match self {
                TinyQuantCompressionPolicy::Compress => 0u32,
                TinyQuantCompressionPolicy::Passthrough => 1u32,
                TinyQuantCompressionPolicy::Fp16 => 2u32,
            },
    {
        match self {
            TinyQuantCompressionPolicy::Compress => 0,
            TinyQuantCompressionPolicy::Passthrough => 1,
            TinyQuantCompressionPolicy::Fp16 => 2,
        }
    }
}

/// The corpus policy an ABI policy selects, variant for variant.
pub open spec fn policy_of(p: TinyQuantCompressionPolicy) -> CompressionPolicy {
    match p {
        TinyQuantCompressionPolicy::Compress => CompressionPolicy::Compress,
        TinyQuantCompressionPolicy::Passthrough => CompressionPolicy::Passthrough,
        TinyQuantCompressionPolicy::Fp16 => CompressionPolicy::Fp16,
    }
}

impl From<TinyQuantCompressionPolicy> for CompressionPolicy {
    fn from(value: TinyQuantCompressionPolicy) -> (r: Self) {
        match value {
            TinyQuantCompressionPolicy::Compress => CompressionPolicy::Compress,
            TinyQuantCompressionPolicy::Passthrough => CompressionPolicy::Passthrough,
            TinyQuantCompressionPolicy::Fp16 => CompressionPolicy::Fp16,
        }
    }
}

impl vstd::std_specs::convert::FromSpecImpl<TinyQuantCompressionPolicy> for CompressionPolicy {
    open spec fn obeys_from_spec() -> bool {
        true
    }

    open spec fn from_spec(value: TinyQuantCompressionPolicy) -> Self {
        policy_of(value)
    }
}

} // verus!
