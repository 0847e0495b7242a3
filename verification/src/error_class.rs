//! Exception classes that the Node.js and Python bindings raise for library
//! errors. Node.js errors carry the class name as a message prefix; Python
//! errors are raised as the named exception class.
use vstd::prelude::*;
use crate::errors::{BackendError, CodecError};

verus! {

/// The Node.js class name of a codec error.
pub open spec fn spec_node_codec_error_class(e: CodecError) -> Seq<char> {
    match e {
        CodecError::DimensionMismatch { .. } => "DimensionMismatchError"@,
        CodecError::UnsupportedBitWidth { .. } => "UnsupportedBitWidthError"@,
        CodecError::IndexOutOfRange { .. } => "TinyQuantError"@,
        CodecError::InvalidResidualFlag { .. } => "TinyQuantError"@,
    }
}

/// The Node.js class name of a search backend error.
pub open spec fn spec_node_backend_error_class(e: BackendError) -> Seq<char> {
    match e {
        BackendError::Empty => "BackendEmptyError"@,
        BackendError::InvalidTopK => "InvalidTopKError"@,
        BackendError::Adapter(_) => "BackendAdapterError"@,
    }
}

/// The Python exception class of a codec error.
pub open spec fn spec_python_codec_error_class(e: CodecError) -> Seq<char> {
    match e {
        CodecError::DimensionMismatch { .. } => "DimensionMismatchError"@,
        _ => "ValueError"@,
    }
}

/// The Python exception class of a search backend error.
pub open spec fn spec_python_backend_error_class(e: BackendError) -> Seq<char> {
    match e {
        BackendError::InvalidTopK => "ValueError"@,
        _ => "RuntimeError"@,
    }
}

/// Node.js class name for a codec error: dimension mismatches and
/// unsupported bit widths have classes of their own, the rest are
/// `TinyQuantError`.
pub fn node_codec_error_class(e: &CodecError) -> (r: &'static str)
    ensures
        r@ == spec_node_codec_error_class(*e),
{
    match e {
        CodecError::DimensionMismatch { .. } => "DimensionMismatchError",
        CodecError::UnsupportedBitWidth { .. } => "UnsupportedBitWidthError",
        CodecError::IndexOutOfRange { .. } => "TinyQuantError",
        CodecError::InvalidResidualFlag { .. } => "TinyQuantError",
    }
}

/// Node.js class name for a search backend error.
pub fn node_backend_error_class(e: &BackendError) -> (r: &'static str)
    ensures
        r@ == spec_node_backend_error_class(*e),
{
    match e {
        BackendError::Empty => "BackendEmptyError",
        BackendError::InvalidTopK => "InvalidTopKError",
        BackendError::Adapter(_) => "BackendAdapterError",
    }
}

/// Python exception class for a codec error: `DimensionMismatchError` for
/// dimension mismatches, `ValueError` otherwise.
pub fn python_codec_error_class(e: &CodecError) -> (r: &'static str)
    ensures
        r@ == spec_python_codec_error_class(*e),
{
    match e {
        CodecError::DimensionMismatch { .. } => "DimensionMismatchError",
        _ => "ValueError",
    }
}

/// Python exception class for a search backend error: `ValueError` for a
/// zero `top_k`, `RuntimeError` otherwise.
pub fn python_backend_error_class(e: &BackendError) -> (r: &'static str)
    ensures
        r@ == spec_python_backend_error_class(*e),
{
    match e {
        BackendError::InvalidTopK => "ValueError",
        _ => "RuntimeError",
    }
}

} // verus!
