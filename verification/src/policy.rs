//! Corpus compression policies.
use vstd::prelude::*;

verus! {

/// How a corpus stores the vectors inserted into it.
#[derive(Clone, Copy, Debug, PartialEq, Eq, Hash, Structural)]
pub enum CompressionPolicy {
    /// Full codec pipeline: rotate, scalar quantize, optional FP16 residual.
    Compress,
    /// Store raw FP32 bytes with no transformation.
    Passthrough,
    /// Cast each FP32 to IEEE-754 binary16 and store 2 bytes per dimension.
    Fp16,
}

impl CompressionPolicy {
    /// True only for `Compress`: the other policies bypass the codec.
    pub fn requires_codec(&self) -> (r: bool)
        ensures
            r == (*self == CompressionPolicy::Compress),
    {
        match self {
            CompressionPolicy::Compress => true,
            _ => false,
        }
    }

    /// Canonical lowercase tag: `"compress" | "passthrough" | "fp16"`.
    pub fn kind_tag(&self) -> (r: &'static str)
        ensures
            r@ == match *self {
                CompressionPolicy::Compress => "compress"@,
                CompressionPolicy::Passthrough => "passthrough"@,
                CompressionPolicy::Fp16 => "fp16"@,
            },
    {
        match self {
            CompressionPolicy::Compress => "compress",
            CompressionPolicy::Passthrough => "passthrough",
            CompressionPolicy::Fp16 => "fp16",
        }
    }

    /// Python enum member name: `"COMPRESS" | "PASSTHROUGH" | "FP16"`.
    pub fn python_name(&self) -> (r: &'static str)
        ensures
            r@ == match *self {
                CompressionPolicy::Compress => "COMPRESS"@,
                CompressionPolicy::Passthrough => "PASSTHROUGH"@,
                CompressionPolicy::Fp16 => "FP16"@,
            },
    {
        match self {
            CompressionPolicy::Compress => "COMPRESS",
            CompressionPolicy::Passthrough => "PASSTHROUGH",
            CompressionPolicy::Fp16 => "FP16",
        }
    }

    /// Storage dtype tag: `"uint8" | "float16" | "float32"`.
    pub fn storage_dtype(&self) -> (r: &'static str)
        ensures
            r@ == match *self {
                CompressionPolicy::Compress => "uint8"@,
                CompressionPolicy::Passthrough => "float32"@,
                CompressionPolicy::Fp16 => "float16"@,
            },
    {
        match self {
            CompressionPolicy::Compress => "uint8",
            CompressionPolicy::Fp16 => "float16",
            CompressionPolicy::Passthrough => "float32",
        }
    }
}

} // verus!
