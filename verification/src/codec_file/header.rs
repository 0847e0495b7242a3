//! Level-2 TQCV file header encode/decode.
//!
//! Fixed header layout (24 bytes):
//!
//! | offset | len | field           | notes                                       |
//! |--------|-----|-----------------|---------------------------------------------|
//! | 0      | 4   | magic           | `b"TQCV"` (final) or `b"TQCX"` (tentative) |
//! | 4      | 1   | format_version  | `0x01`                                      |
//! | 5      | 3   | reserved        | `[0x00; 3]`; reject if non-zero             |
//! | 8      | 8   | vector_count    | `u64` LE                                    |
//! | 16     | 4   | dimension       | `u32` LE, must be non-zero                  |
//! | 20     | 1   | bit_width       | one of `{2, 4, 8}`                          |
//! | 21     | 1   | residual_flag   | `0x00` = no residuals, `0x01` = residuals   |
//! | 22     | 2   | config_hash_len | `u16` LE, ≤ 256                             |
//!
//! The fixed header is followed by the config hash, the metadata length
//! (`u32` LE), the metadata bytes, and NUL padding to an 8-byte boundary.
use vstd::prelude::*;
use vstd::bytes::{
    spec_u16_from_le_bytes, spec_u16_to_le_bytes, spec_u32_from_le_bytes, spec_u32_to_le_bytes,
    spec_u64_from_le_bytes, spec_u64_to_le_bytes, u16_from_le_bytes, u16_to_le_bytes,
    u32_from_le_bytes, u32_to_le_bytes, u64_from_le_bytes, u64_to_le_bytes,
};
use vstd::string::StringSliceAdditionalSpecFns;
use vstd::utf8::{decode_utf8, encode_utf8_decode_utf8, valid_utf8};
use crate::byte_util::{append_bytes, append_zeros, str_from_utf8};
use crate::codec::{is_supported_bit_width, supported_bit_width};
use crate::errors::IoError;

verus! {

/// Magic bytes for a finalized corpus file: `TQCV`.
pub const MAGIC_FINAL: [u8; 4] = [0x54, 0x51, 0x43, 0x56];

/// Magic bytes for a tentative (write-in-progress) corpus file: `TQCX`.
pub const MAGIC_TENTATIVE: [u8; 4] = [0x54, 0x51, 0x43, 0x58];

/// Format version byte.
pub const FORMAT_VERSION: u8 = 0x01;

/// Size of the fixed 24-byte header.
pub const FIXED_HEADER_SIZE: usize = 24;

/// Longest config hash a header may carry.
pub const MAX_CONFIG_HASH_LEN: usize = 256;

/// Largest metadata blob a header may carry (16 MiB).
pub const MAX_METADATA_LEN: usize = 16777216;

/// `TQCV` as a sequence.
pub open spec fn magic_final() -> Seq<u8> {
    seq![0x54u8, 0x51u8, 0x43u8, 0x56u8]
}

/// `TQCX` as a sequence.
pub open spec fn magic_tentative() -> Seq<u8> {
    seq![0x54u8, 0x51u8, 0x43u8, 0x58u8]
}

/// Decoded Level-2 header with ownership of string data.
#[derive(Debug)]
pub struct CorpusFileHeader {
    /// Number of vectors in the file.
    pub vector_count: u64,
    /// Dimension of each vector.
    pub dimension: u32,
    /// Bit width (2, 4, or 8).
    pub bit_width: u8,
    /// Whether all vectors have a residual section.
    pub residual: bool,
    /// Config hash string.
    pub config_hash: String,
    /// Opaque metadata bytes.
    pub metadata: Vec<u8>,
    /// Byte offset where the body (records) begins.
    pub body_offset: usize,
}

/// The content of a Level-2 header.
pub struct CorpusHeaderModel {
    /// Number of vectors in the file.
    pub vector_count: u64,
    /// Dimension of each vector.
    pub dimension: u32,
    /// Bit width.
    pub bit_width: u8,
    /// Residual flag.
    pub residual: bool,
    /// Config hash.
    pub config_hash: Seq<char>,
    /// Metadata bytes.
    pub metadata: Seq<u8>,
    /// Byte offset of the first record.
    pub body_offset: nat,
}

impl View for CorpusFileHeader {
    type V = CorpusHeaderModel;

    open spec fn view(&self) -> CorpusHeaderModel {
        CorpusHeaderModel {
            vector_count: self.vector_count,
            dimension: self.dimension,
            bit_width: self.bit_width,
            residual: self.residual,
            config_hash: self.config_hash@,
            metadata: self.metadata@,
            body_offset: self.body_offset as nat,
        }
    }
}

/// `n` rounded up to a multiple of 8.
pub open spec fn align8(n: nat) -> nat {
    ((n + 7) / 8) * 8
}

/// The header bytes before padding: fixed header with the tentative magic,
/// config hash, metadata length and metadata.
pub open spec fn unpadded_header(
    hash: Seq<u8>,
    dimension: u32,
    bit_width: u8,
    residual: bool,
    metadata: Seq<u8>,
    vector_count: u64,
) -> Seq<u8> {
    magic_tentative() + seq![FORMAT_VERSION, 0u8, 0u8, 0u8] + spec_u64_to_le_bytes(vector_count)
        + spec_u32_to_le_bytes(dimension) + seq![bit_width, if residual { 1u8 } else { 0u8 }]
        + spec_u16_to_le_bytes(hash.len() as u16) + hash + spec_u32_to_le_bytes(
        metadata.len() as u32,
    ) + metadata
}

/// What `encode_header` returns: the tentative header padded with NULs to
/// an 8-byte boundary, or the error for out-of-range fields.
pub open spec fn spec_encode_header(
    hash: Seq<u8>,
    dimension: u32,
    bit_width: u8,
    residual: bool,
    metadata: Seq<u8>,
    vector_count: u64,
) -> Result<Seq<u8>, IoError> {
    if hash.len() > MAX_CONFIG_HASH_LEN {
        Err(IoError::InvalidHeader)
    } else if metadata.len() > MAX_METADATA_LEN {
        Err(IoError::InvalidHeader)
    } else if !supported_bit_width(bit_width) {
        Err(IoError::InvalidBitWidth { got: bit_width })
    } else if dimension == 0 {
        Err(IoError::InvalidHeader)
    } else {
        let body = unpadded_header(hash, dimension, bit_width, residual, metadata, vector_count);
        Ok(body + Seq::new((align8(body.len()) - body.len()) as nat, |i: int| 0u8))
    }
}

/// What decoding the fixed 24 bytes yields:
/// `(vector_count, dimension, bit_width, residual, config_hash_len)`.
pub open spec fn spec_decode_fixed_header(data: Seq<u8>) -> Result<
    (u64, u32, u8, bool, nat),
    IoError,
> {
    let magic = data.subrange(0, 4);
    if magic != magic_final() && magic == magic_tentative() {
        Err(IoError::Truncated { needed: (data.len() + 1) as usize, got: data.len() as usize })
    } else if magic != magic_final() {
        Err(IoError::BadMagic { got: [data[0], data[1], data[2], data[3]] })
    } else if data[4] != FORMAT_VERSION {
        Err(IoError::UnknownVersion { got: data[4] })
    } else if data[5] != 0 || data[6] != 0 || data[7] != 0 {
        Err(IoError::InvalidHeader)
    } else if spec_u32_from_le_bytes(data.subrange(16, 20)) == 0 {
        Err(IoError::InvalidHeader)
    } else if !supported_bit_width(data[20]) {
        Err(IoError::InvalidBitWidth { got: data[20] })
    } else if data[21] != 0 && data[21] != 1 {
        Err(IoError::InvalidHeader)
    } else if spec_u16_from_le_bytes(data.subrange(22, 24)) > MAX_CONFIG_HASH_LEN {
        Err(IoError::InvalidHeader)
    } else {
        Ok(
            (
                spec_u64_from_le_bytes(data.subrange(8, 16)),
                spec_u32_from_le_bytes(data.subrange(16, 20)),
                data[20],
                data[21] == 1,
                spec_u16_from_le_bytes(data.subrange(22, 24)) as nat,
            ),
        )
    }
}

/// What decoding the variable prefix after the fixed header yields:
/// `(config_hash, metadata, body_offset)`.
pub open spec fn spec_decode_variable_prefix(data: Seq<u8>, start: nat, config_hash_len: nat) -> Result<
    (Seq<char>, Seq<u8>, nat),
    IoError,
> {
    let hash_end = start + config_hash_len;
    if data.len() < hash_end {
        Err(IoError::Truncated { needed: hash_end as usize, got: data.len() as usize })
    } else if !valid_utf8(data.subrange(start as int, hash_end as int)) {
        Err(IoError::InvalidUtf8)
    } else {
        let ml_end = hash_end + 4;
        if data.len() < ml_end {
            Err(IoError::Truncated { needed: ml_end as usize, got: data.len() as usize })
        } else {
            let metadata_len = spec_u32_from_le_bytes(data.subrange(hash_end as int, ml_end as int));
            let meta_end: nat = ml_end + metadata_len as nat;
            if data.len() < meta_end {
                Err(IoError::Truncated { needed: meta_end as usize, got: data.len() as usize })
            } else {
                Ok(
                    (
                        decode_utf8(data.subrange(start as int, hash_end as int)),
                        data.subrange(ml_end as int, meta_end as int),
                        align8(meta_end),
                    ),
                )
            }
        }
    }
}

/// What `decode_header` returns for `data`.
pub open spec fn spec_decode_header(data: Seq<u8>) -> Result<CorpusHeaderModel, IoError> {
    if data.len() < FIXED_HEADER_SIZE {
        Err(IoError::Truncated { needed: FIXED_HEADER_SIZE, got: data.len() as usize })
    } else {
        match spec_decode_fixed_header(data) {
            Err(e) => Err(e),
            Ok((vector_count, dimension, bit_width, residual, config_hash_len)) => {
                match spec_decode_variable_prefix(data, FIXED_HEADER_SIZE as nat, config_hash_len) {
                    Err(e) => Err(e),
                    Ok((config_hash, metadata, body_offset)) => Ok(
                        CorpusHeaderModel {
                            vector_count,
                            dimension,
                            bit_width,
                            residual,
                            config_hash,
                            metadata,
                            body_offset,
                        },
                    ),
                }
            },
        }
    }
}

/// Encode the full Level-2 header (fixed + variable + padding).
///
/// Uses `TQCX` (tentative) magic; caller must flip to `TQCV` on finalize.
///
/// Returns [`IoError::InvalidHeader`] if the config hash or metadata exceed
/// their maximum lengths, or if the dimension is zero.
/// Returns [`IoError::InvalidBitWidth`] if `bit_width ∉ {2, 4, 8}`.
pub fn encode_header(
    config_hash: &str,
    dimension: u32,
    bit_width: u8,
    residual: bool,
    metadata: &[u8],
    vector_count: u64,
) -> (r: Result<Vec<u8>, IoError>)
    ensures
        match r {
            Ok(v) => spec_encode_header(
                config_hash.spec_bytes(),
                dimension,
                bit_width,
                residual,
                metadata@,
                vector_count,
            ) == Ok::<Seq<u8>, IoError>(v@),
            Err(e) => spec_encode_header(
                config_hash.spec_bytes(),
                dimension,
                bit_width,
                residual,
                metadata@,
                vector_count,
            ) == Err::<Seq<u8>, IoError>(e),
        },
{
    let hash_bytes = config_hash.as_bytes();
    if hash_bytes.len() > MAX_CONFIG_HASH_LEN {
        return Err(IoError::InvalidHeader);
    }
    if metadata.len() > MAX_METADATA_LEN {
        return Err(IoError::InvalidHeader);
    }
    if !is_supported_bit_width(bit_width) {
        return Err(IoError::InvalidBitWidth { got: bit_width });
    }
    if dimension == 0 {
        return Err(IoError::InvalidHeader);
    }
    let config_hash_len = hash_bytes.len() as u16;
    let metadata_len = metadata.len() as u32;
    let mut out: Vec<u8> = Vec::new();
    // Fixed header
    append_bytes(&mut out, MAGIC_TENTATIVE.as_slice());
    out.push(FORMAT_VERSION);
    append_zeros(&mut out, 3);
    append_bytes(&mut out, u64_to_le_bytes(vector_count).as_slice());
    append_bytes(&mut out, u32_to_le_bytes(dimension).as_slice());
    out.push(bit_width);
    out.push(if residual {
        1u8
    } else {
        0u8
    });
    append_bytes(&mut out, u16_to_le_bytes(config_hash_len).as_slice());
    // Variable prefix
    append_bytes(&mut out, hash_bytes);
    append_bytes(&mut out, u32_to_le_bytes(metadata_len).as_slice());
    append_bytes(&mut out, metadata);
    proof {
        let body = unpadded_header(
            hash_bytes@,
            dimension,
            bit_width,
            residual,
            metadata@,
            vector_count,
        );
        assert(MAGIC_TENTATIVE@ =~= magic_tentative());
        assert(Seq::new(3, |i: int| 0u8) =~= seq![0u8, 0u8, 0u8]);
        assert(out@ =~= body);
    }
    // Alignment padding to 8-byte boundary
    let pad = (8 - (out.len() % 8)) % 8;
    proof {
        let n = out@.len();
        assert(align8(n) - n == (8 - (n % 8)) % 8) by (nonlinear_arith);
    }
    append_zeros(&mut out, pad);
    Ok(out)
}

/// Decode the fixed portion of the Level-2 header (magic, version, reserved,
/// counts, `bit_width`, `residual`, `config_hash_len`).
fn decode_fixed_header(data: &[u8]) -> (r: Result<(u64, u32, u8, bool, usize), IoError>)
    requires
        data@.len() >= FIXED_HEADER_SIZE,
        data@.len() <= isize::MAX,
    ensures
        match r {
            Ok((vector_count, dimension, bit_width, residual, config_hash_len)) => spec_decode_fixed_header(data@) == Ok::<(u64, u32, u8, bool, nat), IoError>(
                (vector_count, dimension, bit_width, residual, config_hash_len as nat),
            ),
            Err(e) => spec_decode_fixed_header(data@) == Err::<(u64, u32, u8, bool, nat), IoError>(e),
        },
{
    let m0 = data[0];
    let m1 = data[1];
    let m2 = data[2];
    let m3 = data[3];
    let is_final = m0 == MAGIC_FINAL[0] && m1 == MAGIC_FINAL[1] && m2 == MAGIC_FINAL[2] && m3
        == MAGIC_FINAL[3];
    let is_tentative = m0 == MAGIC_TENTATIVE[0] && m1 == MAGIC_TENTATIVE[1] && m2
        == MAGIC_TENTATIVE[2] && m3 == MAGIC_TENTATIVE[3];
    proof {
        assert(is_final <==> data@.subrange(0, 4) =~= magic_final());
        assert(is_tentative <==> data@.subrange(0, 4) =~= magic_tentative());
    }
    if !is_final {
        if is_tentative {
            // The file was not finalized (magic is still TQCX). Fold this
            // into Truncated with coherent field values: the file exists but
            // is incomplete — signal that one more byte "would help" so callers
            // see a meaningful "needed > got" relationship.
            return Err(IoError::Truncated { needed: data.len() + 1, got: data.len() });
        }
        return Err(IoError::BadMagic { got: [m0, m1, m2, m3] });
    }
    let version = data[4];
    if version != FORMAT_VERSION {
        return Err(IoError::UnknownVersion { got: version });
    }
    if data[5] != 0 || data[6] != 0 || data[7] != 0 {
        return Err(IoError::InvalidHeader);
    }
    let vector_count = u64_from_le_bytes(vstd::slice::slice_subrange(data, 8, 16));
    let dimension = u32_from_le_bytes(vstd::slice::slice_subrange(data, 16, 20));
    if dimension == 0 {
        return Err(IoError::InvalidHeader);
    }
    let bit_width = data[20];
    if !is_supported_bit_width(bit_width) {
        return Err(IoError::InvalidBitWidth { got: bit_width });
    }
    let residual_flag = data[21];
    let residual = if residual_flag == 0x00 {
        false
    } else if residual_flag == 0x01 {
        true
    } else {
        return Err(IoError::InvalidHeader);
    };
    let config_hash_len = u16_from_le_bytes(vstd::slice::slice_subrange(data, 22, 24)) as usize;
    if config_hash_len > MAX_CONFIG_HASH_LEN {
        return Err(IoError::InvalidHeader);
    }
    Ok((vector_count, dimension, bit_width, residual, config_hash_len))
}

/// Decode the variable-length prefix and compute the body offset.
fn decode_variable_prefix(data: &[u8], start: usize, config_hash_len: usize) -> (r: Result<
    (String, Vec<u8>, usize),
    IoError,
>)
    requires
        start + config_hash_len <= usize::MAX,
        data@.len() <= isize::MAX,
    ensures
        match r {
            Ok((config_hash, metadata, body_offset)) => spec_decode_variable_prefix(
                data@,
                start as nat,
                config_hash_len as nat,
            ) == Ok::<(Seq<char>, Seq<u8>, nat), IoError>(
                (config_hash@, metadata@, body_offset as nat),
            ),
            Err(e) => spec_decode_variable_prefix(data@, start as nat, config_hash_len as nat)
                == Err::<(Seq<char>, Seq<u8>, nat), IoError>(e),
        },
{
    let mut pos = start;
    let hash_end = pos + config_hash_len;
    if data.len() < hash_end {
        return Err(IoError::Truncated { needed: hash_end, got: data.len() });
    }
    let hash_bytes = vstd::slice::slice_subrange(data, pos, hash_end);
    let config_hash = match str_from_utf8(hash_bytes) {
        Some(s) => s,
        None => {
            return Err(IoError::InvalidUtf8);
        },
    };
    proof {
        encode_utf8_decode_utf8(config_hash@);
    }
    let config_hash = config_hash.to_owned();
    pos = hash_end;
    let ml_end = pos + 4;
    if data.len() < ml_end {
        return Err(IoError::Truncated { needed: ml_end, got: data.len() });
    }
    let metadata_len = u32_from_le_bytes(vstd::slice::slice_subrange(data, pos, ml_end));
    pos = ml_end;
    let meta_end: u64 = pos as u64 + metadata_len as u64;
    if (data.len() as u64) < meta_end {
        return Err(IoError::Truncated { needed: meta_end as usize, got: data.len() });
    }
    let metadata = vstd::slice::slice_to_vec(
        vstd::slice::slice_subrange(data, pos, meta_end as usize),
    );
    pos = meta_end as usize;
    let body_offset = ((pos + 7) / 8) * 8;
    Ok((config_hash, metadata, body_offset))
}

/// Decode the Level-2 header from `data`.
///
/// Returns [`IoError`] if the magic is wrong, data is truncated, reserved
/// bytes are non-zero, or any field value is out of range. A file whose
/// magic is still the tentative `TQCX` is reported as `Truncated`.
pub fn decode_header(data: &[u8]) -> (r: Result<CorpusFileHeader, IoError>)
    requires
        data@.len() <= isize::MAX,
    ensures
        match r {
            Ok(h) => spec_decode_header(data@) == Ok::<CorpusHeaderModel, IoError>(h@),
            Err(e) => spec_decode_header(data@) == Err::<CorpusHeaderModel, IoError>(e),
        },
{
    if data.len() < FIXED_HEADER_SIZE {
        return Err(IoError::Truncated { needed: FIXED_HEADER_SIZE, got: data.len() });
    }
    let (vector_count, dimension, bit_width, residual, config_hash_len) = match decode_fixed_header(
        data,
    ) {
        Ok(v) => v,
        Err(e) => {
            return Err(e);
        },
    };
    let (config_hash, metadata, body_offset) = match decode_variable_prefix(
        data,
        FIXED_HEADER_SIZE,
        config_hash_len,
    ) {
        Ok(v) => v,
        Err(e) => {
            return Err(e);
        },
    };
    Ok(
        CorpusFileHeader {
            vector_count,
            dimension,
            bit_width,
            residual,
            config_hash,
            metadata,
            body_offset,
        },
    )
}

} // verus!
