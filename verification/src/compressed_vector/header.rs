//! Header encoding/decoding for the `CompressedVector` binary format.
//!
//! Header layout (70 bytes, all fields little-endian):
//!
//! | offset | length | field       | encoding          |
//! |-------:|-------:|-------------|-------------------|
//! |      0 |      1 | version     | u8 = 0x01         |
//! |      1 |     64 | config_hash | UTF-8, NUL-padded |
//! |     65 |      4 | dimension   | u32 LE            |
//! |     69 |      1 | bit_width   | u8                |
use vstd::prelude::*;
use vstd::bytes::{spec_u32_from_le_bytes, spec_u32_to_le_bytes, u32_from_le_bytes, u32_to_le_bytes};
use vstd::string::StringSliceAdditionalSpecFns;
use vstd::utf8::{decode_utf8, encode_utf8_decode_utf8, valid_utf8};
use crate::byte_util::{append_bytes, append_zeros, str_from_utf8};
use crate::errors::IoError;

verus! {

/// Format version byte of a Level-1 record.
pub const FORMAT_VERSION: u8 = 0x01;

/// Width of the NUL-padded config hash field.
pub const HASH_BYTES: usize = 64;

/// Total header size in bytes.
pub const HEADER_SIZE: usize = 70;

/// The 64-byte hash field: the first 64 bytes of the hash, padded with NULs.
pub open spec fn hash_field(hash: Seq<u8>) -> Seq<u8> {
    let n = if hash.len() < 64 {
        hash.len()
    } else {
        64
    };
    hash.subrange(0, n as int) + Seq::new((64 - n) as nat, |i: int| 0u8)
}

/// The 70-byte header for a hash (as bytes), dimension and bit width.
pub open spec fn spec_encode_header(hash: Seq<u8>, dimension: u32, bit_width: u8) -> Seq<u8> {
    seq![FORMAT_VERSION] + hash_field(hash) + spec_u32_to_le_bytes(dimension) + seq![bit_width]
}

/// `s` without its trailing NUL bytes.
pub open spec fn trim_zeros(s: Seq<u8>) -> Seq<u8>
    decreases s.len(),
{
    if s.len() > 0 && s.last() == 0 {
        trim_zeros(s.drop_last())
    } else {
        s
    }
}

/// What `decode_header` returns for `data`: the version byte, the config
/// hash (the hash field without trailing NULs, decoded as UTF-8), the
/// dimension and the bit width.
pub open spec fn spec_decode_header(data: Seq<u8>) -> Result<(u8, Seq<char>, u32, u8), IoError> {
    if data.len() < 70 {
        Err(IoError::Truncated { needed: 70, got: data.len() as usize })
    } else {
        let hash = trim_zeros(data.subrange(1, 65));
        if !valid_utf8(hash) {
            Err(IoError::InvalidUtf8)
        } else {
            Ok((data[0], decode_utf8(hash), spec_u32_from_le_bytes(data.subrange(65, 69)), data[69]))
        }
    }
}

/// Append a 70-byte header to `out`.
pub fn encode_header(out: &mut Vec<u8>, config_hash: &str, dimension: u32, bit_width: u8)
    ensures
        final(out)@ == old(out)@ + spec_encode_header(config_hash.spec_bytes(), dimension, bit_width),
{
    out.push(FORMAT_VERSION);
    let src = config_hash.as_bytes();
    let n = if src.len() < HASH_BYTES {
        src.len()
    } else {
        HASH_BYTES
    };
    let head = vstd::slice::slice_subrange(src, 0, n);
    append_bytes(out, head);
    append_zeros(out, HASH_BYTES - n);
    let dim_bytes = u32_to_le_bytes(dimension);
    append_bytes(out, dim_bytes.as_slice());
    out.push(bit_width);
    proof {
        assert(final(out)@ =~= old(out)@ + spec_encode_header(
            config_hash.spec_bytes(),
            dimension,
            bit_width,
        ));
    }
}

/// Trimming the NULs after the last non-NUL byte of a prefix.
proof fn lemma_trim_step(s: Seq<u8>, end: int)
    requires
        0 < end <= s.len(),
        s[end - 1] == 0,
    ensures
        trim_zeros(s.subrange(0, end)) == trim_zeros(s.subrange(0, end - 1)),
{
    assert(s.subrange(0, end).drop_last() =~= s.subrange(0, end - 1));
}

/// Decode the header from the start of `data`.
///
/// Returns `(version, config_hash, dimension, bit_width)`.
pub fn decode_header(data: &[u8]) -> (r: Result<(u8, &str, u32, u8), IoError>)
    ensures
        match r {
            Ok((version, hash, dimension, bit_width)) => spec_decode_header(data@) == Ok::<
                (u8, Seq<char>, u32, u8),
                IoError,
            >((version, hash@, dimension, bit_width)),
            Err(e) => spec_decode_header(data@) == Err::<(u8, Seq<char>, u32, u8), IoError>(e),
        },
{
    if data.len() < HEADER_SIZE {
        return Err(IoError::Truncated { needed: HEADER_SIZE, got: data.len() });
    }
    let version = data[0];
    let hash_raw = vstd::slice::slice_subrange(data, 1, 65);
    let mut end: usize = 64;
    proof {
        assert(hash_raw@.subrange(0, 64) =~= hash_raw@);
    }
    while end > 0 && hash_raw[end - 1] == 0
        invariant
            hash_raw@ == data@.subrange(1, 65),
            data@.len() >= 70,
            hash_raw@.len() == 64,
            0 <= end <= 64,
            trim_zeros(hash_raw@) == trim_zeros(hash_raw@.subrange(0, end as int)),
        decreases end,
    {
        proof {
            lemma_trim_step(hash_raw@, end as int);
        }
        end = end - 1;
    }
    proof {
        assert(hash_raw@.subrange(0, 64) =~= hash_raw@);
        assert(trim_zeros(hash_raw@.subrange(0, end as int)) == hash_raw@.subrange(0, end as int));
    }
    let trimmed = vstd::slice::slice_subrange(hash_raw, 0, end);
    let config_hash = match str_from_utf8(trimmed) {
        Some(s) => s,
        None => {
            return Err(IoError::InvalidUtf8);
        },
    };
    proof {
        encode_utf8_decode_utf8(config_hash@);
    }
    let dim_bytes = vstd::slice::slice_subrange(data, 65, 69);
    let dimension = u32_from_le_bytes(dim_bytes);
    let bit_width = data[69];
    Ok((version, config_hash, dimension, bit_width))
}

} // verus!
