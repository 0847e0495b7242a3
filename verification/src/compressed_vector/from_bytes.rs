//! Decode a `CompressedVector` from its binary wire format.
use vstd::prelude::*;
use vstd::bytes::{spec_u32_from_le_bytes, u32_from_le_bytes};
use crate::bits::{lemma_packed_len_bound, lemma_unpack_fits, packed_len, spec_unpack};
use crate::codec::{
    is_supported_bit_width, model_wf, opt_bytes, spec_new, supported_bit_width, CompressedVector,
    CompressedVectorModel,
};
use crate::compressed_vector::header::{decode_header, spec_decode_header, FORMAT_VERSION, HEADER_SIZE};
use crate::compressed_vector::unpack::unpack_indices;
use crate::errors::{CodecError, IoError};

verus! {

/// The fields of one Level-1 record, read from the front of a byte stream.
pub struct RecordModel {
    /// Format version byte.
    pub version: u8,
    /// Config hash.
    pub config_hash: Seq<char>,
    /// Number of dimensions.
    pub dimension: u32,
    /// Bits per index.
    pub bit_width: u8,
    /// Packed index bytes.
    pub packed: Seq<u8>,
    /// Residual bytes, if the flag says there are any.
    pub residual: Option<Seq<u8>>,
    /// Number of bytes the record occupies.
    pub end: nat,
}

/// Offset of the residual flag byte of a record.
pub open spec fn flag_offset(dimension: u32, bit_width: u8) -> nat {
    70 + packed_len(dimension as nat, bit_width as nat)
}

/// Parse the residual section whose flag byte, at `flag_off`, is `flag`.
pub open spec fn spec_parse_residual(data: Seq<u8>, flag_off: nat, flag: u8) -> Result<
    (Option<Seq<u8>>, nat),
    IoError,
> {
    if flag == 0 {
        Ok((None, flag_off + 1))
    } else if flag == 1 {
        let rlen_end = flag_off + 5;
        if data.len() < rlen_end {
            Err(IoError::Truncated { needed: rlen_end as usize, got: data.len() as usize })
        } else {
            let rlen = spec_u32_from_le_bytes(data.subrange(flag_off + 1 as int, rlen_end as int));
            let rdata_end: nat = rlen_end + rlen as nat;
            if data.len() < rdata_end {
                Err(IoError::Truncated { needed: rdata_end as usize, got: data.len() as usize })
            } else {
                Ok((Some(data.subrange(rlen_end as int, rdata_end as int)), rdata_end))
            }
        }
    } else {
        Err(IoError::Decode(CodecError::InvalidResidualFlag { got: flag }))
    }
}

/// Parse one Level-1 record from the front of `data`.
pub open spec fn spec_parse_record(data: Seq<u8>) -> Result<RecordModel, IoError> {
    match spec_decode_header(data) {
        Err(e) => Err(e),
        Ok((version, config_hash, dimension, bit_width)) => {
            if version != FORMAT_VERSION {
                Err(IoError::UnknownVersion { got: version })
            } else if !supported_bit_width(bit_width) {
                Err(IoError::InvalidBitWidth { got: bit_width })
            } else {
                let fo = flag_offset(dimension, bit_width);
                if data.len() < fo + 1 {
                    Err(IoError::Truncated { needed: (fo + 1) as usize, got: data.len() as usize })
                } else {
                    match spec_parse_residual(data, fo, data[fo as int]) {
                        Err(e) => Err(e),
                        Ok((residual, end)) => Ok(
                            RecordModel {
                                version,
                                config_hash,
                                dimension,
                                bit_width,
                                packed: data.subrange(70, fo as int),
                                residual,
                                end,
                            },
                        ),
                    }
                }
            }
        },
    }
}

/// The compressed vector a record holds.
pub open spec fn record_vector(r: RecordModel) -> CompressedVectorModel {
    CompressedVectorModel {
        indices: spec_unpack(r.packed, r.dimension as nat, r.bit_width as nat),
        residual: r.residual,
        config_hash: r.config_hash,
        dimension: r.dimension,
        bit_width: r.bit_width,
    }
}

/// What `from_bytes` returns for `data`.
pub open spec fn spec_from_bytes(data: Seq<u8>) -> Result<CompressedVectorModel, IoError> {
    match spec_parse_record(data) {
        Ok(r) => Ok(record_vector(r)),
        Err(e) => Err(e),
    }
}

/// Deserialize a `CompressedVector` from `data`.
///
/// Returns [`IoError`] if the data is malformed, truncated, has an unknown
/// version, or contains an invalid bit-width or residual flag. Bytes after
/// the record are ignored.
pub fn from_bytes(data: &[u8]) -> (r: Result<CompressedVector, IoError>)
    ensures
        match r {
            Ok(cv) => spec_from_bytes(data@) == Ok::<CompressedVectorModel, IoError>(cv@),
            Err(e) => spec_from_bytes(data@) == Err::<CompressedVectorModel, IoError>(e),
        },
{
    let (version, config_hash, dimension, bit_width) = match decode_header(data) {
        Ok(h) => h,
        Err(e) => {
            return Err(e);
        },
    };
    if version != FORMAT_VERSION {
        return Err(IoError::UnknownVersion { got: version });
    }
    if !is_supported_bit_width(bit_width) {
        return Err(IoError::InvalidBitWidth { got: bit_width });
    }
    let dim = dimension as usize;
    proof {
        lemma_packed_len_bound(dim as nat, bit_width as nat);
    }
    let packed_len: u64 = (dimension as u64 * bit_width as u64 + 7) / 8;
    let flag_offset: u64 = HEADER_SIZE as u64 + packed_len;
    if (data.len() as u64) < flag_offset + 1 {
        return Err(IoError::Truncated { needed: (flag_offset + 1) as usize, got: data.len() });
    }
    let payload_start = HEADER_SIZE;
    let flag_at = flag_offset as usize;
    // Unpack indices

    let packed = vstd::slice::slice_subrange(data, payload_start, flag_at);
    let mut indices = vec![0u8; dim];
    unpack_indices(packed, dim, bit_width, indices.as_mut_slice());
    // Residual flag
    let residual_flag = data[flag_at];
    let residual: Option<Vec<u8>> = if residual_flag == 0x00 {
        None
    } else if residual_flag == 0x01 {
        let rlen_end: u64 = flag_offset + 5;
        if (data.len() as u64) < rlen_end {
            return Err(IoError::Truncated { needed: rlen_end as usize, got: data.len() });
        }
        let rlen_bytes = vstd::slice::slice_subrange(data, flag_at + 1, rlen_end as usize);
        let rlen = u32_from_le_bytes(rlen_bytes);
        let rdata_end: u64 = rlen_end + rlen as u64;
        if (data.len() as u64) < rdata_end {
            return Err(IoError::Truncated { needed: rdata_end as usize, got: data.len() });
        }
        let rdata = vstd::slice::slice_subrange(data, rlen_end as usize, rdata_end as usize);
        Some(vstd::slice::slice_to_vec(rdata))
    } else {
        return Err(IoError::Decode(CodecError::InvalidResidualFlag { got: residual_flag }));
    };
    let hash_owned = config_hash.to_owned();
    proof {
        lemma_unpack_fits(packed@, dim as nat, bit_width as nat);
        let m = CompressedVectorModel {
            indices: indices@,
            residual: opt_bytes(residual),
            config_hash: hash_owned@,
            dimension,
            bit_width,
        };
        assert(model_wf(m));
        crate::codec::lemma_new_accepts_wf(m);
    }
    match CompressedVector::new(indices, residual, hash_owned, dimension, bit_width) {
        Ok(cv) => Ok(cv),
        Err(e) => Err(IoError::Decode(e)),
    }
}

} // verus!
