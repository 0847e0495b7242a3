//! Zero-copy view of a Level-1 serialized `CompressedVector`.
use vstd::prelude::*;
use vstd::bytes::u32_from_le_bytes;
use crate::bits::{lemma_packed_len_bound, lemma_unpack_fits, packed_len, spec_unpack};
use crate::codec::{is_supported_bit_width, opt_bytes, spec_new, CompressedVector, CompressedVectorModel};
use crate::compressed_vector::from_bytes::{spec_parse_record, spec_parse_residual, RecordModel};
use crate::compressed_vector::header::{decode_header, FORMAT_VERSION, HEADER_SIZE};
use crate::compressed_vector::unpack::unpack_indices;
use crate::errors::{CodecError, IoError};

verus! {

/// A zero-copy view of a single Level-1 serialized [`CompressedVector`].
///
/// All fields borrow from the input byte slice. No heap allocation occurs
/// during [`parse`](CompressedVectorView::parse) or
/// [`unpack_into`](CompressedVectorView::unpack_into).
pub struct CompressedVectorView<'a> {
    /// Format version byte from the Level-1 header.
    pub format_version: u8,
    /// Config hash string borrowed from the Level-1 header.
    pub config_hash: &'a str,
    /// Number of dimensions.
    pub dimension: u32,
    /// Bit width (2, 4, or 8).
    pub bit_width: u8,
    /// Packed index bytes (LSB-first).
    pub packed_indices: &'a [u8],
    /// Residual bytes (2 bytes per dimension), or `None`.
    pub residual: Option<&'a [u8]>,
}

/// The bytes of an optional borrowed byte slice.
pub open spec fn opt_slice(o: Option<&[u8]>) -> Option<Seq<u8>> {
    match o {
        Some(s) => Some(s@),
        None => None,
    }
}

/// The view shows the fields of the record `r`.
pub open spec fn view_shows(v: CompressedVectorView, r: RecordModel) -> bool {
    &&& v.format_version == r.version
    &&& v.config_hash@ == r.config_hash
    &&& v.dimension == r.dimension
    &&& v.bit_width == r.bit_width
    &&& v.packed_indices@ == r.packed
    &&& opt_slice(v.residual) == r.residual
}

/// The view's packed bytes have the length its dimension and bit width
/// call for, and the bit width is at most 8 (and non-zero unless there are
/// no dimensions).
pub open spec fn view_consistent(v: CompressedVectorView) -> bool {
    &&& v.bit_width <= 8
    &&& (v.bit_width >= 1 || v.dimension == 0)
    &&& v.packed_indices@.len() == packed_len(v.dimension as nat, v.bit_width as nat)
}

/// Parse the residual section whose flag byte, at `flag_offset` in `data`,
/// is `residual_flag`. Returns `(residual_slice_or_none, record_end)`.
///
/// The offsets are computed in `u64`; `flag_offset + 5 + u32::MAX` fits in
/// it for every slice a machine can hold.
fn parse_residual<'a>(data: &'a [u8], flag_offset: usize, residual_flag: u8) -> (r: Result<
    (Option<&'a [u8]>, usize),
    IoError,
>)
    requires
        flag_offset < data@.len(),
        flag_offset + 5 + u32::MAX <= u64::MAX,
    ensures
        match r {
            Ok((res, end)) => spec_parse_residual(data@, flag_offset as nat, residual_flag) == Ok::<
                (Option<Seq<u8>>, nat),
                IoError,
            >((opt_slice(res), end as nat)),
            Err(e) => spec_parse_residual(data@, flag_offset as nat, residual_flag) == Err::<
                (Option<Seq<u8>>, nat),
                IoError,
            >(e),
        },
{
    let n = data.len();
    if residual_flag == 0x00 {
        assert(flag_offset < n);
        Ok((None, flag_offset + 1))
    } else if residual_flag == 0x01 {
        let rlen_end: u64 = flag_offset as u64 + 5;
        if (data.len() as u64) < rlen_end {
            return Err(IoError::Truncated { needed: rlen_end as usize, got: data.len() });
        }
        let rlen = u32_from_le_bytes(
            vstd::slice::slice_subrange(data, flag_offset + 1, rlen_end as usize),
        );
        let rdata_end: u64 = rlen_end + rlen as u64;
        if (data.len() as u64) < rdata_end {
            return Err(IoError::Truncated { needed: rdata_end as usize, got: data.len() });
        }
        let rdata = vstd::slice::slice_subrange(data, rlen_end as usize, rdata_end as usize);
        Ok((Some(rdata), rdata_end as usize))
    } else {
        Err(IoError::Decode(CodecError::InvalidResidualFlag { got: residual_flag }))
    }
}

impl<'a> CompressedVectorView<'a> {
    /// Parse a single Level-1 record from the start of `data`.
    ///
    /// Returns `(view, unconsumed_tail)`.
    ///
    /// Returns [`IoError`] if the data is truncated, has an unknown version,
    /// an invalid bit-width, or a bad residual flag.
    pub fn parse(data: &'a [u8]) -> (r: Result<(Self, &'a [u8]), IoError>)
        ensures
            match r {
                Ok((view, tail)) => spec_parse_record(data@) matches Ok(rec) && view_shows(view, rec)
                    && rec.end <= data@.len() && tail@ == data@.subrange(rec.end as int, data@.len() as int)
                    && view_consistent(view),
                Err(e) => spec_parse_record(data@) == Err::<RecordModel, IoError>(e),
            },
    {
        let (version, config_hash, dimension, bit_width) = match decode_header(data) {
            Ok(h) => h,
            Err(e) => {
                return Err(e);
            },
        };
        if version != FORMAT_VERSION {
            return Err(IoError::UnknownVersion { got: version });
        }
        if !is_supported_bit_width(bit_width) {
            return Err(IoError::InvalidBitWidth { got: bit_width });
        }
        proof {
            lemma_packed_len_bound(dimension as nat, bit_width as nat);
        }
        let packed_len: u64 = (dimension as u64 * bit_width as u64 + 7) / 8;
        let flag_offset: u64 = HEADER_SIZE as u64 + packed_len;
        if (data.len() as u64) < flag_offset + 1 {
            return Err(IoError::Truncated { needed: (flag_offset + 1) as usize, got: data.len() });
        }
        let packed_indices = vstd::slice::slice_subrange(data, HEADER_SIZE, flag_offset as usize);
        let residual_flag = data[flag_offset as usize];
        let (residual, record_end) = match parse_residual(
            data,
            flag_offset as usize,
            residual_flag,
        ) {
            Ok(v) => v,
            Err(e) => {
                return Err(e);
            },
        };
        let tail = vstd::slice::slice_subrange(data, record_end, data.len());
        Ok(
            (
                CompressedVectorView {
                    format_version: version,
                    config_hash,
                    dimension,
                    bit_width,
                    packed_indices,
                    residual,
                },
                tail,
            ),
        )
    }

    /// Unpack indices into caller-provided buffer (no allocation).
    ///
    /// Returns [`IoError::LengthMismatch`] if `out.len() != self.dimension as usize`,
    /// leaving `out` untouched.
    pub fn unpack_into(&self, out: &mut [u8]) -> (r: Result<(), IoError>)
        requires
            view_consistent(*self),
        ensures
            match r {
                Ok(()) => old(out)@.len() == self.dimension && final(out)@ == spec_unpack(
                    self.packed_indices@,
                    self.dimension as nat,
                    self.bit_width as nat,
                ),
                Err(e) => e == IoError::LengthMismatch && old(out)@.len() != self.dimension
                    && final(out)@ == old(out)@,
            },
    {
        if out.len() != self.dimension as usize {
            return Err(IoError::LengthMismatch);
        }
        proof {
            let d = self.dimension as int;
            let b = self.bit_width as int;
            assert(d * b <= 0xffff_ffff * 8) by (nonlinear_arith)
                requires
                    0 <= d <= 0xffff_ffff,
                    0 <= b <= 8,
            ;
        }
        unpack_indices(self.packed_indices, self.dimension as usize, self.bit_width, out);
        Ok(())
    }

    /// Allocating escape hatch — copies borrowed bytes into an owned [`CompressedVector`].
    ///
    /// Returns [`IoError::Decode`] if the view's fields do not make a valid
    /// compressed vector (an unsupported bit width).
    pub fn to_owned_cv(&self) -> (r: Result<CompressedVector, IoError>)
        requires
            view_consistent(*self),
        ensures
            match spec_new(
                spec_unpack(self.packed_indices@, self.dimension as nat, self.bit_width as nat),
                opt_slice(self.residual),
                self.config_hash@,
                self.dimension,
                self.bit_width,
            ) {
                Ok(m) => r matches Ok(cv) && cv@ == m,
                Err(e) => r matches Err(err) && err == IoError::Decode(e),
            },
    {
        let mut indices = vec![0u8; self.dimension as usize];
        let unpacked = self.unpack_into(indices.as_mut_slice());
        if let Err(e) = unpacked {
            return Err(e);
        }
        let residual = match self.residual {
            Some(r) => Some(vstd::slice::slice_to_vec(r)),
            None => None,
        };
        proof {
            assert(opt_bytes(residual) == opt_slice(self.residual));
        }
        match CompressedVector::new(
            indices,
            residual,
            self.config_hash.to_owned(),
            self.dimension,
            self.bit_width,
        ) {
            Ok(cv) => Ok(cv),
            Err(e) => Err(IoError::Decode(e)),
        }
    }
}

} // verus!
