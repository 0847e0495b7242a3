//! Encode a `CompressedVector` to its binary wire format.
use vstd::prelude::*;
use vstd::bytes::{spec_u32_to_le_bytes, u32_to_le_bytes};
use vstd::utf8::encode_utf8;
use crate::bits::{lemma_packed_len_bound, packed_len, spec_pack};
use crate::byte_util::append_bytes;
use crate::codec::{CompressedVector, CompressedVectorModel};
use crate::compressed_vector::header::{encode_header, spec_encode_header};
use crate::compressed_vector::pack::pack_indices;

verus! {

/// The residual section: a `0x00` flag, or a `0x01` flag, the residual
/// length as u32 LE and the residual bytes.
pub open spec fn residual_section(residual: Option<Seq<u8>>) -> Seq<u8> {
    match residual {
        None => seq![0u8],
        Some(r) => seq![1u8] + spec_u32_to_le_bytes(r.len() as u32) + r,
    }
}

/// The Level-1 encoding of a compressed vector: header, packed indices,
/// residual section.
pub open spec fn spec_to_bytes(m: CompressedVectorModel) -> Seq<u8> {
    spec_encode_header(encode_utf8(m.config_hash), m.dimension, m.bit_width) + spec_pack(
        m.indices,
        m.bit_width as nat,
    ) + residual_section(m.residual)
}

/// The residual, if any, has a length that fits the u32 length field.
pub open spec fn residual_len_fits(m: CompressedVectorModel) -> bool {
    match m.residual {
        Some(r) => r.len() <= u32::MAX,
        None => true,
    }
}

/// Serialize `cv` to a `Vec<u8>` in the Level-1 wire format.
///
/// Layout: 70-byte header | packed indices | `residual_flag` | [`residual_length` u32 LE | residual bytes]
pub fn to_bytes(cv: &CompressedVector) -> (r: Vec<u8>)
    ensures
        r@ == spec_to_bytes(cv@),
{
    let dimension = cv.dimension();
    let bw = cv.bit_width();
    let indices = cv.indices();
    proof {
        lemma_packed_len_bound(dimension as nat, bw as nat);
        assert(dimension as u64 * bw as u64 <= 8 * 0xffff_ffffu64) by (nonlinear_arith)
            requires
                bw <= 8,
        ;
    }
    let product: u64 = dimension as u64 * bw as u64;
    let packed_bytes = ((product + 7) / 8) as usize;
    assert(packed_bytes == packed_len(indices@.len(), bw as nat));
    let mut out: Vec<u8> = Vec::new();
    encode_header(&mut out, cv.config_hash(), dimension, bw);
    // Pack indices
    let mut packed = vec![0u8; packed_bytes];
    pack_indices(indices, bw, packed.as_mut_slice());
    append_bytes(&mut out, packed.as_slice());
    // Residual section
    match cv.residual() {
        None => out.push(0x00),
        Some(r) => {
            out.push(0x01);
            let rlen = r.len() as u32;
            let rlen_bytes = u32_to_le_bytes(rlen);
            append_bytes(&mut out, rlen_bytes.as_slice());
            append_bytes(&mut out, r);
        },
    }
    proof {
        assert(out@ =~= spec_to_bytes(cv@));
    }
    out
}

} // verus!
