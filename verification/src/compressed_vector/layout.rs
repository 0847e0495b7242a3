//! The byte layout of a Level-1 record, stated position by position: what
//! each byte of an encoding holds, and which bytes a decoded record was
//! read from.
use vstd::prelude::*;
use vstd::bytes::{lemma_auto_spec_u32_to_from_le_bytes, spec_u32_from_le_bytes, spec_u32_to_le_bytes};
use vstd::utf8::{decode_utf8, decode_utf8_encode_utf8, encode_utf8, valid_utf8};
use crate::bits::{
    lemma_block_below, lemma_in_block, lemma_packed_byte_bit, lemma_packed_len_bound,
    lemma_unpacked_index_bit, spec_pack, spec_unpack,
};
use crate::codec::{model_wf, CompressedVectorModel};
use crate::compressed_vector::from_bytes::{spec_parse_record, RecordModel};
use crate::compressed_vector::header::trim_zeros;
use crate::compressed_vector::to_bytes::spec_to_bytes;
use crate::errors::{CodecError, IoError};

verus! {

proof fn lemma_trim_zeros_shape(s: Seq<u8>)
    ensures
        trim_zeros(s).len() <= s.len(),
        trim_zeros(s) == s.subrange(0, trim_zeros(s).len() as int),
        forall|j: int| trim_zeros(s).len() <= j < s.len() ==> s[j] == 0,
        trim_zeros(s).len() == 0 || trim_zeros(s).last() != 0,
    decreases s.len(),
{
    if s.len() > 0 && s.last() == 0 {
        lemma_trim_zeros_shape(s.drop_last());
        let t = trim_zeros(s.drop_last());
        assert(s.drop_last().subrange(0, t.len() as int) =~= s.subrange(0, t.len() as int));
        assert forall|j: int| t.len() <= j < s.len() implies s[j] == 0 by {
            if j < s.len() - 1 {
                assert(s.drop_last()[j] == s[j]);
            }
        }
    } else {
        assert(s.subrange(0, s.len() as int) =~= s);
    }
}

/// What each byte of the encoding of a well-formed vector holds, with
/// `fo = 70 + ceil(dimension * bit_width / 8)` the position of the residual
/// flag:
/// - byte 0 is the format version `0x01`;
/// - bytes 1..65 are the first (at most 64) bytes of the config hash's UTF-8
///   encoding, then NULs;
/// - bytes 65..69 are the dimension as `u32` little-endian, byte 69 the bit
///   width, bytes 70..fo the packed indices;
/// - byte `fo` is `0x00` when there is no residual, and the encoding ends
///   right after it; it is `0x01` when there is one, followed by the residual
///   length as `u32` little-endian and the residual bytes, which end the
///   encoding.
pub proof fn lemma_record_layout(m: CompressedVectorModel)
    requires
        model_wf(m),
    ensures
        spec_to_bytes(m)[0] == 1u8,
        ({
            let hb = encode_utf8(m.config_hash);
            let k = if hb.len() < 64 {
                hb.len() as int
            } else {
                64
            };
            &&& spec_to_bytes(m).subrange(1, 1 + k) == hb.subrange(0, k)
            &&& forall|j: int| 1 + k <= j < 65 ==> spec_to_bytes(m)[j] == 0u8
        }),
        spec_to_bytes(m).subrange(65, 69) == spec_u32_to_le_bytes(m.dimension),
        spec_to_bytes(m)[69] == m.bit_width,
        spec_to_bytes(m).subrange(70, 70 + (m.dimension * m.bit_width + 7) / 8) == spec_pack(
            m.indices,
            m.bit_width as nat,
        ),
        m.residual is None ==> spec_to_bytes(m)[70 + (m.dimension * m.bit_width + 7) / 8] == 0u8
            && spec_to_bytes(m).len() == 70 + (m.dimension * m.bit_width + 7) / 8 + 1,
        m.residual matches Some(r) ==> ({
            let fo = 70 + (m.dimension * m.bit_width + 7) / 8;
            &&& spec_to_bytes(m)[fo] == 1u8
            &&& spec_to_bytes(m).subrange(fo + 1, fo + 5) == spec_u32_to_le_bytes(r.len() as u32)
            &&& spec_to_bytes(m).subrange(fo + 5, fo + 5 + r.len()) == r
            &&& spec_to_bytes(m).len() == fo + 5 + r.len()
        }),
{
    lemma_auto_spec_u32_to_from_le_bytes();
    let b = spec_to_bytes(m);
    let hb = encode_utf8(m.config_hash);
    let k = if hb.len() < 64 {
        hb.len() as int
    } else {
        64
    };
    let fo = 70 + (m.dimension * m.bit_width + 7) / 8;
    assert(b.subrange(1, 1 + k) =~= hb.subrange(0, k));
    assert(b.subrange(65, 69) =~= spec_u32_to_le_bytes(m.dimension));
    assert(b.subrange(70, fo) =~= spec_pack(m.indices, m.bit_width as nat));
    match m.residual {
        None => {},
        Some(r) => {
            assert(b.subrange(fo + 1, fo + 5) =~= spec_u32_to_le_bytes(r.len() as u32));
            assert(b.subrange(fo + 5, fo + 5 + r.len()) =~= r);
        },
    }
}

/// Which bytes a decoded record was read from, with `fo = 70 +
/// ceil(dimension * bit_width / 8)`:
/// - byte 0 is the version `0x01`; bytes 65..69 hold the dimension as `u32`
///   little-endian, byte 69 the bit width (2, 4 or 8), bytes 70..fo the
///   packed indices;
/// - bytes 1..65 hold the UTF-8 encoding of the config hash, with no NUL at
///   its end, followed by NULs;
/// - the flag byte `fo` is `0x00` for no residual, the record ending right
///   after it, or `0x01` for a residual whose `u32` little-endian length
///   follows, then the residual, which ends the record.
pub proof fn lemma_parsed_record_layout(data: Seq<u8>)
    ensures
        spec_parse_record(data) matches Ok(rec) ==> ({
            let fo = 70 + (rec.dimension * rec.bit_width + 7) / 8;
            let hb = encode_utf8(rec.config_hash);
            &&& data.len() > fo
            &&& data[0] == 1u8 && rec.version == 1u8
            &&& rec.dimension == spec_u32_from_le_bytes(data.subrange(65, 69))
            &&& rec.bit_width == data[69]
            &&& (rec.bit_width == 2 || rec.bit_width == 4 || rec.bit_width == 8)
            &&& rec.packed == data.subrange(70, fo)
            &&& hb.len() <= 64 && data.subrange(1, 1 + hb.len() as int) == hb
            &&& (hb.len() == 0 || hb.last() != 0u8)
            &&& forall|j: int| 1 + hb.len() <= j < 65 ==> data[j] == 0u8
            &&& (data[fo] == 0u8 && rec.residual is None && rec.end == fo + 1) || ({
                let len = spec_u32_from_le_bytes(data.subrange(fo + 1, fo + 5));
                &&& data[fo] == 1u8
                &&& data.len() >= fo + 5 + len
                &&& rec.residual == Some(data.subrange(fo + 5, fo + 5 + len))
                &&& rec.end == fo + 5 + len
            })
        }),
{
    if let Ok(rec) = spec_parse_record(data) {
        let field = data.subrange(1, 65);
        lemma_trim_zeros_shape(field);
        let t = trim_zeros(field);
        decode_utf8_encode_utf8(t);
        assert(data.subrange(1, 1 + t.len() as int) =~= t);
        let hb = encode_utf8(rec.config_hash);
        assert(hb == t);
        assert forall|j: int| 1 + hb.len() <= j < 65 implies data[j] == 0u8 by {
            assert(field[j - 1] == data[j]);
        }
        let fo = 70 + (rec.dimension * rec.bit_width + 7) / 8;
        assert(rec.packed == data.subrange(70, fo));
        assert(data.len() > fo);
    }
}

/// A record whose header is sound but whose flag byte is neither `0x00` nor
/// `0x01` is refused with that byte.
pub proof fn lemma_bad_residual_flag(data: Seq<u8>)
    requires
        data.len() >= 70,
        data[0] == 1u8,
        data[69] == 2 || data[69] == 4 || data[69] == 8,
        valid_utf8(trim_zeros(data.subrange(1, 65))),
        data.len() > 70 + (spec_u32_from_le_bytes(data.subrange(65, 69)) * data[69] + 7) / 8,
        data[70 + (spec_u32_from_le_bytes(data.subrange(65, 69)) * data[69] + 7) / 8] != 0u8,
        data[70 + (spec_u32_from_le_bytes(data.subrange(65, 69)) * data[69] + 7) / 8] != 1u8,
    ensures
        spec_parse_record(data) == Err::<RecordModel, IoError>(
            IoError::Decode(
                CodecError::InvalidResidualFlag {
                    got: data[70 + (spec_u32_from_le_bytes(data.subrange(65, 69)) * data[69] + 7)
                        / 8],
                },
            ),
        ),
{
}

/// Packing is least-significant-bit first: bit `t` of index `i` (for
/// `t < bw`) is bit `(i * bw + t) % 8` of packed byte `(i * bw + t) / 8`,
/// and the bits after the last index are zero.
pub proof fn lemma_pack_bit_layout(indices: Seq<u8>, bw: nat)
    requires
        1 <= bw <= 8,
    ensures
        spec_pack(indices, bw).len() == (indices.len() * bw + 7) / 8,
        forall|i: int, t: int|
            #![trigger (indices[i] >> (t as u8))]
            0 <= i < indices.len() && 0 <= t < bw ==> ((spec_pack(indices, bw)[(i * bw + t) / 8] >> (
            ((i * bw + t) % 8) as u8)) & 1u8 == 1u8) == ((indices[i] >> (t as u8)) & 1u8 == 1u8),
        forall|j: int, s: int|
            #![trigger (spec_pack(indices, bw)[j] >> (s as u8))]
            0 <= j < spec_pack(indices, bw).len() && 0 <= s < 8 && 8 * j + s >= indices.len() * bw
                ==> (spec_pack(indices, bw)[j] >> (s as u8)) & 1u8 == 0u8,
{
    let n = indices.len();
    let p = spec_pack(indices, bw);
    lemma_packed_len_bound(n, bw);
    assert forall|i: int, t: int|
        #![trigger (indices[i] >> (t as u8))]
        0 <= i < n && 0 <= t < bw implies ((p[(i * bw + t) / 8] >> (((i * bw + t) % 8) as u8))
        & 1u8 == 1u8) == ((indices[i] >> (t as u8)) & 1u8 == 1u8) by {
        let k = i * bw + t;
        lemma_block_below(i, n as int, bw as int);
        lemma_in_block(k, i, bw as int);
        let j = k / 8;
        assert(0 <= j < p.len());
        lemma_packed_byte_bit(indices, bw, j, k % 8);
        assert(8 * j + k % 8 == k);
    }
    assert forall|j: int, s: int|
        #![trigger (p[j] >> (s as u8))]
        0 <= j < p.len() && 0 <= s < 8 && 8 * j + s >= n * bw implies (p[j] >> (s as u8)) & 1u8
        == 0u8 by {
        lemma_packed_byte_bit(indices, bw, j, s);
        let b = p[j];
        let sh = s as u8;
        assert((b >> sh) & 1u8 == 1u8 || (b >> sh) & 1u8 == 0u8) by (bit_vector);
    }
}

/// Unpacking reads index `i` from the bits `i * bw .. i * bw + bw` of the
/// stream, least significant first: bit `t` of index `i` is bit
/// `(i * bw + t) % 8` of byte `(i * bw + t) / 8` for `t < bw` (zero past the
/// end of the bytes), and zero for `t >= bw`.
pub proof fn lemma_unpack_bit_layout(packed: Seq<u8>, dim: nat, bw: nat)
    requires
        1 <= bw <= 8,
    ensures
        spec_unpack(packed, dim, bw).len() == dim,
        forall|i: int, t: int|
            #![trigger (spec_unpack(packed, dim, bw)[i] >> (t as u8))]
            0 <= i < dim && 0 <= t < 8 ==> ((spec_unpack(packed, dim, bw)[i] >> (t as u8)) & 1u8
                == 1u8) == (t < bw && i * bw + t < 8 * packed.len() && (packed[(i * bw + t) / 8] >> (
            ((i * bw + t) % 8) as u8)) & 1u8 == 1u8),
{
    let u = spec_unpack(packed, dim, bw);
    assert forall|i: int, t: int|
        #![trigger (u[i] >> (t as u8))]
        0 <= i < dim && 0 <= t < 8 implies ((u[i] >> (t as u8)) & 1u8 == 1u8) == (t < bw && i * bw
        + t < 8 * packed.len() && (packed[(i * bw + t) / 8] >> (((i * bw + t) % 8) as u8)) & 1u8
        == 1u8) by {
        lemma_unpacked_index_bit(packed, bw, i, t);
        assert(0 <= i * bw) by (nonlinear_arith)
            requires
                0 <= i,
                bw >= 1,
        ;
    }
}

/// Why a Level-1 record is refused, in the order the checks run: fewer than
/// 70 bytes; a config hash field that is not UTF-8 once its trailing NULs
/// are dropped; a version byte other than `0x01`; a bit width other than 2,
/// 4 or 8; no room for the flag byte; a residual length field cut short;
/// residual bytes cut short. Each truncation reports the length it needed.
pub proof fn lemma_record_rejections(data: Seq<u8>)
    ensures
        data.len() < 70 ==> spec_parse_record(data) == Err::<RecordModel, IoError>(
            IoError::Truncated { needed: 70, got: data.len() as usize },
        ),
        data.len() >= 70 && !valid_utf8(trim_zeros(data.subrange(1, 65))) ==> spec_parse_record(data)
            == Err::<RecordModel, IoError>(IoError::InvalidUtf8),
        data.len() >= 70 && valid_utf8(trim_zeros(data.subrange(1, 65))) && data[0] != 1u8
            ==> spec_parse_record(data) == Err::<RecordModel, IoError>(
            IoError::UnknownVersion { got: data[0] },
        ),
        data.len() >= 70 && valid_utf8(trim_zeros(data.subrange(1, 65))) && data[0] == 1u8 && !(
        data[69] == 2 || data[69] == 4 || data[69] == 8) ==> spec_parse_record(data) == Err::<
            RecordModel,
            IoError,
        >(IoError::InvalidBitWidth { got: data[69] }),
        ({
            let fo = 70 + (spec_u32_from_le_bytes(data.subrange(65, 69)) * data[69] + 7) / 8;
            data.len() >= 70 && valid_utf8(trim_zeros(data.subrange(1, 65))) && data[0] == 1u8 && (
            data[69] == 2 || data[69] == 4 || data[69] == 8) ==> {
                &&& data.len() < fo + 1 ==> spec_parse_record(data) == Err::<RecordModel, IoError>(
                    IoError::Truncated { needed: (fo + 1) as usize, got: data.len() as usize },
                )
                &&& data.len() >= fo + 1 && data[fo] == 1u8 && data.len() < fo + 5
                    ==> spec_parse_record(data) == Err::<RecordModel, IoError>(
                    IoError::Truncated { needed: (fo + 5) as usize, got: data.len() as usize },
                )
                &&& data.len() >= fo + 5 && data[fo] == 1u8 && data.len() < fo + 5
                    + spec_u32_from_le_bytes(data.subrange(fo + 1, fo + 5)) ==> spec_parse_record(
                    data,
                ) == Err::<RecordModel, IoError>(
                    IoError::Truncated {
                        needed: (fo + 5 + spec_u32_from_le_bytes(data.subrange(fo + 1, fo + 5)))
                            as usize,
                        got: data.len() as usize,
                    },
                )
            }
        }),
{
}

} // verus!
