//! Round-trip laws of the Level-1 wire format.
use vstd::prelude::*;
use vstd::bytes::{lemma_auto_spec_u32_to_from_le_bytes, spec_u32_to_le_bytes};
use vstd::utf8::{decode_utf8, encode_utf8, encode_utf8_decode_utf8, valid_utf8};
use crate::bits::{lemma_packed_len_bound, lemma_unpack_pack_roundtrip, packed_len, spec_pack};
use crate::codec::{model_wf, CompressedVectorModel};
use crate::compressed_vector::from_bytes::{
    flag_offset, record_vector, spec_from_bytes, spec_parse_record, RecordModel,
};
use crate::compressed_vector::header::{hash_field, spec_encode_header, trim_zeros};
use crate::compressed_vector::to_bytes::{residual_len_fits, residual_section, spec_to_bytes};
use crate::errors::IoError;

verus! {

/// The hash bytes a record stores for `hash`: its UTF-8 encoding cut to 64
/// bytes, with trailing NULs removed.
pub open spec fn stored_hash(hash: Seq<char>) -> Seq<u8> {
    trim_zeros(hash_field(encode_utf8(hash)))
}

/// The config hash survives the 64-byte field unchanged when its encoding
/// fits in 64 bytes and does not end in a NUL byte.
pub open spec fn hash_round_trips(hash: Seq<char>) -> bool {
    let b = encode_utf8(hash);
    b.len() <= 64 && (b.len() == 0 || b.last() != 0)
}

/// What parsing the encoding of `m` yields.
pub open spec fn encoded_record(m: CompressedVectorModel) -> Result<RecordModel, IoError> {
    let h = stored_hash(m.config_hash);
    if !valid_utf8(h) {
        Err(IoError::InvalidUtf8)
    } else {
        Ok(
            RecordModel {
                version: 1,
                config_hash: decode_utf8(h),
                dimension: m.dimension,
                bit_width: m.bit_width,
                packed: spec_pack(m.indices, m.bit_width as nat),
                residual: m.residual,
                end: spec_to_bytes(m).len(),
            },
        )
    }
}

/// What reading back the records written for `ms` yields.
pub open spec fn records_of(ms: Seq<CompressedVectorModel>) -> Seq<Result<RecordModel, IoError>> {
    Seq::new(ms.len(), |i: int| encoded_record(ms[i]))
}

/// A record's end lies past its header and flag byte and within the bytes
/// it was read from.
pub proof fn lemma_record_end(data: Seq<u8>)
    ensures
        spec_parse_record(data) matches Ok(rec) ==> 70 < rec.end <= data.len(),
{
}

proof fn lemma_trim_padding(x: Seq<u8>, k: nat)
    ensures
        trim_zeros(x + Seq::new(k, |i: int| 0u8)) == trim_zeros(x),
    decreases k,
{
    if k > 0 {
        let s = x + Seq::new(k, |i: int| 0u8);
        assert(s.drop_last() =~= x + Seq::new((k - 1) as nat, |i: int| 0u8));
        lemma_trim_padding(x, (k - 1) as nat);
    } else {
        assert(x + Seq::new(k, |i: int| 0u8) =~= x);
    }
}

/// The first 64 bytes (at most) of the UTF-8 encoding of `hash`.
pub open spec fn hash_prefix(hash: Seq<char>) -> Seq<u8> {
    let b = encode_utf8(hash);
    b.subrange(0, if b.len() < 64 { b.len() as int } else { 64 })
}

/// A hash whose first 64 bytes (at most) are valid UTF-8 and do not end in
/// NUL is stored as exactly those bytes: a longer hash is cut to 64 bytes,
/// and it reads back as their characters.
pub proof fn lemma_stored_hash_prefix(hash: Seq<char>)
    requires
        valid_utf8(hash_prefix(hash)),
        hash_prefix(hash).len() == 0 || hash_prefix(hash).last() != 0,
    ensures
        stored_hash(hash) == hash_prefix(hash),
        valid_utf8(stored_hash(hash)),
{
    let b = encode_utf8(hash);
    let p = hash_prefix(hash);
    lemma_trim_padding(p, (64 - p.len()) as nat);
    assert(hash_field(b) =~= p + Seq::new((64 - p.len()) as nat, |i: int| 0u8));
}

/// A hash that fits and does not end in NUL is stored unchanged.
pub proof fn lemma_stored_hash_exact(hash: Seq<char>)
    requires
        hash_round_trips(hash),
    ensures
        stored_hash(hash) == encode_utf8(hash),
        valid_utf8(stored_hash(hash)),
        decode_utf8(stored_hash(hash)) == hash,
{
    let b = encode_utf8(hash);
    lemma_trim_padding(b, (64 - b.len()) as nat);
    assert(b.subrange(0, b.len() as int) =~= b);
    vstd::utf8::encode_utf8_valid_utf8(hash);
    encode_utf8_decode_utf8(hash);
}

/// Parsing the encoding of a well-formed vector, followed by any bytes,
/// reads back its fields and stops exactly at the end of the encoding.
pub proof fn lemma_parse_to_bytes(m: CompressedVectorModel, rest: Seq<u8>)
    requires
        model_wf(m),
        residual_len_fits(m),
    ensures
        spec_parse_record(spec_to_bytes(m) + rest) == encoded_record(m),
{
    lemma_auto_spec_u32_to_from_le_bytes();
    let b = encode_utf8(m.config_hash);
    let header = spec_encode_header(b, m.dimension, m.bit_width);
    let packed = spec_pack(m.indices, m.bit_width as nat);
    let res = residual_section(m.residual);
    let data = spec_to_bytes(m) + rest;
    lemma_packed_len_bound(m.indices.len(), m.bit_width as nat);
    assert(header.len() == 70);
    assert(data.subrange(1, 65) =~= hash_field(b));
    assert(data.subrange(65, 69) =~= spec_u32_to_le_bytes(m.dimension));
    assert(data[0] == 1u8);
    assert(data[69] == m.bit_width);
    let fo = flag_offset(m.dimension, m.bit_width);
    assert(fo == 70 + packed.len());
    assert(data.subrange(70, fo as int) =~= packed);
    assert(data[fo as int] == res[0]);
    match m.residual {
        None => {},
        Some(r) => {
            assert(data.subrange(fo + 1 as int, fo + 5 as int) =~= spec_u32_to_le_bytes(r.len() as u32));
            assert(data.subrange(fo + 5 as int, (fo + 5 + r.len()) as int) =~= r);
        },
    }
}

/// Decoding the encoding of a well-formed vector gives it back, with the
/// config hash as the 64-byte field stores it; when the hash fits and does
/// not end in NUL the vector comes back unchanged.
pub proof fn lemma_from_bytes_to_bytes(m: CompressedVectorModel)
    requires
        model_wf(m),
        residual_len_fits(m),
    ensures
        spec_from_bytes(spec_to_bytes(m)) == (if valid_utf8(stored_hash(m.config_hash)) {
            Ok::<CompressedVectorModel, IoError>(
                CompressedVectorModel { config_hash: decode_utf8(stored_hash(m.config_hash)), ..m },
            )
        } else {
            Err::<CompressedVectorModel, IoError>(IoError::InvalidUtf8)
        }),
        hash_round_trips(m.config_hash) ==> spec_from_bytes(spec_to_bytes(m)) == Ok::<
            CompressedVectorModel,
            IoError,
        >(m),
{
    let data = spec_to_bytes(m);
    lemma_parse_to_bytes(m, Seq::empty());
    assert(data + Seq::<u8>::empty() =~= data);
    lemma_unpack_pack_roundtrip(m.indices, m.bit_width as nat);
    if hash_round_trips(m.config_hash) {
        lemma_stored_hash_exact(m.config_hash);
    }
}

/// The zero-copy record and the owned decode agree: `from_bytes` succeeds
/// exactly when the record parses, and then yields the unpacked indices of
/// the record's packed bytes together with its other fields.
pub proof fn lemma_from_bytes_is_unpacked_record(data: Seq<u8>)
    ensures
        spec_from_bytes(data) is Ok <==> spec_parse_record(data) is Ok,
        spec_parse_record(data) matches Ok(r) ==> spec_from_bytes(data) == Ok::<
            CompressedVectorModel,
            IoError,
        >(record_vector(r)),
        spec_parse_record(data) matches Err(e) ==> spec_from_bytes(data) == Err::<
            CompressedVectorModel,
            IoError,
        >(e),
{
}

/// The encoding of a well-formed vector is 70 header bytes, the packed
/// indices (`ceil(dimension * bit_width / 8)` bytes), the residual flag and,
/// with a residual, its 4-byte length and the residual bytes.
pub proof fn lemma_to_bytes_len(m: CompressedVectorModel)
    requires
        model_wf(m),
    ensures
        spec_to_bytes(m).len() == 70 + packed_len(m.dimension as nat, m.bit_width as nat) + 1
            + match m.residual {
            Some(r) => 4 + r.len(),
            None => 0,
        },
{
    lemma_auto_spec_u32_to_from_le_bytes();
    let b = encode_utf8(m.config_hash);
    assert(spec_encode_header(b, m.dimension, m.bit_width).len() == 70);
}

/// The record written for a well-formed vector whose config hash survives
/// the 64-byte field holds that very vector.
pub proof fn lemma_encoded_record_vector(m: CompressedVectorModel)
    requires
        model_wf(m),
        hash_round_trips(m.config_hash),
    ensures
        encoded_record(m) matches Ok(rec) && record_vector(rec) == m,
{
    lemma_stored_hash_exact(m.config_hash);
    lemma_unpack_pack_roundtrip(m.indices, m.bit_width as nat);
}

} // verus!
