//! Laws of the Level-2 corpus file format.
use vstd::prelude::*;
use vstd::bytes::{
    lemma_auto_spec_u16_to_from_le_bytes, lemma_auto_spec_u32_to_from_le_bytes,
    lemma_auto_spec_u64_to_from_le_bytes, spec_u32_to_le_bytes,
};
use vstd::utf8::{decode_utf8, encode_utf8, encode_utf8_decode_utf8, encode_utf8_valid_utf8};
use crate::bits::spec_unpack;
use crate::codec::{model_wf, supported_bit_width, CompressedVectorModel};
use crate::compressed_vector::from_bytes::{record_vector, RecordModel};
use crate::compressed_vector::laws::{
    encoded_record, hash_round_trips, lemma_encoded_record_vector, lemma_parse_to_bytes, records_of,
};
use crate::compressed_vector::to_bytes::{residual_len_fits, spec_to_bytes};
use crate::codec_file::reader::{spec_max_record_len, MAX_RECORD_LEN};
use crate::mmap::corpus_file::{spec_body, spec_next_record, spec_read_records};
use crate::codec_file::header::{
    align8, magic_final, magic_tentative, spec_decode_header, spec_encode_header, unpadded_header,
    CorpusHeaderModel, MAX_CONFIG_HASH_LEN, MAX_METADATA_LEN,
};
use crate::codec_file::writer::{spec_body_offset, spec_finalized, spec_frame, spec_frames};
use crate::errors::IoError;

verus! {

/// The header fields a writer accepts.
pub open spec fn header_fields_valid(
    hash: Seq<char>,
    dimension: u32,
    bit_width: u8,
    metadata: Seq<u8>,
) -> bool {
    &&& encode_utf8(hash).len() <= MAX_CONFIG_HASH_LEN
    &&& metadata.len() <= MAX_METADATA_LEN
    &&& supported_bit_width(bit_width)
    &&& dimension != 0
}

proof fn lemma_encoded_shape(
    hash: Seq<char>,
    dimension: u32,
    bit_width: u8,
    residual: bool,
    metadata: Seq<u8>,
    count: u64,
)
    requires
        header_fields_valid(hash, dimension, bit_width, metadata),
    ensures
        spec_encode_header(encode_utf8(hash), dimension, bit_width, residual, metadata, count) matches Ok(
            enc,
        ) && enc.len() == spec_body_offset(encode_utf8(hash).len(), metadata.len())
            && enc.subrange(0, unpadded_header(
            encode_utf8(hash),
            dimension,
            bit_width,
            residual,
            metadata,
            count,
        ).len() as int) == unpadded_header(
            encode_utf8(hash),
            dimension,
            bit_width,
            residual,
            metadata,
            count,
        ),
{
    lemma_auto_spec_u16_to_from_le_bytes();
    lemma_auto_spec_u32_to_from_le_bytes();
    lemma_auto_spec_u64_to_from_le_bytes();
    let hb = encode_utf8(hash);
    let body = unpadded_header(hb, dimension, bit_width, residual, metadata, count);
    assert(body.len() == 24 + hb.len() + 4 + metadata.len());
    let n = body.len();
    assert(align8(n) >= n) by (nonlinear_arith);
    let enc = body + Seq::new((align8(n) - n) as nat, |i: int| 0u8);
    assert(enc.subrange(0, n as int) =~= body);
}

/// A header written with valid fields and finalized with `vector_count`
/// decodes, whatever follows it, to exactly those fields, with the body
/// starting right after the padded header: the offset the writer computes.
#[verifier::rlimit(40)]
pub proof fn lemma_header_round_trip(
    hash: Seq<char>,
    dimension: u32,
    bit_width: u8,
    residual: bool,
    metadata: Seq<u8>,
    written_count: u64,
    vector_count: u64,
    rest: Seq<u8>,
)
    requires
        header_fields_valid(hash, dimension, bit_width, metadata),
    ensures
        spec_encode_header(
            encode_utf8(hash),
            dimension,
            bit_width,
            residual,
            metadata,
            written_count,
        ) matches Ok(enc) && spec_decode_header(spec_finalized(enc, vector_count) + rest) == Ok::<
            CorpusHeaderModel,
            IoError,
        >(
            CorpusHeaderModel {
                vector_count,
                dimension,
                bit_width,
                residual,
                config_hash: hash,
                metadata,
                body_offset: enc.len(),
            },
        ) && enc.len() == spec_body_offset(encode_utf8(hash).len(), metadata.len()),
{
    lemma_auto_spec_u16_to_from_le_bytes();
    lemma_auto_spec_u32_to_from_le_bytes();
    lemma_auto_spec_u64_to_from_le_bytes();
    lemma_encoded_shape(hash, dimension, bit_width, residual, metadata, written_count);
    let hb = encode_utf8(hash);
    let body = unpadded_header(hb, dimension, bit_width, residual, metadata, written_count);
    let enc = spec_encode_header(hb, dimension, bit_width, residual, metadata, written_count)->Ok_0;
    let data = spec_finalized(enc, vector_count) + rest;
    encode_utf8_valid_utf8(hash);
    encode_utf8_decode_utf8(hash);
    let hl = hb.len() as int;
    let ml = metadata.len() as int;
    assert(enc[(24 + hl) as int] == body[(24 + hl) as int]);
    assert(data.subrange(0, 4) =~= magic_final());
    assert(data[4] == 1u8);
    assert(data[5] == 0u8 && data[6] == 0u8 && data[7] == 0u8);
    assert(data.subrange(8, 16) =~= vstd::bytes::spec_u64_to_le_bytes(vector_count));
    assert(data.subrange(16, 20) =~= spec_u32_to_le_bytes(dimension));
    assert(data[20] == bit_width);
    assert(data[21] == if residual { 1u8 } else { 0u8 });
    assert(data.subrange(22, 24) =~= vstd::bytes::spec_u16_to_le_bytes(hl as u16));
    assert(data.subrange(24, 24 + hl) =~= hb);
    assert(data.subrange(24 + hl, 28 + hl) =~= spec_u32_to_le_bytes(ml as u32));
    assert(data.subrange(28 + hl, 28 + hl + ml) =~= metadata);
}

proof fn lemma_count_field(
    hash: Seq<char>,
    dimension: u32,
    bit_width: u8,
    residual: bool,
    metadata: Seq<u8>,
    vector_count: u64,
)
    requires
        header_fields_valid(hash, dimension, bit_width, metadata),
    ensures
        spec_encode_header(
            encode_utf8(hash),
            dimension,
            bit_width,
            residual,
            metadata,
            vector_count,
        ) matches Ok(enc) && enc.len() >= 24 && enc.subrange(8, 16)
            == vstd::bytes::spec_u64_to_le_bytes(vector_count),
{
    lemma_encoded_shape(hash, dimension, bit_width, residual, metadata, vector_count);
    lemma_auto_spec_u64_to_from_le_bytes();
    lemma_auto_spec_u32_to_from_le_bytes();
    lemma_auto_spec_u16_to_from_le_bytes();
    let hb = encode_utf8(hash);
    let body = unpadded_header(hb, dimension, bit_width, residual, metadata, vector_count);
    let enc = spec_encode_header(hb, dimension, bit_width, residual, metadata, vector_count)->Ok_0;
    assert(body.len() >= 24);
    assert(enc.subrange(8, 16) =~= body.subrange(8, 16));
    assert(body.subrange(8, 16) =~= vstd::bytes::spec_u64_to_le_bytes(vector_count));
}

/// A header written with valid fields and the final vector count, whose
/// magic alone is then flipped to `TQCV`, decodes, whatever follows it, to
/// exactly those fields, with the body right after the padded header.
pub proof fn lemma_magic_flip_round_trip(
    hash: Seq<char>,
    dimension: u32,
    bit_width: u8,
    residual: bool,
    metadata: Seq<u8>,
    vector_count: u64,
    rest: Seq<u8>,
)
    requires
        header_fields_valid(hash, dimension, bit_width, metadata),
    ensures
        spec_encode_header(
            encode_utf8(hash),
            dimension,
            bit_width,
            residual,
            metadata,
            vector_count,
        ) matches Ok(enc) && spec_decode_header(magic_final() + enc.subrange(4, enc.len() as int) + rest)
            == Ok::<CorpusHeaderModel, IoError>(
            CorpusHeaderModel {
                vector_count,
                dimension,
                bit_width,
                residual,
                config_hash: hash,
                metadata,
                body_offset: enc.len(),
            },
        ),
{
    lemma_header_round_trip(
        hash,
        dimension,
        bit_width,
        residual,
        metadata,
        vector_count,
        vector_count,
        rest,
    );
    lemma_count_field(hash, dimension, bit_width, residual, metadata, vector_count);
    let enc = spec_encode_header(
        encode_utf8(hash),
        dimension,
        bit_width,
        residual,
        metadata,
        vector_count,
    )->Ok_0;
    lemma_auto_spec_u64_to_from_le_bytes();
    assert(magic_final() + enc.subrange(4, enc.len() as int) =~= spec_finalized(enc, vector_count));
}

/// A header that was never finalized (magic still `TQCX`) is always
/// rejected as truncated, whatever follows it.
pub proof fn lemma_tentative_header_rejected(
    hash: Seq<char>,
    dimension: u32,
    bit_width: u8,
    residual: bool,
    metadata: Seq<u8>,
    count: u64,
    rest: Seq<u8>,
)
    requires
        header_fields_valid(hash, dimension, bit_width, metadata),
    ensures
        spec_encode_header(encode_utf8(hash), dimension, bit_width, residual, metadata, count) matches Ok(
            enc,
        ) && spec_decode_header(enc + rest) == Err::<CorpusHeaderModel, IoError>(
            IoError::Truncated {
                needed: ((enc + rest).len() + 1) as usize,
                got: (enc + rest).len() as usize,
            },
        ),
{
    lemma_encoded_shape(hash, dimension, bit_width, residual, metadata, count);
    let hb = encode_utf8(hash);
    let enc = spec_encode_header(hb, dimension, bit_width, residual, metadata, count)->Ok_0;
    let data = enc + rest;
    assert(data.subrange(0, 4) =~= magic_tentative());
    assert(magic_tentative() != magic_final()) by {
        assert(magic_tentative()[3] != magic_final()[3]);
    }
}

/// A vector a writer can append and a reader reads back: well formed, its
/// encoding fits the u32 record length, and its stored config hash is valid
/// UTF-8.
pub open spec fn record_writable(m: CompressedVectorModel) -> bool {
    &&& model_wf(m)
    &&& residual_len_fits(m)
    &&& spec_to_bytes(m).len() <= u32::MAX
    &&& encoded_record(m) is Ok
}

proof fn lemma_next_record_frame(m: CompressedVectorModel, tail: Seq<u8>)
    requires
        record_writable(m),
    ensures
        spec_next_record(spec_frame(spec_to_bytes(m)) + tail) == Ok::<
            (RecordModel, Seq<u8>),
            IoError,
        >((encoded_record(m)->Ok_0, tail)),
{
    lemma_auto_spec_u32_to_from_le_bytes();
    let p = spec_to_bytes(m);
    let data = spec_frame(p) + tail;
    assert(data.subrange(0, 4) =~= spec_u32_to_le_bytes(p.len() as u32));
    let after = data.subrange(4, data.len() as int);
    assert(after =~= p + tail);
    assert(after.subrange(0, p.len() as int) =~= p);
    assert(after.subrange(p.len() as int, after.len() as int) =~= tail);
    lemma_parse_to_bytes(m, Seq::empty());
    assert(p + Seq::<u8>::empty() =~= p);
}

/// Reading `ms.len()` records from the records written for `ms`, followed
/// by any bytes, gives back each vector's record in order.
#[verifier::spinoff_prover]
#[verifier::rlimit(40)]
pub proof fn lemma_read_written_records(ms: Seq<CompressedVectorModel>, rest: Seq<u8>)
    requires
        forall|i: int| 0 <= i < ms.len() ==> record_writable(#[trigger] ms[i]),
    ensures
        spec_read_records(spec_frames(ms) + rest, ms.len()) == records_of(ms),
    decreases ms.len(),
{
    if ms.len() == 0 {
        assert(records_of(ms) =~= Seq::<Result<RecordModel, IoError>>::empty());
    } else {
        let tail = ms.drop_first();
        assert forall|i: int| 0 <= i < tail.len() implies record_writable(#[trigger] tail[i]) by {
            assert(tail[i] == ms[i + 1]);
        }
        lemma_read_written_records(tail, rest);
        assert(record_writable(ms[0]));
        let framed = spec_frame(spec_to_bytes(ms[0]));
        assert(spec_frames(ms) + rest =~= framed + (spec_frames(tail) + rest));
        lemma_next_record_frame(ms[0], spec_frames(tail) + rest);
        assert(records_of(ms) =~= seq![encoded_record(ms[0])] + records_of(tail));
    }
}

/// A corpus file written with valid header fields, the records of `ms` and
/// finalized with their count decodes to that header, and reading its body
/// gives back the record of each vector in order, whatever follows; each
/// vector whose config hash survives the 64-byte field is read back as it
/// was written, its packed indices unpacking to the written indices.
#[verifier::rlimit(40)]
pub proof fn lemma_corpus_round_trip(
    hash: Seq<char>,
    dimension: u32,
    bit_width: u8,
    residual: bool,
    metadata: Seq<u8>,
    ms: Seq<CompressedVectorModel>,
    rest: Seq<u8>,
)
    requires
        header_fields_valid(hash, dimension, bit_width, metadata),
        ms.len() <= u64::MAX,
        forall|i: int| 0 <= i < ms.len() ==> record_writable(#[trigger] ms[i]),
    ensures
        spec_encode_header(encode_utf8(hash), dimension, bit_width, residual, metadata, 0) matches Ok(
            enc,
        ) && ({
            let data = spec_finalized(enc, ms.len() as u64) + spec_frames(ms) + rest;
            spec_decode_header(data) matches Ok(h) && h == CorpusHeaderModel {
                vector_count: ms.len() as u64,
                dimension,
                bit_width,
                residual,
                config_hash: hash,
                metadata,
                body_offset: enc.len(),
            } && spec_read_records(spec_body(data, h.body_offset as nat), h.vector_count as nat)
                == records_of(ms)
        }),
        forall|i: int|
            0 <= i < ms.len() && hash_round_trips(#[trigger] ms[i].config_hash) ==> (
            records_of(ms)[i] matches Ok(rec) && record_vector(rec) == ms[i] && spec_unpack(
                rec.packed,
                rec.dimension as nat,
                rec.bit_width as nat,
            ) == ms[i].indices),
{
    lemma_header_round_trip(
        hash,
        dimension,
        bit_width,
        residual,
        metadata,
        0,
        ms.len() as u64,
        spec_frames(ms) + rest,
    );
    let enc = spec_encode_header(encode_utf8(hash), dimension, bit_width, residual, metadata, 0)->Ok_0;
    let fin = spec_finalized(enc, ms.len() as u64);
    let data = fin + spec_frames(ms) + rest;
    assert(data =~= fin + (spec_frames(ms) + rest));
    lemma_auto_spec_u64_to_from_le_bytes();
    assert(fin.len() == enc.len());
    assert(spec_body(data, enc.len()) =~= spec_frames(ms) + rest);
    lemma_read_written_records(ms, rest);
    assert forall|i: int|
        0 <= i < ms.len() && hash_round_trips(#[trigger] ms[i].config_hash) implies (
        records_of(ms)[i] matches Ok(rec) && record_vector(rec) == ms[i] && spec_unpack(
            rec.packed,
            rec.dimension as nat,
            rec.bit_width as nat,
        ) == ms[i].indices) by {
        assert(record_writable(ms[i]));
        lemma_encoded_record_vector(ms[i]);
    }
}

/// A record written for a vector of the header's dimension and bit width,
/// with residuals only where the header announces them and at most two bytes
/// of residual per dimension, passes the streaming reader's size check as
/// long as it is within the hard cap.
pub proof fn lemma_written_record_within_limit(
    m: CompressedVectorModel,
    dimension: u32,
    bit_width: u8,
    residual: bool,
)
    requires
        model_wf(m),
        m.dimension == dimension,
        m.bit_width == bit_width,
        m.residual matches Some(r) ==> residual && r.len() <= 2 * dimension,
        spec_to_bytes(m).len() <= MAX_RECORD_LEN,
    ensures
        spec_to_bytes(m).len() <= spec_max_record_len(dimension, bit_width, residual),
{
    lemma_auto_spec_u32_to_from_le_bytes();
    assert(m.indices.len() == dimension);
}

} // verus!
