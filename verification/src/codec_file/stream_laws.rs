//! Laws of the streaming reader: the header read in three parts, and the
//! records read one by one from a written file.
use vstd::prelude::*;
use vstd::bytes::{lemma_auto_spec_u32_to_from_le_bytes, spec_u16_from_le_bytes, spec_u32_from_le_bytes};
use crate::codec::CompressedVectorModel;
use crate::codec_file::header::{
    align8, magic_tentative, spec_decode_fixed_header, spec_decode_header,
    spec_decode_variable_prefix, MAX_CONFIG_HASH_LEN, MAX_METADATA_LEN,
};
use crate::codec_file::laws::{lemma_written_record_within_limit, record_writable};
use crate::codec_file::header::CorpusHeaderModel;
use crate::codec_file::reader::{
    count_decoded, reader_after, spec_max_record_len, spec_stream_records, MAX_RECORD_LEN,
};
use crate::codec_file::writer::{spec_frame, spec_frames};
use crate::compressed_vector::laws::{hash_round_trips, lemma_from_bytes_to_bytes};
use crate::compressed_vector::to_bytes::spec_to_bytes;
use crate::errors::IoError;

verus! {

/// The header bytes the streaming reader reads from the front of a stream
/// `s`: the fixed header, the config hash and metadata length, then the
/// metadata and padding up to the body offset these announce.
pub open spec fn streamed_header_bytes(s: Seq<u8>) -> Seq<u8> {
    let chl = spec_u16_from_le_bytes(s.subrange(22, 24)) as nat;
    let ml = spec_u32_from_le_bytes(s.subrange(24 + chl as int, 28 + chl as int)) as nat;
    let bo = align8(28 + chl + ml);
    s.subrange(0, 24) + s.subrange(24, 28 + chl as int) + s.subrange(28 + chl as int, bo as int)
}

/// When the streaming reader gets through its length checks (config hash at
/// most 256 bytes, metadata at most 16 MiB, the stream long enough for the
/// whole padded header), the header it decodes from the three parts it
/// read is the header of the whole stream, unless the magic is the
/// tentative `TQCX`, which both reject.
pub proof fn lemma_streamed_header(s: Seq<u8>)
    requires
        s.len() >= 24,
        spec_u16_from_le_bytes(s.subrange(22, 24)) <= MAX_CONFIG_HASH_LEN,
        s.len() >= 28 + spec_u16_from_le_bytes(s.subrange(22, 24)),
        spec_u32_from_le_bytes(
            s.subrange(
                24 + spec_u16_from_le_bytes(s.subrange(22, 24)) as int,
                28 + spec_u16_from_le_bytes(s.subrange(22, 24)) as int,
            ),
        ) <= MAX_METADATA_LEN,
        s.len() >= align8(
            (28 + spec_u16_from_le_bytes(s.subrange(22, 24)) + spec_u32_from_le_bytes(
                s.subrange(
                    24 + spec_u16_from_le_bytes(s.subrange(22, 24)) as int,
                    28 + spec_u16_from_le_bytes(s.subrange(22, 24)) as int,
                ),
            )) as nat,
        ),
        s.subrange(0, 4) != magic_tentative(),
    ensures
        spec_decode_header(streamed_header_bytes(s)) == spec_decode_header(s),
{
    let chl = spec_u16_from_le_bytes(s.subrange(22, 24)) as nat;
    let ml = spec_u32_from_le_bytes(s.subrange(24 + chl as int, 28 + chl as int)) as nat;
    let n = 28 + chl + ml;
    let bo = align8(n);
    assert(bo >= n) by (nonlinear_arith)
        requires
            bo == ((n + 7) / 8) * 8,
    ;
    let p = streamed_header_bytes(s);
    assert(p =~= s.subrange(0, bo as int));
    assert(p.subrange(0, 4) =~= s.subrange(0, 4));
    assert(p.subrange(8, 16) =~= s.subrange(8, 16));
    assert(p.subrange(16, 20) =~= s.subrange(16, 20));
    assert(p.subrange(22, 24) =~= s.subrange(22, 24));
    assert(spec_decode_fixed_header(p) == spec_decode_fixed_header(s));
    assert(p.subrange(24, 24 + chl as int) =~= s.subrange(24, 24 + chl as int));
    assert(p.subrange(24 + chl as int, 28 + chl as int) =~= s.subrange(
        24 + chl as int,
        28 + chl as int,
    ));
    assert(p.subrange(28 + chl as int, n as int) =~= s.subrange(28 + chl as int, n as int));
    assert(spec_decode_variable_prefix(p, 24, chl) == spec_decode_variable_prefix(s, 24, chl));
}

/// The vector may be appended to a file whose header announces
/// `dimension`, `bit_width` and `residual`, and is read back whole: its
/// record is writable, within the reader's hard cap, of the header's
/// dimension and bit width, with a residual only where the header announces
/// one and of at most two bytes per dimension, and its config hash survives
/// the 64-byte field.
pub open spec fn streamable(m: CompressedVectorModel, dimension: u32, bit_width: u8, residual: bool) -> bool {
    &&& record_writable(m)
    &&& spec_to_bytes(m).len() <= MAX_RECORD_LEN
    &&& m.dimension == dimension
    &&& m.bit_width == bit_width
    &&& (m.residual matches Some(r) ==> residual && r.len() <= 2 * dimension)
    &&& hash_round_trips(m.config_hash)
}

/// Reading the records of a file written with `ms` through the streaming
/// reader, with the record limit of its header, gives back every vector in
/// order, whatever follows the records.
pub proof fn lemma_stream_reads_written(
    ms: Seq<CompressedVectorModel>,
    rest: Seq<u8>,
    dimension: u32,
    bit_width: u8,
    residual: bool,
)
    requires
        forall|i: int| 0 <= i < ms.len() ==> streamable(#[trigger] ms[i], dimension, bit_width, residual),
    ensures
        spec_stream_records(
            spec_frames(ms) + rest,
            ms.len(),
            spec_max_record_len(dimension, bit_width, residual),
        ) == Seq::new(ms.len(), |i: int| Ok::<CompressedVectorModel, Option<IoError>>(ms[i])),
    decreases ms.len(),
{
    let limit = spec_max_record_len(dimension, bit_width, residual);
    if ms.len() == 0 {
        assert(Seq::new(ms.len(), |i: int| Ok::<CompressedVectorModel, Option<IoError>>(ms[i]))
            =~= Seq::<Result<CompressedVectorModel, Option<IoError>>>::empty());
    } else {
        let tail = ms.drop_first();
        assert forall|i: int| 0 <= i < tail.len() implies streamable(
            #[trigger] tail[i],
            dimension,
            bit_width,
            residual,
        ) by {
            assert(tail[i] == ms[i + 1]);
        }
        lemma_stream_reads_written(tail, rest, dimension, bit_width, residual);
        let m = ms[0];
        assert(streamable(m, dimension, bit_width, residual));
        lemma_auto_spec_u32_to_from_le_bytes();
        let p = spec_to_bytes(m);
        let after = spec_frames(tail) + rest;
        let data = spec_frames(ms) + rest;
        assert(data =~= spec_frame(p) + after);
        assert(data.subrange(0, 4) =~= vstd::bytes::spec_u32_to_le_bytes(p.len() as u32));
        lemma_written_record_within_limit(m, dimension, bit_width, residual);
        assert(data.subrange(4, 4 + p.len() as int) =~= p);
        assert(data.subrange(4 + p.len() as int, data.len() as int) =~= after);
        lemma_from_bytes_to_bytes(m);
        assert(Seq::new(ms.len(), |i: int| Ok::<CompressedVectorModel, Option<IoError>>(ms[i]))
            =~= seq![Ok::<CompressedVectorModel, Option<IoError>>(m)] + Seq::new(
            tail.len(),
            |i: int| Ok::<CompressedVectorModel, Option<IoError>>(tail[i]),
        ));
    }
}

/// From a fresh reader (count 0), after any calls of `accept_record`, each
/// made while records remain to be read, the count of records read is the
/// number of calls that decoded their payload, and never exceeds the
/// header's `vector_count`; calls that fail leave it as it was.
pub proof fn lemma_records_read_counts(h: CorpusHeaderModel, outcomes: Seq<bool>)
    requires
        forall|j: int|
            0 <= j < outcomes.len() ==> count_decoded(#[trigger] outcomes.take(j)) < h.vector_count,
    ensures
        reader_after((h, 0u64), outcomes) == (h, count_decoded(outcomes) as u64),
        count_decoded(outcomes) <= h.vector_count,
    decreases outcomes.len(),
{
    if outcomes.len() > 0 {
        let prev = outcomes.drop_last();
        assert forall|j: int| 0 <= j < prev.len() implies count_decoded(#[trigger] prev.take(j))
            < h.vector_count by {
            assert(prev.take(j) =~= outcomes.take(j));
        }
        lemma_records_read_counts(h, prev);
        let last = (outcomes.len() - 1) as int;
        assert(outcomes.take(last) =~= prev);
        assert(count_decoded(outcomes.take(last)) < h.vector_count);
    }
}

} // verus!
