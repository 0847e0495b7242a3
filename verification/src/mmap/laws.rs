//! Laws of iterating the records of a corpus file.
use vstd::prelude::*;
use vstd::utf8::encode_utf8;
use crate::codec::CompressedVectorModel;
use crate::codec_file::header::{spec_decode_header, spec_encode_header};
use crate::codec_file::laws::{header_fields_valid, lemma_corpus_round_trip, record_writable};
use crate::codec_file::writer::{spec_finalized, spec_frames};
use crate::compressed_vector::laws::records_of;
use crate::mmap::corpus_file::{
    iter_outputs, iter_step, spec_body, spec_next_record, spec_read_records,
};

verus! {

/// `k` steps yield `k` results.
pub proof fn lemma_iter_outputs_len(s: (Seq<u8>, u64, bool), k: nat)
    ensures
        iter_outputs(s, k).len() == k,
    decreases k,
{
    if k > 0 {
        lemma_iter_outputs_len(iter_step(s).1, (k - 1) as nat);
    }
}

proof fn lemma_iter_quiet(s: (Seq<u8>, u64, bool), k: nat)
    requires
        s.2 || s.1 == 0,
    ensures
        forall|i: int| 0 <= i < k ==> (#[trigger] iter_outputs(s, k)[i]) is None,
    decreases k,
{
    if k > 0 {
        lemma_iter_outputs_len(s, (k - 1) as nat);
        lemma_iter_quiet(s, (k - 1) as nat);
        assert forall|i: int| 0 <= i < k implies (#[trigger] iter_outputs(s, k)[i]) is None by {
            if i > 0 {
                assert(iter_outputs(s, k)[i] == iter_outputs(s, (k - 1) as nat)[i - 1]);
            }
        }
    }
}

/// Once the iterator has yielded anything but a record (an error, or
/// `None`), every later call yields `None`.
pub proof fn lemma_iter_stops(s: (Seq<u8>, u64, bool), k: nat)
    ensures
        forall|i: int, j: int|
            #![trigger iter_outputs(s, k)[i], iter_outputs(s, k)[j]]
            0 <= i < j < k && !(iter_outputs(s, k)[i] matches Some(Ok(_))) ==> iter_outputs(
                s,
                k,
            )[j] is None,
    decreases k,
{
    if k > 0 {
        let next = iter_step(s).1;
        lemma_iter_outputs_len(next, (k - 1) as nat);
        lemma_iter_stops(next, (k - 1) as nat);
        if !(iter_step(s).0 matches Some(Ok(_))) {
            lemma_iter_quiet(next, (k - 1) as nat);
        }
        assert forall|i: int, j: int|
            #![trigger iter_outputs(s, k)[i], iter_outputs(s, k)[j]]
            0 <= i < j < k && !(iter_outputs(s, k)[i] matches Some(Ok(_))) implies iter_outputs(
                s,
                k,
            )[j] is None by {
            assert(iter_outputs(s, k)[j] == iter_outputs(next, (k - 1) as nat)[j - 1]);
            if i > 0 {
                assert(iter_outputs(s, k)[i] == iter_outputs(next, (k - 1) as nat)[i - 1]);
            }
        }
    }
}

/// The iterator yields at most as many items as it had records to read:
/// from call `s.1` on, every call yields `None`.
pub proof fn lemma_iter_bounded(s: (Seq<u8>, u64, bool), k: nat)
    ensures
        forall|i: int| s.1 <= i < k ==> (#[trigger] iter_outputs(s, k)[i]) is None,
    decreases k,
{
    if k > 0 {
        let next = iter_step(s).1;
        lemma_iter_outputs_len(next, (k - 1) as nat);
        if s.2 || s.1 == 0 {
            lemma_iter_quiet(s, k);
        } else {
            lemma_iter_bounded(next, (k - 1) as nat);
            if !(iter_step(s).0 matches Some(Ok(_))) {
                lemma_iter_quiet(next, (k - 1) as nat);
            }
            assert forall|i: int| s.1 <= i < k implies (#[trigger] iter_outputs(s, k)[i]) is None by {
                assert(iter_outputs(s, k)[i] == iter_outputs(next, (k - 1) as nat)[i - 1]);
            }
        }
    }
}

/// An iterator over `body` with `count` records to read yields, call by
/// call, the results of [`spec_read_records`] and then `None` forever.
pub proof fn lemma_iter_outputs_records(body: Seq<u8>, count: u64, k: nat)
    ensures
        forall|i: int|
            0 <= i < k ==> #[trigger] iter_outputs((body, count, false), k)[i] == if i
                < spec_read_records(body, count as nat).len() {
                Some(spec_read_records(body, count as nat)[i])
            } else {
                None
            },
    decreases k,
{
    if k > 0 {
        let s = (body, count, false);
        let next = iter_step(s).1;
        lemma_iter_outputs_len(next, (k - 1) as nat);
        let recs = spec_read_records(body, count as nat);
        if count == 0 {
            lemma_iter_quiet(s, k);
        } else {
            match spec_next_record(body) {
                Ok((rec, rest)) => {
                    lemma_iter_outputs_records(rest, (count - 1) as u64, (k - 1) as nat);
                },
                Err(e) => {
                    lemma_iter_quiet(next, (k - 1) as nat);
                },
            }
            assert forall|i: int| 0 <= i < k implies #[trigger] iter_outputs(s, k)[i] == if i
                < recs.len() {
                Some(recs[i])
            } else {
                None
            } by {
                if i > 0 {
                    assert(iter_outputs(s, k)[i] == iter_outputs(next, (k - 1) as nat)[i - 1]);
                }
            }
        }
    }
}

/// Iterating a corpus file written with valid header fields and the
/// records of `ms`, from its decoded header, yields the record of each
/// vector in order, call by call, and then `None` forever.
pub proof fn lemma_corpus_iteration(
    hash: Seq<char>,
    dimension: u32,
    bit_width: u8,
    residual: bool,
    metadata: Seq<u8>,
    ms: Seq<CompressedVectorModel>,
    rest: Seq<u8>,
    k: nat,
)
    requires
        header_fields_valid(hash, dimension, bit_width, metadata),
        ms.len() <= u64::MAX,
        forall|i: int| 0 <= i < ms.len() ==> record_writable(#[trigger] ms[i]),
    ensures
        spec_encode_header(encode_utf8(hash), dimension, bit_width, residual, metadata, 0) matches Ok(
            enc,
        ) && ({
            let data = spec_finalized(enc, ms.len() as u64) + spec_frames(ms) + rest;
            spec_decode_header(data) matches Ok(h) && forall|i: int|
                0 <= i < k ==> #[trigger] iter_outputs(
                    (spec_body(data, h.body_offset as nat), h.vector_count, false),
                    k,
                )[i] == if i < ms.len() {
                    Some(records_of(ms)[i])
                } else {
                    None
                }
        }),
{
    lemma_corpus_round_trip(hash, dimension, bit_width, residual, metadata, ms, rest);
    let enc = spec_encode_header(encode_utf8(hash), dimension, bit_width, residual, metadata, 0)->Ok_0;
    let data = spec_finalized(enc, ms.len() as u64) + spec_frames(ms) + rest;
    let h = spec_decode_header(data)->Ok_0;
    lemma_iter_outputs_records(spec_body(data, h.body_offset as nat), h.vector_count, k);
}

} // verus!
