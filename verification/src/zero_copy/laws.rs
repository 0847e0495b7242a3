//! Laws of reading consecutive Level-1 records with a cursor.
use vstd::prelude::*;
use crate::codec::{model_wf, CompressedVectorModel};
use crate::compressed_vector::from_bytes::{spec_parse_record, RecordModel};
use crate::compressed_vector::laws::{
    encoded_record, lemma_parse_to_bytes, lemma_record_end, lemma_to_bytes_len, records_of,
};
use crate::compressed_vector::to_bytes::{residual_len_fits, spec_to_bytes};
use crate::errors::IoError;
use crate::zero_copy::cursor::{cursor_outputs, cursor_step, spec_cursor_records};

verus! {

/// The Level-1 encodings of `ms`, one after the other.
pub open spec fn spec_encode_all(ms: Seq<CompressedVectorModel>) -> Seq<u8>
    decreases ms.len(),
{
    if ms.len() == 0 {
        Seq::empty()
    } else {
        spec_to_bytes(ms[0]) + spec_encode_all(ms.drop_first())
    }
}

/// A cursor over the encodings of well-formed vectors, one after the other,
/// yields the record of each vector in order and then stops.
pub proof fn lemma_cursor_reads_encodings(ms: Seq<CompressedVectorModel>)
    requires
        forall|i: int|
            0 <= i < ms.len() ==> model_wf(#[trigger] ms[i]) && residual_len_fits(ms[i])
                && encoded_record(ms[i]) is Ok,
    ensures
        spec_cursor_records(spec_encode_all(ms)) == records_of(ms),
    decreases ms.len(),
{
    if ms.len() == 0 {
        assert(records_of(ms) =~= Seq::<Result<RecordModel, IoError>>::empty());
    } else {
        let tail = ms.drop_first();
        assert forall|i: int| 0 <= i < tail.len() implies model_wf(#[trigger] tail[i])
            && residual_len_fits(tail[i]) && encoded_record(tail[i]) is Ok by {
            assert(tail[i] == ms[i + 1]);
        }
        lemma_cursor_reads_encodings(tail);
        let m = ms[0];
        assert(model_wf(m) && residual_len_fits(m) && encoded_record(m) is Ok);
        let rest = spec_encode_all(tail);
        let data = spec_encode_all(ms);
        assert(data == spec_to_bytes(m) + rest);
        lemma_parse_to_bytes(m, rest);
        lemma_to_bytes_len(m);
        let n = spec_to_bytes(m).len();
        assert(data.subrange(n as int, data.len() as int) =~= rest);
        assert(records_of(ms) =~= seq![encoded_record(m)] + records_of(tail));
    }
}

/// `k` steps yield `k` results.
pub proof fn lemma_cursor_outputs_len(s: (Seq<u8>, bool), k: nat)
    ensures
        cursor_outputs(s, k).len() == k,
    decreases k,
{
    if k > 0 {
        lemma_cursor_outputs_len(cursor_step(s).1, (k - 1) as nat);
    }
}

proof fn lemma_cursor_quiet(s: (Seq<u8>, bool), k: nat)
    requires
        s.1 || s.0.len() == 0,
    ensures
        forall|i: int| 0 <= i < k ==> (#[trigger] cursor_outputs(s, k)[i]) is None,
    decreases k,
{
    if k > 0 {
        lemma_cursor_outputs_len(s, (k - 1) as nat);
        lemma_cursor_quiet(s, (k - 1) as nat);
        assert(cursor_step(s) == (None::<Result<RecordModel, IoError>>, s));
        assert forall|i: int| 0 <= i < k implies (#[trigger] cursor_outputs(s, k)[i]) is None by {
            if i > 0 {
                assert(cursor_outputs(s, k)[i] == cursor_outputs(s, (k - 1) as nat)[i - 1]);
            }
        }
    }
}

/// Once a cursor has yielded anything but a record (an error, or `None`
/// for exhausted bytes), every later call yields `None`.
pub proof fn lemma_cursor_stops(s: (Seq<u8>, bool), k: nat)
    ensures
        forall|i: int, j: int|
            #![trigger cursor_outputs(s, k)[i], cursor_outputs(s, k)[j]]
            0 <= i < j < k && !(cursor_outputs(s, k)[i] matches Some(Ok(_))) ==> cursor_outputs(
                s,
                k,
            )[j] is None,
    decreases k,
{
    if k > 0 {
        let next = cursor_step(s).1;
        lemma_cursor_outputs_len(next, (k - 1) as nat);
        lemma_cursor_stops(next, (k - 1) as nat);
        if !(cursor_step(s).0 matches Some(Ok(_))) {
            lemma_cursor_quiet(next, (k - 1) as nat);
        }
        assert forall|i: int, j: int|
            #![trigger cursor_outputs(s, k)[i], cursor_outputs(s, k)[j]]
            0 <= i < j < k && !(cursor_outputs(s, k)[i] matches Some(Ok(_))) implies cursor_outputs(
                s,
                k,
            )[j] is None by {
            assert(cursor_outputs(s, k)[j] == cursor_outputs(next, (k - 1) as nat)[j - 1]);
            if i > 0 {
                assert(cursor_outputs(s, k)[i] == cursor_outputs(next, (k - 1) as nat)[i - 1]);
            }
        }
    }
}

/// A cursor over `data` yields, call by call, the results of
/// [`spec_cursor_records`] and then `None` forever.
pub proof fn lemma_cursor_outputs_records(data: Seq<u8>, k: nat)
    ensures
        forall|i: int|
            0 <= i < k ==> #[trigger] cursor_outputs((data, false), k)[i] == if i < spec_cursor_records(
                data,
            ).len() {
                Some(spec_cursor_records(data)[i])
            } else {
                None
            },
    decreases k,
{
    if k > 0 {
        let s = (data, false);
        let next = cursor_step(s).1;
        lemma_cursor_outputs_len(next, (k - 1) as nat);
        let recs = spec_cursor_records(data);
        if data.len() == 0 {
            lemma_cursor_quiet(s, k);
        } else {
            match spec_parse_record(data) {
                Ok(rec) => {
                    lemma_record_end(data);
                    let rest = data.subrange(rec.end as int, data.len() as int);
                    lemma_cursor_outputs_records(rest, (k - 1) as nat);
                    assert forall|i: int| 0 <= i < k implies #[trigger] cursor_outputs(s, k)[i] == if i
                        < recs.len() {
                        Some(recs[i])
                    } else {
                        None
                    } by {
                        if i > 0 {
                            assert(cursor_outputs(s, k)[i] == cursor_outputs(next, (k - 1) as nat)[i
                                - 1]);
                        }
                    }
                },
                Err(e) => {
                    lemma_cursor_quiet(next, (k - 1) as nat);
                    assert forall|i: int| 0 <= i < k implies #[trigger] cursor_outputs(s, k)[i] == if i
                        < recs.len() {
                        Some(recs[i])
                    } else {
                        None
                    } by {
                        if i > 0 {
                            assert(cursor_outputs(s, k)[i] == cursor_outputs(next, (k - 1) as nat)[i
                                - 1]);
                        }
                    }
                },
            }
        }
    }
}

/// A cursor over the encodings of well-formed vectors, one after the other,
/// yields the record of each vector in order, call by call, and then `None`
/// forever.
pub proof fn lemma_cursor_yields_encodings(ms: Seq<CompressedVectorModel>, k: nat)
    requires
        forall|i: int|
            0 <= i < ms.len() ==> model_wf(#[trigger] ms[i]) && residual_len_fits(ms[i])
                && encoded_record(ms[i]) is Ok,
    ensures
        forall|i: int|
            0 <= i < k ==> #[trigger] cursor_outputs((spec_encode_all(ms), false), k)[i] == if i
                < ms.len() {
                Some(encoded_record(ms[i]))
            } else {
                None
            },
{
    lemma_cursor_reads_encodings(ms);
    lemma_cursor_outputs_records(spec_encode_all(ms), k);
}

} // verus!
