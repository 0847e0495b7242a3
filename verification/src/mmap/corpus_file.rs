//! Record iteration over the bytes of a Level-2 TQCV corpus file.
use vstd::prelude::*;
use vstd::bytes::{spec_u32_from_le_bytes, u32_from_le_bytes};
use crate::codec_file::header::CorpusFileHeader;
use crate::compressed_vector::from_bytes::{spec_parse_record, RecordModel};
use crate::errors::IoError;
use crate::zero_copy::view::{view_consistent, view_shows, CompressedVectorView};

verus! {

/// The body of a file: the bytes from `body_offset` on, or nothing when the
/// offset lies past the end.
pub open spec fn spec_body(data: Seq<u8>, body_offset: nat) -> Seq<u8> {
    if body_offset <= data.len() {
        data.subrange(body_offset as int, data.len() as int)
    } else {
        Seq::empty()
    }
}

/// What reading one length-prefixed record from the front of `data` yields:
/// the record and the bytes after it.
pub open spec fn spec_next_record(data: Seq<u8>) -> Result<(RecordModel, Seq<u8>), IoError> {
    if data.len() < 4 {
        Err(IoError::Truncated { needed: 4, got: data.len() as usize })
    } else {
        let record_len = spec_u32_from_le_bytes(data.subrange(0, 4)) as nat;
        let after = data.subrange(4, data.len() as int);
        if record_len > after.len() {
            Err(IoError::Truncated { needed: record_len as usize, got: after.len() as usize })
        } else {
            match spec_parse_record(after.subrange(0, record_len as int)) {
                Ok(rec) => Ok((rec, after.subrange(record_len as int, after.len() as int))),
                Err(e) => Err(e),
            }
        }
    }
}

/// The results of reading up to `count` records from `body`, stopping after
/// the first error.
pub open spec fn spec_read_records(body: Seq<u8>, count: nat) -> Seq<Result<RecordModel, IoError>>
    decreases count,
{
    if count == 0 {
        Seq::empty()
    } else {
        match spec_next_record(body) {
            Ok((rec, rest)) => seq![Ok(rec)] + spec_read_records(rest, (count - 1) as nat),
            Err(e) => seq![Err(e)],
        }
    }
}

/// One step of a record iterator in state `s` (unread body, records still
/// to read, errored): what it yields and its next state. An errored or
/// finished iterator yields `None` and stays as it is; otherwise it yields
/// the next length-prefixed record and moves past it, or the error and
/// stops.
pub open spec fn iter_step(s: (Seq<u8>, u64, bool)) -> (Option<Result<RecordModel, IoError>>, (
    Seq<u8>,
    u64,
    bool,
)) {
    if s.2 || s.1 == 0 {
        (None, s)
    } else {
        match spec_next_record(s.0) {
            Ok((rec, rest)) => (Some(Ok(rec)), (rest, (s.1 - 1) as u64, false)),
            Err(e) => (Some(Err(e)), (s.0, s.1, true)),
        }
    }
}

/// What `k` successive steps of a record iterator in state `s` yield.
pub open spec fn iter_outputs(s: (Seq<u8>, u64, bool), k: nat) -> Seq<
    Option<Result<RecordModel, IoError>>,
>
    decreases k,
{
    if k == 0 {
        Seq::empty()
    } else {
        seq![iter_step(s).0] + iter_outputs(iter_step(s).1, (k - 1) as nat)
    }
}

/// Iterator over Level-2 TQCV records, yielding zero-copy views.
pub struct CorpusFileIter<'a> {
    remaining: &'a [u8],
    count: u64,
    errored: bool,
}

impl<'a> View for CorpusFileIter<'a> {
    /// The unread body bytes, the records still to read, and whether an
    /// error has been reported.
    type V = (Seq<u8>, u64, bool);

    closed spec fn view(&self) -> (Seq<u8>, u64, bool) {
        (self.remaining@, self.count, self.errored)
    }
}

/// Read the 4-byte record length prefix from the front of `data`.
/// Returns `(record_len, tail_after_length)` or an error.
fn read_record_len(data: &[u8]) -> (r: Result<(usize, &[u8]), IoError>)
    ensures
        match r {
            Ok((record_len, tail)) => data@.len() >= 4 && record_len == spec_u32_from_le_bytes(
                data@.subrange(0, 4),
            ) && tail@ == data@.subrange(4, data@.len() as int),
            Err(e) => data@.len() < 4 && e == IoError::Truncated {
                needed: 4,
                got: data@.len() as usize,
            },
        },
{
    if data.len() < 4 {
        return Err(IoError::Truncated { needed: 4, got: data.len() });
    }
    let record_len = u32_from_le_bytes(vstd::slice::slice_subrange(data, 0, 4)) as usize;
    let tail = vstd::slice::slice_subrange(data, 4, data.len());
    Ok((record_len, tail))
}

impl<'a> CorpusFileIter<'a> {
    /// An iterator over the records of a file whose bytes are `data` and
    /// whose decoded header is `header`: it starts at `body_offset` and
    /// yields at most `vector_count` records.
    pub fn over_file(data: &'a [u8], header: &CorpusFileHeader) -> (r: Self)
        ensures
            r@ == (spec_body(data@, header.body_offset as nat), header.vector_count, false),
    {
        let body: &'a [u8] = if header.body_offset <= data.len() {
            vstd::slice::slice_subrange(data, header.body_offset, data.len())
        } else {
            let empty: &'a [u8] = &[];
            proof {
                assert(empty@ =~= Seq::<u8>::empty());
            }
            empty
        };
        CorpusFileIter { remaining: body, count: header.vector_count, errored: false }
    }

    /// The next record: `None` after `vector_count` records or after an
    /// error; otherwise the record read from the length-prefixed payload,
    /// after which the iterator moves past it, or the error, after which the
    /// iterator stops.
    pub fn next(&mut self) -> (r: Option<Result<CompressedVectorView<'a>, IoError>>)
        ensures
            final(self)@ == iter_step(old(self)@).1,
            match iter_step(old(self)@).0 {
                None => r is None,
                Some(Ok(rec)) => r matches Some(Ok(v)) && view_shows(v, rec) && view_consistent(v),
                Some(Err(e)) => r matches Some(Err(err)) && err == e,
            },
    {
        if self.errored || self.count == 0 {
            return None;
        }
        let (record_len, after_len) = match read_record_len(self.remaining) {
            Ok(v) => v,
            Err(e) => {
                self.errored = true;
                return Some(Err(e));
            },
        };
        if record_len > after_len.len() {
            self.errored = true;
            return Some(Err(IoError::Truncated { needed: record_len, got: after_len.len() }));
        }
        let payload = vstd::slice::slice_subrange(after_len, 0, record_len);
        match CompressedVectorView::parse(payload) {
            Ok((view, _tail)) => {
                self.remaining = vstd::slice::slice_subrange(after_len, record_len, after_len.len());
                self.count = self.count - 1;
                Some(Ok(view))
            },
            Err(e) => {
                self.errored = true;
                Some(Err(e))
            },
        }
    }
}

} // verus!
