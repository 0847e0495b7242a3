//! Streaming cursor over a Level-1 record byte slice (non-mmap).
use vstd::prelude::*;
use crate::compressed_vector::from_bytes::{spec_parse_record, RecordModel};
use crate::compressed_vector::laws::lemma_record_end;
use crate::errors::IoError;
use crate::zero_copy::view::{view_consistent, view_shows, CompressedVectorView};

verus! {

/// What a cursor over `data` yields, in order: one result per record until
/// the bytes are exhausted, stopping after the first error.
pub open spec fn spec_cursor_records(data: Seq<u8>) -> Seq<Result<RecordModel, IoError>>
    decreases data.len(),
{
    if data.len() == 0 {
        Seq::empty()
    } else {
        match spec_parse_record(data) {
            Ok(rec) => {
                proof {
                    lemma_record_end(data);
                }
                seq![Ok(rec)] + spec_cursor_records(data.subrange(rec.end as int, data.len() as int))
            },
            Err(e) => seq![Err(e)],
        }
    }
}

/// One step of a cursor in state `s` (unread bytes, errored): what it
/// yields and its next state. An errored or exhausted cursor yields `None`
/// and stays as it is; otherwise it yields the record at the front and
/// moves past it, or the parse error and stops.
pub open spec fn cursor_step(s: (Seq<u8>, bool)) -> (Option<Result<RecordModel, IoError>>, (
    Seq<u8>,
    bool,
)) {
    if s.1 || s.0.len() == 0 {
        (None, s)
    } else {
        match spec_parse_record(s.0) {
            Ok(rec) => (Some(Ok(rec)), (s.0.subrange(rec.end as int, s.0.len() as int), false)),
            Err(e) => (Some(Err(e)), (s.0, true)),
        }
    }
}

/// What `k` successive steps of a cursor in state `s` yield.
pub open spec fn cursor_outputs(s: (Seq<u8>, bool), k: nat) -> Seq<Option<Result<RecordModel, IoError>>>
    decreases k,
{
    if k == 0 {
        Seq::empty()
    } else {
        seq![cursor_step(s).0] + cursor_outputs(cursor_step(s).1, (k - 1) as nat)
    }
}

/// Iterates Level-1 records from a borrowed byte slice.
///
/// Iteration stops on the first error or when the slice is exhausted.
pub struct SliceCursor<'a> {
    remaining: &'a [u8],
    errored: bool,
}

impl<'a> View for SliceCursor<'a> {
    /// The bytes not yet consumed, and whether an error has been reported.
    type V = (Seq<u8>, bool);

    closed spec fn view(&self) -> (Seq<u8>, bool) {
        (self.remaining@, self.errored)
    }
}

impl<'a> SliceCursor<'a> {
    /// Create a new cursor over `data`.
    pub fn new(data: &'a [u8]) -> (r: Self)
        ensures
            r@ == (data@, false),
    {
        SliceCursor { remaining: data, errored: false }
    }

    /// The next record: `None` once the slice is exhausted or after an
    /// error; otherwise the parsed record, after which the cursor moves past
    /// it, or the parse error, after which the cursor stops.
    pub fn next(&mut self) -> (r: Option<Result<CompressedVectorView<'a>, IoError>>)
        ensures
            final(self)@ == cursor_step(old(self)@).1,
            match cursor_step(old(self)@).0 {
                None => r is None,
                Some(Ok(rec)) => r matches Some(Ok(v)) && view_shows(v, rec) && view_consistent(v),
                Some(Err(e)) => r matches Some(Err(err)) && err == e,
            },
    {
        if self.errored || self.remaining.len() == 0 {
            return None;
        }
        match CompressedVectorView::parse(self.remaining) {
            Ok((view, tail)) => {
                self.remaining = tail;
                Some(Ok(view))
            },
            Err(e) => {
                self.errored = true;
                Some(Err(e))
            },
        }
    }
}

} // verus!
