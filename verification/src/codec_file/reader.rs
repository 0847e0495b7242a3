//! Level-2 TQCV corpus file streaming reader (non-mmap).
//!
//! The reader's decisions live here; the reads and seeks on the underlying
//! stream are made by the caller, in this order:
//!
//! 1. read the 24-byte fixed header and pass it to [`config_hash_len_from_fixed`];
//! 2. read `config_hash_len + 4` bytes and pass them to [`header_remaining_len`];
//! 3. read that many bytes, decode with [`decode_streamed_header`], seek to
//!    `body_offset` and build the reader with [`CodecFileReader::from_parts`];
//! 4. for each record, ask [`CodecFileReader::next_record_limit`], read the
//!    4-byte length and check it with [`check_record_len`], read the payload
//!    and hand it to [`CodecFileReader::accept_record`].
use vstd::prelude::*;
use vstd::bytes::{spec_u16_from_le_bytes, spec_u32_from_le_bytes, u16_from_le_bytes, u32_from_le_bytes};
use crate::bits::packed_len;
use crate::byte_util::append_bytes;
use crate::codec::CompressedVector;
use crate::codec::CompressedVectorModel;
use crate::codec_file::header::{
    align8, decode_header, spec_decode_header, CorpusFileHeader, CorpusHeaderModel,
    FIXED_HEADER_SIZE, MAX_CONFIG_HASH_LEN, MAX_METADATA_LEN,
};
use crate::compressed_vector::from_bytes::{from_bytes, spec_from_bytes};
use crate::compressed_vector::header::HEADER_SIZE;
use crate::errors::IoError;

verus! {

/// Hard cap on a single Level-1 record size (defense in depth): 4 MiB.
pub const MAX_RECORD_LEN: usize = 4194304;

/// The largest legal Level-1 record for a header: header, packed indices,
/// flag, and, when the header has residuals, a length field and two bytes
/// per dimension; capped at [`MAX_RECORD_LEN`].
pub open spec fn spec_max_record_len(dimension: u32, bit_width: u8, residual: bool) -> nat {
    let full = 70 + packed_len(dimension as nat, bit_width as nat) + 1 + (if residual {
        4 + 2 * dimension
    } else {
        0
    });
    if full < MAX_RECORD_LEN {
        full as nat
    } else {
        MAX_RECORD_LEN as nat
    }
}

/// Compute the maximum legal Level-1 record size from validated header fields.
///
/// Derived from dimension, `bit_width`, and residual flag so a crafted corpus
/// cannot trigger a record-sized allocation before `from_bytes` validates the
/// payload.  `MAX_RECORD_LEN` is applied as a hard cap regardless.
pub fn max_record_len_for_header(header: &CorpusFileHeader) -> (r: usize)
    ensures
        r == spec_max_record_len(header.dimension, header.bit_width, header.residual),
{
    let dim = header.dimension as usize;
    let bw = header.bit_width as usize;
    // packed indices: ceil(dim * bw / 8)
    let prod = match dim.checked_mul(bw) {
        Some(p) => p,
        None => usize::MAX,
    };
    let packed = prod.saturating_add(7) / 8;
    // optional residual: 4-byte length prefix + 2 bytes/element (fp16)
    let residual = if header.residual {
        let twice = match dim.checked_mul(2) {
            Some(p) => p,
            None => usize::MAX,
        };
        4usize.saturating_add(twice)
    } else {
        0
    };
    let total = HEADER_SIZE.saturating_add(packed).saturating_add(1).saturating_add(residual);
    proof {
        let d = dim as int;
        let b = bw as int;
        assert(0 <= d * b) by (nonlinear_arith)
            requires
                0 <= d,
                0 <= b,
        ;
        if d * b > usize::MAX {
            assert(packed >= (usize::MAX as int) / 8);
            assert(packed_len(dim as nat, bw as nat) >= (usize::MAX as int) / 8);
        }
    }
    if total < MAX_RECORD_LEN {
        total
    } else {
        MAX_RECORD_LEN
    }
}

/// The config hash length a fixed header announces, rejected when it is
/// longer than [`MAX_CONFIG_HASH_LEN`].
pub fn config_hash_len_from_fixed(fixed: &[u8]) -> (r: Result<usize, IoError>)
    requires
        fixed@.len() == FIXED_HEADER_SIZE,
    ensures
        spec_u16_from_le_bytes(fixed@.subrange(22, 24)) > MAX_CONFIG_HASH_LEN ==> r == Err::<
            usize,
            IoError,
        >(IoError::InvalidHeader),
        spec_u16_from_le_bytes(fixed@.subrange(22, 24)) <= MAX_CONFIG_HASH_LEN ==> r == Ok::<
            usize,
            IoError,
        >(spec_u16_from_le_bytes(fixed@.subrange(22, 24)) as usize),
{
    let config_hash_len = u16_from_le_bytes(vstd::slice::slice_subrange(fixed, 22, 24)) as usize;
    if config_hash_len > MAX_CONFIG_HASH_LEN {
        return Err(IoError::InvalidHeader);
    }
    Ok(config_hash_len)
}

/// The number of header bytes (metadata and padding) that follow the config
/// hash and the metadata length, rejected when the metadata length exceeds
/// [`MAX_METADATA_LEN`].
pub fn header_remaining_len(config_hash_len: usize, var_prefix: &[u8]) -> (r: Result<usize, IoError>)
    requires
        config_hash_len <= MAX_CONFIG_HASH_LEN,
        var_prefix@.len() == config_hash_len + 4,
    ensures
        ({
            let metadata_len = spec_u32_from_le_bytes(
                var_prefix@.subrange(config_hash_len as int, config_hash_len + 4),
            );
            &&& metadata_len > MAX_METADATA_LEN ==> r == Err::<usize, IoError>(
                IoError::InvalidHeader,
            )
            &&& metadata_len <= MAX_METADATA_LEN ==> r == Ok::<usize, IoError>(
                (align8((FIXED_HEADER_SIZE + config_hash_len + 4 + metadata_len) as nat) - (
                FIXED_HEADER_SIZE + config_hash_len + 4)) as usize,
            )
        }),
{
    let metadata_len = u32_from_le_bytes(
        vstd::slice::slice_subrange(var_prefix, config_hash_len, config_hash_len + 4),
    ) as usize;
    if metadata_len > MAX_METADATA_LEN {
        return Err(IoError::InvalidHeader);
    }
    let header_end = FIXED_HEADER_SIZE + config_hash_len + 4 + metadata_len;
    let body_offset = ((header_end + 7) / 8) * 8;
    Ok(body_offset - (FIXED_HEADER_SIZE + config_hash_len + 4))
}

/// Reassemble a header read in three parts and decode it.
pub fn decode_streamed_header(fixed: &[u8], var_prefix: &[u8], rest: &[u8]) -> (r: Result<
    CorpusFileHeader,
    IoError,
>)
    requires
        fixed@.len() + var_prefix@.len() + rest@.len() <= isize::MAX,
    ensures
        match r {
            Ok(h) => spec_decode_header(fixed@ + var_prefix@ + rest@) == Ok::<
                CorpusHeaderModel,
                IoError,
            >(h@),
            Err(e) => spec_decode_header(fixed@ + var_prefix@ + rest@) == Err::<
                CorpusHeaderModel,
                IoError,
            >(e),
        },
{
    let mut full: Vec<u8> = Vec::new();
    append_bytes(&mut full, fixed);
    append_bytes(&mut full, var_prefix);
    append_bytes(&mut full, rest);
    decode_header(full.as_slice())
}

/// Check a record length prefix against the largest legal record size.
pub fn check_record_len(len_bytes: &[u8], max_record_len: usize) -> (r: Result<usize, IoError>)
    requires
        len_bytes@.len() == 4,
    ensures
        spec_u32_from_le_bytes(len_bytes@) > max_record_len ==> r == Err::<usize, IoError>(
            IoError::InvalidHeader,
        ),
        spec_u32_from_le_bytes(len_bytes@) <= max_record_len ==> r == Ok::<usize, IoError>(
            spec_u32_from_le_bytes(len_bytes@) as usize,
        ),
{
    let record_len = u32_from_le_bytes(len_bytes) as usize;
    if record_len > max_record_len {
        return Err(IoError::InvalidHeader);
    }
    Ok(record_len)
}

/// What reading up to `count` records from a stream positioned at `body`
/// yields, record by record, with `limit` the largest legal record: each
/// record's 4-byte length is checked against `limit`, then its payload is
/// decoded. `Err(None)` stands for the stream ending before a length or
/// payload is complete (the stream's own error); `Err(Some(e))` for the
/// reader's errors. Reading stops after the first error.
pub open spec fn spec_stream_records(body: Seq<u8>, count: nat, limit: nat) -> Seq<
    Result<CompressedVectorModel, Option<IoError>>,
>
    decreases count,
{
    if count == 0 {
        Seq::empty()
    } else if body.len() < 4 {
        seq![Err(None)]
    } else {
        let len = spec_u32_from_le_bytes(body.subrange(0, 4)) as nat;
        if len > limit {
            seq![Err(Some(IoError::InvalidHeader))]
        } else if body.len() < 4 + len {
            seq![Err(None)]
        } else {
            match spec_from_bytes(body.subrange(4, 4 + len as int)) {
                Ok(m) => seq![Ok(m)] + spec_stream_records(
                    body.subrange(4 + len as int, body.len() as int),
                    (count - 1) as nat,
                    limit,
                ),
                Err(e) => seq![Err(Some(e))],
            }
        }
    }
}

/// A reader's header and count after one call of
/// [`CodecFileReader::accept_record`]: the count goes up by one when the
/// payload decoded, and nothing changes otherwise.
pub open spec fn accept_step(v: (CorpusHeaderModel, u64), decoded: bool) -> (CorpusHeaderModel, u64) {
    if decoded {
        (v.0, (v.1 + 1) as u64)
    } else {
        v
    }
}

/// A reader's header and count after calls of
/// [`CodecFileReader::accept_record`] with the given outcomes, in order
/// (`true` for a decoded payload).
pub open spec fn reader_after(v: (CorpusHeaderModel, u64), outcomes: Seq<bool>) -> (
    CorpusHeaderModel,
    u64,
)
    decreases outcomes.len(),
{
    if outcomes.len() == 0 {
        v
    } else {
        accept_step(reader_after(v, outcomes.drop_last()), outcomes.last())
    }
}

/// The number of decoded payloads among `outcomes`.
pub open spec fn count_decoded(outcomes: Seq<bool>) -> nat
    decreases outcomes.len(),
{
    if outcomes.len() == 0 {
        0
    } else {
        count_decoded(outcomes.drop_last()) + if outcomes.last() {
            1nat
        } else {
            0nat
        }
    }
}

/// Streaming reader for a Level-2 TQCV corpus file.
///
/// Reads records sequentially without memory-mapping the file.
pub struct CodecFileReader<R> {
    inner: R,
    header: CorpusFileHeader,
    records_read: u64,
}

impl<R> View for CodecFileReader<R> {
    /// The decoded header and the number of records read so far.
    type V = (CorpusHeaderModel, u64);

    closed spec fn view(&self) -> (CorpusHeaderModel, u64) {
        (self.header@, self.records_read)
    }
}

impl<R> CodecFileReader<R> {
    /// The stream the reader reads from.
    pub closed spec fn stream(&self) -> R {
        self.inner
    }

    /// A reader over `inner`, positioned at the body of a file whose
    /// header is `header`, with no record read yet.
    pub fn from_parts(inner: R, header: CorpusFileHeader) -> (r: Self)
        ensures
            r@ == (header@, 0u64),
            r.stream() == inner,
    {
        CodecFileReader { inner, header, records_read: 0 }
    }

    /// Return a reference to the decoded Level-2 header.
    pub fn header(&self) -> (r: &CorpusFileHeader)
        ensures
            r@ == self@.0,
    {
        &self.header
    }

    /// Number of records read so far: the number of payloads
    /// [`accept_record`](Self::accept_record) decoded since
    /// [`from_parts`](Self::from_parts), which starts it at 0; neither can
    /// take it past the header's `vector_count`.
    pub fn records_read(&self) -> (r: u64)
        ensures
            r == self@.1,
    {
        self.records_read
    }

    /// The underlying stream, borrowed mutably: it is the reader's stream,
    /// and whatever is done through the borrow is the reader's stream
    /// afterwards; header and count are unchanged.
    pub fn inner_mut(&mut self) -> (r: &mut R)
        ensures
            *r == old(self).stream(),
            final(self).stream() == *final(r),
            final(self)@ == old(self)@,
    {
        &mut self.inner
    }

    /// `None` when all `vector_count` records have been read; otherwise the
    /// largest legal size of the next record.
    pub fn next_record_limit(&self) -> (r: Option<usize>)
        ensures
            self@.1 >= self@.0.vector_count ==> r is None,
            self@.1 < self@.0.vector_count ==> r == Some(
                spec_max_record_len(self@.0.dimension, self@.0.bit_width, self@.0.residual) as usize,
            ),
    {
        if self.records_read >= self.header.vector_count {
            return None;
        }
        Some(max_record_len_for_header(&self.header))
    }

    /// Decode the payload of the next record; the count of records read
    /// advances only when it decodes.
    pub fn accept_record(&mut self, payload: &[u8]) -> (r: Result<CompressedVector, IoError>)
        requires
            old(self)@.1 < old(self)@.0.vector_count,
        ensures
            match r {
                Ok(cv) => spec_from_bytes(payload@) == Ok::<CompressedVectorModel, IoError>(cv@)
                    && final(self)@ == (old(self)@.0, (old(self)@.1 + 1) as u64)
                    && final(self)@.1 <= final(self)@.0.vector_count,
                Err(e) => spec_from_bytes(payload@) == Err::<CompressedVectorModel, IoError>(e)
                    && final(self)@ == old(self)@,
            },
            final(self)@ == accept_step(old(self)@, r is Ok),
            final(self).stream() == old(self).stream(),
    {
        let cv = match from_bytes(payload) {
            Ok(cv) => cv,
            Err(e) => {
                return Err(e);
            },
        };
        self.records_read = self.records_read + 1;
        Ok(cv)
    }
}

} // verus!
