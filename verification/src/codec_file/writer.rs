//! Level-2 TQCV corpus file writing: record framing, body offset and the
//! finalizing header edit.
//!
//! Protocol:
//!
//! 1. create — write the TQCX header (tentative) from [`encode_header`](crate::codec_file::header::encode_header).
//! 2. append — write one record (4-byte length prefix + Level-1 payload), see [`encode_record`].
//! 3. finalize — back-patch `vector_count` and flip magic to TQCV, see [`finalize_header`].
use vstd::prelude::*;
use vstd::bytes::{spec_u32_to_le_bytes, spec_u64_to_le_bytes, u32_to_le_bytes, u64_to_le_bytes};
use vstd::string::StringSliceAdditionalSpecFns;
use crate::byte_util::append_bytes;
use crate::codec::{CompressedVector, CompressedVectorModel};
use crate::codec_file::header::{
    align8, magic_final, FIXED_HEADER_SIZE, MAGIC_FINAL, MAX_CONFIG_HASH_LEN, MAX_METADATA_LEN,
};
use crate::compressed_vector::to_bytes::{spec_to_bytes, to_bytes};
use crate::errors::IoError;

verus! {

/// A length-prefixed record: the payload length as u32 LE, then the payload.
pub open spec fn spec_frame(payload: Seq<u8>) -> Seq<u8> {
    spec_u32_to_le_bytes(payload.len() as u32) + payload
}

/// The body a writer appends for `ms`, in order: one framed Level-1
/// record per vector.
pub open spec fn spec_frames(ms: Seq<CompressedVectorModel>) -> Seq<u8>
    decreases ms.len(),
{
    if ms.len() == 0 {
        Seq::empty()
    } else {
        spec_frame(spec_to_bytes(ms[0])) + spec_frames(ms.drop_first())
    }
}

/// The header after finalizing: magic `TQCV` and the final vector count.
pub open spec fn spec_finalized(header: Seq<u8>, vector_count: u64) -> Seq<u8> {
    magic_final() + header.subrange(4, 8) + spec_u64_to_le_bytes(vector_count) + header.subrange(
        16,
        header.len() as int,
    )
}

/// The body offset for a header with `hash_len` config hash bytes and
/// `metadata_len` metadata bytes.
pub open spec fn spec_body_offset(hash_len: nat, metadata_len: nat) -> nat {
    align8((FIXED_HEADER_SIZE + hash_len + 4 + metadata_len) as nat)
}

/// Serialize one [`CompressedVector`] as a length-prefixed Level-1 record,
/// the bytes that appending it writes.
pub fn encode_record(cv: &CompressedVector) -> (r: Vec<u8>)
    ensures
        r@ == spec_frame(spec_to_bytes(cv@)),
{
    let payload = to_bytes(cv);
    let record_len = payload.len() as u32;
    let mut out: Vec<u8> = Vec::new();
    append_bytes(&mut out, u32_to_le_bytes(record_len).as_slice());
    append_bytes(&mut out, payload.as_slice());
    out
}

/// Finalize a header in place: back-patch `vector_count` at offset 8 and
/// flip the magic to `TQCV`.
pub fn finalize_header(header: &mut [u8], vector_count: u64)
    requires
        old(header)@.len() >= FIXED_HEADER_SIZE,
    ensures
        final(header)@ == spec_finalized(old(header)@, vector_count),
{
    let count = u64_to_le_bytes(vector_count);
    let mut i: usize = 0;
    while i < 8
        invariant
            count@ == spec_u64_to_le_bytes(vector_count),
            count@.len() == 8,
            header@.len() == old(header)@.len(),
            header@.len() >= 24,
            0 <= i <= 8,
            forall|q: int| 0 <= q < header@.len() ==> header@[q] == if 8 <= q < 8 + i {
                count@[q - 8]
            } else {
                old(header)@[q]
            },
        decreases 8 - i,
    {
        header[8 + i] = count[i];
        i = i + 1;
    }
    let mut j: usize = 0;
    while j < 4
        invariant
            count@ == spec_u64_to_le_bytes(vector_count),
            count@.len() == 8,
            header@.len() == old(header)@.len(),
            header@.len() >= 24,
            0 <= j <= 4,
            forall|q: int| 0 <= q < header@.len() ==> header@[q] == if q < j {
                MAGIC_FINAL@[q]
            } else if 8 <= q < 16 {
                count@[q - 8]
            } else {
                old(header)@[q]
            },
        decreases 4 - j,
    {
        header[j] = MAGIC_FINAL[j];
        j = j + 1;
    }
    proof {
        assert(MAGIC_FINAL@ =~= magic_final());
        assert(header@ =~= spec_finalized(old(header)@, vector_count));
    }
}

/// Compute the byte offset of the first record body in the file.
///
/// This mirrors the `body_offset` formula of the header encoding: the
/// header is padded to an 8-byte boundary after the variable prefix.
///
/// Returns [`IoError::InvalidHeader`] if the parameters would produce an
/// invalid header, with the limits of the header encoding: a config hash
/// longer than 256 bytes, or metadata longer than 16 MiB.
pub fn body_offset(config_hash: &str, metadata_len: usize) -> (r: Result<usize, IoError>)
    ensures
        config_hash.spec_bytes().len() > MAX_CONFIG_HASH_LEN ==> r == Err::<usize, IoError>(
            IoError::InvalidHeader,
        ),
        config_hash.spec_bytes().len() <= MAX_CONFIG_HASH_LEN && metadata_len > MAX_METADATA_LEN
            ==> r == Err::<usize, IoError>(IoError::InvalidHeader),
        config_hash.spec_bytes().len() <= MAX_CONFIG_HASH_LEN && metadata_len <= MAX_METADATA_LEN
            ==> r == Ok::<usize, IoError>(
            spec_body_offset(config_hash.spec_bytes().len(), metadata_len as nat) as usize,
        ),
{
    let hash_len = config_hash.as_bytes().len();
    if hash_len > MAX_CONFIG_HASH_LEN {
        return Err(IoError::InvalidHeader);
    }
    if metadata_len > MAX_METADATA_LEN {
        return Err(IoError::InvalidHeader);
    }
    let header_end = FIXED_HEADER_SIZE + hash_len + 4 + metadata_len;
    Ok(((header_end + 7) / 8) * 8)
}

/// Streaming writer state for a Level-2 TQCV corpus file: the stream the
/// records go to, the number written so far and the header fields the file
/// was created with.
///
/// The caller writes the bytes: the tentative header from
/// [`encode_header`](crate::codec_file::header::encode_header) on creation,
/// then [`CodecFileWriter::record_bytes`] for each vector followed by
/// [`CodecFileWriter::record_appended`], and finally the vector count at
/// offset 8 before the `TQCV` magic at offset 0.
pub struct CodecFileWriter<W> {
    file: W,
    vector_count: u64,
    config_hash: String,
    dimension: u32,
    bit_width: u8,
    residual: bool,
}

impl<W> View for CodecFileWriter<W> {
    /// Vectors written so far, config hash, dimension, bit width and
    /// residual flag.
    type V = (u64, Seq<char>, u32, u8, bool);

    closed spec fn view(&self) -> (u64, Seq<char>, u32, u8, bool) {
        (self.vector_count, self.config_hash@, self.dimension, self.bit_width, self.residual)
    }
}

impl<W> CodecFileWriter<W> {
    /// The stream the writer writes to.
    pub closed spec fn stream(&self) -> W {
        self.file
    }

    /// A writer over `file`, whose tentative header has been written, with
    /// no vector written yet.
    pub fn from_parts(file: W, config_hash: &str, dimension: u32, bit_width: u8, residual: bool) -> (r: Self)
        ensures
            r@ == (0u64, config_hash@, dimension, bit_width, residual),
            r.stream() == file,
    {
        CodecFileWriter {
            file,
            vector_count: 0,
            config_hash: config_hash.to_owned(),
            dimension,
            bit_width,
            residual,
        }
    }

    /// The bytes appending `cv` writes: its length-prefixed Level-1 record.
    pub fn record_bytes(&self, cv: &CompressedVector) -> (r: Vec<u8>)
        ensures
            r@ == spec_frame(spec_to_bytes(cv@)),
    {
        encode_record(cv)
    }

    /// Count one more vector written.
    pub fn record_appended(&mut self)
        requires
            old(self)@.0 < u64::MAX,
        ensures
            final(self)@ == ((old(self)@.0 + 1) as u64, old(self)@.1, old(self)@.2, old(self)@.3, old(self)@.4),
            final(self).stream() == old(self).stream(),
    {
        self.vector_count = self.vector_count + 1;
    }

    /// The underlying stream, borrowed mutably: it is the writer's stream,
    /// and whatever is done through the borrow is the writer's stream
    /// afterwards; count and header fields are unchanged.
    pub fn file_mut(&mut self) -> (r: &mut W)
        ensures
            *r == old(self).stream(),
            final(self).stream() == *final(r),
            final(self)@ == old(self)@,
    {
        &mut self.file
    }

    /// Number of vectors written so far.
    pub fn vector_count(&self) -> (r: u64)
        ensures
            r == self@.0,
    {
        self.vector_count
    }

    /// Config hash used when creating the file.
    pub fn config_hash(&self) -> (r: &str)
        ensures
            r@ == self@.1,
    {
        self.config_hash.as_str()
    }

    /// Dimension declared in the header.
    pub fn dimension(&self) -> (r: u32)
        ensures
            r == self@.2,
    {
        self.dimension
    }

    /// Bit width declared in the header.
    pub fn bit_width(&self) -> (r: u8)
        ensures
            r == self@.3,
    {
        self.bit_width
    }

    /// Whether the file was created with the residual flag set.
    pub fn residual(&self) -> (r: bool)
        ensures
            r == self@.4,
    {
        self.residual
    }
}

} // verus!
