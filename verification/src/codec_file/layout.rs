//! The byte layout of a Level-2 corpus file header and of its records,
//! stated position by position.
use vstd::prelude::*;
use vstd::bytes::{
    lemma_auto_spec_u16_to_from_le_bytes, lemma_auto_spec_u32_to_from_le_bytes,
    lemma_auto_spec_u64_to_from_le_bytes, spec_u16_from_le_bytes, spec_u16_to_le_bytes,
    spec_u32_from_le_bytes, spec_u32_to_le_bytes, spec_u64_from_le_bytes, spec_u64_to_le_bytes,
};
use vstd::utf8::{decode_utf8_encode_utf8, encode_utf8};
use crate::codec_file::header::CorpusHeaderModel;
use crate::codec_file::header::{spec_decode_header, spec_encode_header};
use crate::codec_file::reader::spec_max_record_len;
use crate::codec_file::writer::{spec_finalized, spec_frame};
use crate::compressed_vector::from_bytes::{spec_parse_record, RecordModel};
use crate::errors::IoError;
use crate::mmap::corpus_file::spec_next_record;

verus! {

/// A header is encoded exactly when the config hash has at most 256 bytes,
/// the metadata at most 16 MiB, the bit width is 2, 4 or 8 and the
/// dimension is not zero; its bytes are then:
/// - 0..4 `TQCX`, 4 the version `0x01`, 5..8 zero;
/// - 8..16 the vector count as `u64` little-endian, 16..20 the dimension as
///   `u32` little-endian, 20 the bit width, 21 the residual flag (`0x01`
///   with residuals, `0x00` without), 22..24 the hash length as `u16`
///   little-endian;
/// - the hash, the metadata length as `u32` little-endian, the metadata,
///   and NULs up to the next multiple of 8.
pub proof fn lemma_corpus_header_layout(
    hash: Seq<u8>,
    dimension: u32,
    bit_width: u8,
    residual: bool,
    metadata: Seq<u8>,
    vector_count: u64,
)
    ensures
        spec_encode_header(hash, dimension, bit_width, residual, metadata, vector_count) is Ok <==> (
        hash.len() <= 256 && metadata.len() <= 16777216 && (bit_width == 2 || bit_width == 4
            || bit_width == 8) && dimension != 0),
        spec_encode_header(hash, dimension, bit_width, residual, metadata, vector_count) matches Ok(
            enc,
        ) ==> ({
            let hl = hash.len() as int;
            let ml = metadata.len() as int;
            let n = 28 + hl + ml;
            &&& enc.len() == ((n + 7) / 8) * 8
            &&& enc.subrange(0, 4) == seq![0x54u8, 0x51u8, 0x43u8, 0x58u8]
            &&& enc[4] == 1u8 && enc[5] == 0u8 && enc[6] == 0u8 && enc[7] == 0u8
            &&& enc.subrange(8, 16) == spec_u64_to_le_bytes(vector_count)
            &&& enc.subrange(16, 20) == spec_u32_to_le_bytes(dimension)
            &&& enc[20] == bit_width
            &&& enc[21] == (if residual {
                1u8
            } else {
                0u8
            })
            &&& enc.subrange(22, 24) == spec_u16_to_le_bytes(hl as u16)
            &&& enc.subrange(24, 24 + hl) == hash
            &&& enc.subrange(24 + hl, 28 + hl) == spec_u32_to_le_bytes(ml as u32)
            &&& enc.subrange(28 + hl, n) == metadata
            &&& forall|j: int| n <= j < enc.len() ==> enc[j] == 0u8
        }),
{
    lemma_auto_spec_u16_to_from_le_bytes();
    lemma_auto_spec_u32_to_from_le_bytes();
    lemma_auto_spec_u64_to_from_le_bytes();
    if let Ok(enc) = spec_encode_header(hash, dimension, bit_width, residual, metadata, vector_count) {
        let hl = hash.len() as int;
        let ml = metadata.len() as int;
        let n = 28 + hl + ml;
        assert(((n + 7) / 8) * 8 >= n) by (nonlinear_arith)
            requires
                n >= 0,
        ;
        assert(enc.subrange(0, 4) =~= seq![0x54u8, 0x51u8, 0x43u8, 0x58u8]);
        assert(enc.subrange(8, 16) =~= spec_u64_to_le_bytes(vector_count));
        assert(enc.subrange(16, 20) =~= spec_u32_to_le_bytes(dimension));
        assert(enc.subrange(22, 24) =~= spec_u16_to_le_bytes(hl as u16));
        assert(enc.subrange(24, 24 + hl) =~= hash);
        assert(enc.subrange(24 + hl, 28 + hl) =~= spec_u32_to_le_bytes(ml as u32));
        assert(enc.subrange(28 + hl, n) =~= metadata);
    }
}

/// Which bytes a decoded header was read from: `TQCV` at 0..4, version
/// `0x01` at 4 and zeros at 5..8; the vector count `u64` little-endian at
/// 8..16; the dimension, never zero, `u32` little-endian at 16..20; the bit
/// width (2, 4 or 8) at 20; the residual flag at 21, `0x01` for residuals
/// and `0x00` for none; the hash length `u16` little-endian at 22..24, at
/// most 256, then the hash (whose UTF-8 encoding it is), the metadata length
/// `u32` little-endian and the metadata; the body starts at the next
/// multiple of 8.
pub proof fn lemma_corpus_header_fields(data: Seq<u8>)
    ensures
        spec_decode_header(data) matches Ok(h) ==> ({
            let chl = spec_u16_from_le_bytes(data.subrange(22, 24)) as int;
            let ml = spec_u32_from_le_bytes(data.subrange(24 + chl, 28 + chl)) as int;
            let me = 28 + chl + ml;
            &&& data.len() >= me
            &&& data.subrange(0, 4) == seq![0x54u8, 0x51u8, 0x43u8, 0x56u8]
            &&& data[4] == 1u8 && data[5] == 0u8 && data[6] == 0u8 && data[7] == 0u8
            &&& h.vector_count == spec_u64_from_le_bytes(data.subrange(8, 16))
            &&& h.dimension == spec_u32_from_le_bytes(data.subrange(16, 20)) && h.dimension != 0
            &&& h.bit_width == data[20]
            &&& (h.bit_width == 2 || h.bit_width == 4 || h.bit_width == 8)
            &&& (data[21] == 0u8 && !h.residual) || (data[21] == 1u8 && h.residual)
            &&& chl <= 256
            &&& encode_utf8(h.config_hash) == data.subrange(24, 24 + chl)
            &&& h.metadata == data.subrange(28 + chl, me)
            &&& h.body_offset == ((me + 7) / 8) * 8
        }),
{
    if let Ok(h) = spec_decode_header(data) {
        let chl = spec_u16_from_le_bytes(data.subrange(22, 24)) as int;
        assert(data.subrange(0, 4) =~= seq![0x54u8, 0x51u8, 0x43u8, 0x56u8]);
        decode_utf8_encode_utf8(data.subrange(24, 24 + chl));
    }
}

/// Finalizing a header rewrites exactly its magic, to `TQCV`, and its
/// vector count, to `vector_count` as `u64` little-endian at 8..16.
pub proof fn lemma_finalized_layout(header: Seq<u8>, vector_count: u64)
    requires
        header.len() >= 24,
    ensures
        spec_finalized(header, vector_count).len() == header.len(),
        spec_finalized(header, vector_count).subrange(0, 4) == seq![0x54u8, 0x51u8, 0x43u8, 0x56u8],
        spec_finalized(header, vector_count).subrange(4, 8) == header.subrange(4, 8),
        spec_finalized(header, vector_count).subrange(8, 16) == spec_u64_to_le_bytes(vector_count),
        spec_finalized(header, vector_count).subrange(16, header.len() as int) == header.subrange(
            16,
            header.len() as int,
        ),
{
    lemma_auto_spec_u64_to_from_le_bytes();
    let f = spec_finalized(header, vector_count);
    assert(f.subrange(0, 4) =~= seq![0x54u8, 0x51u8, 0x43u8, 0x56u8]);
    assert(f.subrange(4, 8) =~= header.subrange(4, 8));
    assert(f.subrange(8, 16) =~= spec_u64_to_le_bytes(vector_count));
    assert(f.subrange(16, header.len() as int) =~= header.subrange(16, header.len() as int));
}

/// A record as written: the payload length as `u32` little-endian, then
/// the payload.
pub proof fn lemma_frame_layout(payload: Seq<u8>)
    ensures
        spec_frame(payload).len() == 4 + payload.len(),
        spec_frame(payload).subrange(0, 4) == spec_u32_to_le_bytes(payload.len() as u32),
        spec_frame(payload).subrange(4, 4 + payload.len() as int) == payload,
{
    lemma_auto_spec_u32_to_from_le_bytes();
    assert(spec_frame(payload).subrange(0, 4) =~= spec_u32_to_le_bytes(payload.len() as u32));
    assert(spec_frame(payload).subrange(4, 4 + payload.len() as int) =~= payload);
}

/// A record read from the front of a body: its length is the first four
/// bytes as `u32` little-endian, the record is parsed from exactly that many
/// bytes after them, and reading goes on right after those.
pub proof fn lemma_next_record_layout(data: Seq<u8>)
    ensures
        spec_next_record(data) matches Ok((rec, rest)) ==> ({
            let len = spec_u32_from_le_bytes(data.subrange(0, 4)) as int;
            &&& data.len() >= 4 + len
            &&& spec_parse_record(data.subrange(4, 4 + len)) == Ok::<RecordModel, IoError>(rec)
            &&& rest == data.subrange(4 + len, data.len() as int)
        }),
{
    if let Ok((rec, rest)) = spec_next_record(data) {
        let len = spec_u32_from_le_bytes(data.subrange(0, 4)) as int;
        let after = data.subrange(4, data.len() as int);
        assert(after.subrange(0, len) =~= data.subrange(4, 4 + len));
        assert(after.subrange(len, after.len() as int) =~= data.subrange(4 + len, data.len() as int));
    }
}

/// The streaming reader's largest legal record for a header: the 70-byte
/// record header, `ceil(dimension * bit_width / 8)` packed bytes, the flag
/// byte and, when the header announces residuals, a 4-byte length and two
/// bytes per dimension; never more than 4 MiB.
pub proof fn lemma_max_record_len_formula(dimension: u32, bit_width: u8, residual: bool)
    ensures
        ({
            let full = 70 + (dimension * bit_width + 7) / 8 + 1 + (if residual {
                4 + 2 * dimension
            } else {
                0
            });
            spec_max_record_len(dimension, bit_width, residual) == if full < 4194304 {
                full
            } else {
                4194304
            }
        }),
{
}

/// Why a corpus file header is refused, in the order the checks run: fewer
/// than 24 bytes; the tentative magic `TQCX` (reported as one byte short);
/// any other magic but `TQCV`; a version other than `0x01`; non-zero
/// reserved bytes; a zero dimension; a bit width other than 2, 4 or 8; a
/// residual flag other than `0x00`/`0x01`; a config hash length over 256.
pub proof fn lemma_corpus_header_rejections(data: Seq<u8>)
    ensures
        data.len() < 24 ==> spec_decode_header(data) == Err::<CorpusHeaderModel, IoError>(
            IoError::Truncated { needed: 24, got: data.len() as usize },
        ),
        data.len() >= 24 && data.subrange(0, 4) == seq![0x54u8, 0x51u8, 0x43u8, 0x58u8]
            ==> spec_decode_header(data) == Err::<CorpusHeaderModel, IoError>(
            IoError::Truncated { needed: (data.len() + 1) as usize, got: data.len() as usize },
        ),
        data.len() >= 24 && data.subrange(0, 4) != seq![0x54u8, 0x51u8, 0x43u8, 0x58u8]
            && data.subrange(0, 4) != seq![0x54u8, 0x51u8, 0x43u8, 0x56u8] ==> spec_decode_header(
            data,
        ) == Err::<CorpusHeaderModel, IoError>(
            IoError::BadMagic { got: [data[0], data[1], data[2], data[3]] },
        ),
        ({
            let ok_magic = data.len() >= 24 && data.subrange(0, 4) == seq![
                0x54u8,
                0x51u8,
                0x43u8,
                0x56u8,
            ];
            let dim = spec_u32_from_le_bytes(data.subrange(16, 20));
            let chl = spec_u16_from_le_bytes(data.subrange(22, 24));
            &&& ok_magic && data[4] != 1u8 ==> spec_decode_header(data) == Err::<
                CorpusHeaderModel,
                IoError,
            >(IoError::UnknownVersion { got: data[4] })
            &&& ok_magic && data[4] == 1u8 && (data[5] != 0u8 || data[6] != 0u8 || data[7] != 0u8)
                ==> spec_decode_header(data) == Err::<CorpusHeaderModel, IoError>(
                IoError::InvalidHeader,
            )
            &&& ok_magic && data[4] == 1u8 && data[5] == 0u8 && data[6] == 0u8 && data[7] == 0u8
                ==> {
                &&& dim == 0 ==> spec_decode_header(data) == Err::<CorpusHeaderModel, IoError>(
                    IoError::InvalidHeader,
                )
                &&& dim != 0 && !(data[20] == 2 || data[20] == 4 || data[20] == 8)
                    ==> spec_decode_header(data) == Err::<CorpusHeaderModel, IoError>(
                    IoError::InvalidBitWidth { got: data[20] },
                )
                &&& dim != 0 && (data[20] == 2 || data[20] == 4 || data[20] == 8) && data[21] > 1
                    ==> spec_decode_header(data) == Err::<CorpusHeaderModel, IoError>(
                    IoError::InvalidHeader,
                )
                &&& dim != 0 && (data[20] == 2 || data[20] == 4 || data[20] == 8) && data[21] <= 1
                    && chl > 256 ==> spec_decode_header(data) == Err::<CorpusHeaderModel, IoError>(
                    IoError::InvalidHeader,
                )
            }
        }),
{
    if data.len() >= 24 {
        assert(seq![0x54u8, 0x51u8, 0x43u8, 0x58u8] != seq![0x54u8, 0x51u8, 0x43u8, 0x56u8]) by {
            assert(seq![0x54u8, 0x51u8, 0x43u8, 0x58u8][3] != seq![0x54u8, 0x51u8, 0x43u8, 0x56u8][3]);
        }
        if data.subrange(0, 4) == seq![0x54u8, 0x51u8, 0x43u8, 0x56u8] {
            assert(data.subrange(0, 4) =~= crate::codec_file::header::magic_final());
        }
        if data.subrange(0, 4) == seq![0x54u8, 0x51u8, 0x43u8, 0x58u8] {
            assert(data.subrange(0, 4) =~= crate::codec_file::header::magic_tentative());
        }
    }
}

} // verus!
