//! Level-2 corpus files built and read in memory: the bytes a writer
//! produces, and the records and errors a reader gets back from them.

use rand_chacha::rand_core::{RngCore, SeedableRng};
use rand_chacha::ChaCha20Rng;
use tinyquant::codec::CompressedVector;
use tinyquant::codec_file::header::{decode_header, encode_header};
use tinyquant::codec_file::reader::{
    check_record_len, config_hash_len_from_fixed, decode_streamed_header, header_remaining_len,
    CodecFileReader,
};
use tinyquant::codec_file::writer::{body_offset, encode_record, finalize_header};
use tinyquant::errors::IoError;
use tinyquant::mmap::CorpusFileIter;

fn make_cv(dim: usize, bit_width: u8, rng: &mut ChaCha20Rng) -> CompressedVector {
    let max_val = (1u16 << bit_width) - 1;
    let indices: Vec<u8> = (0..dim).map(|_| (rng.next_u32() as u8) & max_val as u8).collect();
    CompressedVector::new(indices, None, String::from("mmap-test"), dim as u32, bit_width)
        .unwrap_or_else(|e| panic!("cv build: {e:?}"))
}

/// The bytes of a corpus file with the given header fields and records,
/// finalized or left tentative.
fn write_file(
    hash: &str,
    dim: u32,
    bit_width: u8,
    cvs: &[CompressedVector],
    finalize: bool,
) -> Vec<u8> {
    let mut file = encode_header(hash, dim, bit_width, false, &[], 0)
        .unwrap_or_else(|e| panic!("writer create: {e:?}"));
    for cv in cvs {
        file.extend_from_slice(&encode_record(cv));
    }
    if finalize {
        finalize_header(&mut file[..], cvs.len() as u64);
    }
    file
}

/// Unpack every record of a finalized corpus file.
fn read_all(file: &[u8], dim: usize) -> Vec<Result<Vec<u8>, IoError>> {
    let header = decode_header(file).unwrap_or_else(|e| panic!("open: {e:?}"));
    let mut iter = CorpusFileIter::over_file(file, &header);
    let mut out = Vec::new();
    while let Some(item) = iter.next() {
        out.push(item.map(|view| {
            let mut unpacked = vec![0u8; dim];
            view.unpack_into(&mut unpacked).unwrap_or_else(|e| panic!("unpack: {e:?}"));
            unpacked
        }));
    }
    out
}

#[test]
fn corpus_file_write_then_read_round_trip() {
    let mut rng = ChaCha20Rng::seed_from_u64(99);
    let count = 100;
    let dim = 64;
    let bit_width = 4u8;

    let cvs: Vec<CompressedVector> =
        (0..count).map(|_| make_cv(dim as usize, bit_width, &mut rng)).collect();
    let written_indices: Vec<Vec<u8>> = cvs.iter().map(|cv| cv.indices().to_vec()).collect();
    let file = write_file("mmap-test", dim, bit_width, &cvs, true);

    let header = decode_header(&file).unwrap_or_else(|e| panic!("open: {e:?}"));
    assert_eq!(header.vector_count, count as u64);
    assert_eq!(header.dimension, dim);
    assert_eq!(header.bit_width, bit_width);
    assert_eq!(header.config_hash, "mmap-test");

    let records = read_all(&file, dim as usize);
    assert_eq!(records.len(), count);
    for (i, (rec, expected)) in records.iter().zip(written_indices.iter()).enumerate() {
        let rec = rec.as_ref().unwrap_or_else(|e| panic!("iter[{i}] error: {e:?}"));
        assert_eq!(rec, expected, "mismatch at [{i}]");
    }
}

#[test]
fn finalize_interrupted_before_magic_rewrite_is_rejected() {
    // A TQCX file (tentative), never finalized, is rejected on open.
    let mut rng = ChaCha20Rng::seed_from_u64(1234);
    let cv = make_cv(16, 4, &mut rng);
    let file = write_file("tentative-test", 16, 4, &[cv], false);
    let result = decode_header(&file);
    assert!(
        matches!(result, Err(IoError::Truncated { .. })),
        "expected IoError::Truncated for TQCX file, got: {result:?}"
    );
}

#[test]
fn corpus_file_multi_reader_open() {
    // Two readers of the same bytes both succeed.
    let mut rng = ChaCha20Rng::seed_from_u64(55);
    let cvs: Vec<CompressedVector> = (0..5).map(|_| make_cv(32, 4, &mut rng)).collect();
    let file = write_file("multi-reader", 32, 4, &cvs, true);

    let h1 = decode_header(&file).unwrap_or_else(|e| panic!("reader1: {e:?}"));
    let h2 = decode_header(&file).unwrap_or_else(|e| panic!("reader2: {e:?}"));
    assert_eq!(h1.vector_count, 5);
    assert_eq!(h2.vector_count, 5);
    assert_eq!(read_all(&file, 32).len(), 5);
    assert_eq!(read_all(&file, 32).len(), 5);
}

#[test]
fn corpus_file_unknown_version_is_rejected() {
    let mut rng = ChaCha20Rng::seed_from_u64(42);
    let cv = make_cv(16, 4, &mut rng);
    let mut file = write_file("ver-test", 16, 4, &[cv], true);
    file[4] = 0x99; // format_version
    let result = decode_header(&file);
    assert!(
        matches!(result, Err(IoError::UnknownVersion { got: 0x99 })),
        "expected UnknownVersion{{0x99}}, got: {result:?}"
    );
}

#[test]
fn corpus_file_invalid_residual_flag_is_rejected() {
    let mut rng = ChaCha20Rng::seed_from_u64(43);
    let cv = make_cv(16, 4, &mut rng);
    let mut file = write_file("res-test", 16, 4, &[cv], true);
    file[21] = 0x02; // residual_flag
    let result = decode_header(&file);
    assert!(
        matches!(result, Err(IoError::InvalidHeader)),
        "expected InvalidHeader for bad residual_flag, got: {result:?}"
    );
}

#[test]
fn corpus_file_config_hash_len_too_large_is_rejected() {
    let mut header = [0u8; 32];
    header[..4].copy_from_slice(b"TQCV");
    header[4] = 0x01; // version
    header[16] = 64; // dimension = 64
    header[20] = 4; // bit_width = 4
    header[22] = 1; // config_hash_len = 257 = 0x0101
    header[23] = 1;
    let result = decode_header(&header);
    assert!(
        matches!(result, Err(IoError::InvalidHeader)),
        "expected InvalidHeader for config_hash_len > 256, got: {result:?}"
    );
}

#[test]
fn corpus_file_excess_metadata_len_is_rejected() {
    let mut buf = [0u8; 32];
    buf[..4].copy_from_slice(b"TQCV");
    buf[4] = 0x01;
    buf[16] = 64; // dimension = 64
    buf[20] = 4; // bit_width = 4
    buf[24..28].copy_from_slice(&[0xFF; 4]); // metadata_len = u32::MAX
    let result = decode_header(&buf);
    assert!(
        matches!(result, Err(IoError::Truncated { .. })),
        "expected Truncated for excess metadata_len, got: {result:?}"
    );
}

#[test]
fn corpus_file_record_length_overflow_is_rejected() {
    let mut rng = ChaCha20Rng::seed_from_u64(77);
    let cv = make_cv(16, 4, &mut rng);
    let mut file = write_file("reclen-test", 16, 4, &[cv], true);
    let offset = decode_header(&file).unwrap().body_offset;
    file[offset..offset + 4].copy_from_slice(&u32::MAX.to_le_bytes());

    let result = read_all(&file, 16);
    assert_eq!(result.len(), 1);
    assert!(
        matches!(result[0], Err(IoError::Truncated { .. })),
        "expected Truncated for record length overflow"
    );
}

#[test]
fn corpus_file_empty_file_is_rejected() {
    match decode_header(&[]) {
        Err(IoError::Truncated { needed: 24, got: 0 }) => {}
        Err(e) => panic!("expected Truncated{{24, 0}}, got: {e:?}"),
        Ok(_) => panic!("expected error, got Ok"),
    }
}

#[test]
fn corpus_file_bad_magic_is_rejected() {
    let mut header = [0u8; 24];
    header[..4].copy_from_slice(b"XXXX");
    header[4] = 0x01; // version
    header[16] = 1; // dimension = 1
    header[20] = 4; // bit_width = 4
    let result = decode_header(&header);
    assert!(matches!(result, Err(IoError::BadMagic { .. })), "expected BadMagic, got: {result:?}");
}

#[test]
fn corpus_file_nonzero_reserved_is_rejected() {
    let mut rng = ChaCha20Rng::seed_from_u64(7);
    let cv = make_cv(16, 4, &mut rng);
    let mut file = write_file("reserved-test", 16, 4, &[cv], true);
    file[5] = 0x01; // reserved
    let result = decode_header(&file);
    assert!(matches!(result, Err(IoError::InvalidHeader)), "expected InvalidHeader, got: {result:?}");
}

#[test]
fn corpus_file_zero_dimension_is_rejected() {
    let mut header = [0u8; 32];
    header[..4].copy_from_slice(b"TQCV");
    header[4] = 0x01; // version; dimension stays 0
    header[20] = 4; // bit_width = 4
    let result = decode_header(&header);
    assert!(
        matches!(result, Err(IoError::InvalidHeader)),
        "expected InvalidHeader for zero dimension, got: {result:?}"
    );
}

#[test]
fn corpus_file_invalid_bit_width_is_rejected() {
    let mut header = [0u8; 32];
    header[..4].copy_from_slice(b"TQCV");
    header[4] = 0x01;
    header[16] = 64; // dimension = 64
    header[20] = 3; // bit_width = 3 (invalid)
    let result = decode_header(&header);
    assert!(
        matches!(result, Err(IoError::InvalidBitWidth { got: 3 })),
        "expected InvalidBitWidth{{3}}, got: {result:?}"
    );
}

#[test]
fn streaming_reader_round_trip() {
    // The streaming reader's steps give the same records as the iterator.
    let mut rng = ChaCha20Rng::seed_from_u64(888);
    let count = 20;
    let dim = 32u32;
    let bit_width = 8u8;
    let cvs: Vec<CompressedVector> =
        (0..count).map(|_| make_cv(dim as usize, bit_width, &mut rng)).collect();
    let file = write_file("streaming", dim, bit_width, &cvs, true);

    let mapped: Vec<Vec<u8>> = read_all(&file, dim as usize).into_iter().map(|r| r.unwrap()).collect();

    let chl = config_hash_len_from_fixed(&file[..24]).unwrap();
    let var_end = 24 + chl + 4;
    let rest = header_remaining_len(chl, &file[24..var_end]).unwrap();
    let body = var_end + rest;
    let header = decode_streamed_header(&file[..24], &file[24..var_end], &file[var_end..body]).unwrap();
    let mut reader = CodecFileReader::from_parts((), header);
    let mut pos = body;
    let mut streamed: Vec<Vec<u8>> = Vec::new();
    while let Some(limit) = reader.next_record_limit() {
        let len = check_record_len(&file[pos..pos + 4], limit).unwrap();
        pos += 4;
        let cv = reader.accept_record(&file[pos..pos + len]).unwrap();
        pos += len;
        streamed.push(cv.indices().to_vec());
    }
    assert_eq!(reader.records_read(), count as u64);
    assert_eq!(streamed, mapped);
    for (cv, got) in cvs.iter().zip(streamed.iter()) {
        assert_eq!(cv.indices(), got.as_slice());
    }
}

#[test]
fn body_offset_matches_encoded_header_length() {
    for (hash, metadata_len) in [("", 0usize), ("abc", 5), ("mmap-test", 13), ("x", 3)] {
        let metadata = vec![7u8; metadata_len];
        let header = encode_header(hash, 8, 4, true, &metadata, 0).unwrap();
        assert_eq!(body_offset(hash, metadata_len).unwrap(), header.len());
        assert_eq!(header.len() % 8, 0);
    }
    // 24 + 3 + 4 + 5 = 36, padded to 40
    assert_eq!(body_offset("abc", 5).unwrap(), 40);
    assert!(matches!(body_offset(&"h".repeat(257), 0), Err(IoError::InvalidHeader)));
    // metadata over 16 MiB is refused, as the header encoding refuses it
    assert!(matches!(body_offset("", 16 * 1024 * 1024 + 1), Err(IoError::InvalidHeader)));
    assert_eq!(body_offset("", 16 * 1024 * 1024).unwrap(), 16 * 1024 * 1024 + 32);
}

#[test]
fn iterator_stops_at_vector_count_and_after_errors() {
    let mut rng = ChaCha20Rng::seed_from_u64(5);
    let cvs: Vec<CompressedVector> = (0..3).map(|_| make_cv(8, 4, &mut rng)).collect();
    // Header announces only 2 of the 3 records written.
    let mut file = encode_header("cap", 8, 4, false, &[], 0).unwrap();
    for cv in &cvs {
        file.extend_from_slice(&encode_record(cv));
    }
    finalize_header(&mut file[..], 2);
    let header = decode_header(&file).unwrap();
    let mut iter = CorpusFileIter::over_file(&file, &header);
    assert!(matches!(iter.next(), Some(Ok(_))));
    assert!(matches!(iter.next(), Some(Ok(_))));
    for _ in 0..3 {
        assert!(iter.next().is_none());
    }
    // A corrupt first record: one error, then nothing more.
    let offset = header.body_offset;
    let mut bad = file.clone();
    bad[offset + 4] = 0x07; // version byte of the first payload
    let mut iter = CorpusFileIter::over_file(&bad, &header);
    assert!(matches!(iter.next(), Some(Err(IoError::UnknownVersion { got: 0x07 }))));
    for _ in 0..3 {
        assert!(iter.next().is_none());
    }
}

#[test]
fn records_read_counts_decoded_payloads_only() {
    let mut rng = ChaCha20Rng::seed_from_u64(6);
    let cvs: Vec<CompressedVector> = (0..2).map(|_| make_cv(8, 4, &mut rng)).collect();
    let file = write_file("count", 8, 4, &cvs, true);
    let header = decode_header(&file).unwrap();
    let body = header.body_offset;
    let mut reader = CodecFileReader::from_parts((), header);
    assert_eq!(reader.records_read(), 0);
    assert!(reader.accept_record(&[1, 2, 3]).is_err());
    assert_eq!(reader.records_read(), 0);
    let len = u32::from_le_bytes(file[body..body + 4].try_into().unwrap()) as usize;
    assert!(reader.accept_record(&file[body + 4..body + 4 + len]).is_ok());
    assert_eq!(reader.records_read(), 1);
    assert!(reader.next_record_limit().is_some());
    assert!(reader.accept_record(&file[body + 4..body + 4 + len]).is_ok());
    assert_eq!(reader.records_read(), 2);
    assert!(reader.next_record_limit().is_none());
}
