//! Tests of the library's own behaviour: constructor errors, the raw
//! bit packing, the Level-1 header, cursors, policies and error codes.

use tinyquant::abi::{TinyQuantCompressionPolicy, TinyQuantErrorKind};
use tinyquant::codec::{is_supported_bit_width, CompressedVector};
use tinyquant::codec_file::header::{decode_header, encode_header, CorpusFileHeader};
use tinyquant::codec_file::reader::{max_record_len_for_header, MAX_RECORD_LEN};
use tinyquant::codec_file::writer::encode_record;
use tinyquant::codec_file::{CodecFileWriter, MetadataBlob};
use tinyquant::compressed_vector::header::{decode_header as decode_record_header, encode_header as encode_record_header};
use tinyquant::compressed_vector::pack::pack_indices;
use tinyquant::compressed_vector::unpack::unpack_indices;
use tinyquant::compressed_vector::{from_bytes, to_bytes};
use tinyquant::error_class::{
    node_backend_error_class, node_codec_error_class, python_backend_error_class,
    python_codec_error_class,
};
use tinyquant::errors::{BackendError, CodecError, IoError};
use tinyquant::node_args::u32_to_u8_bit_width;
use tinyquant::pgvector::{validate_table_name, PgvectorAdapter, LIVE_DB_REQUIRED};
use tinyquant::policy::CompressionPolicy;
use tinyquant::zero_copy::cursor::SliceCursor;
use tinyquant::zero_copy::view::CompressedVectorView;

#[test]
fn new_rejects_unsupported_bit_width() {
    let err = CompressedVector::new(vec![0, 1], None, String::from("h"), 2, 3).unwrap_err();
    assert_eq!(err, CodecError::UnsupportedBitWidth { got: 3 });
    assert!(!is_supported_bit_width(3));
    assert!(is_supported_bit_width(2) && is_supported_bit_width(4) && is_supported_bit_width(8));
}

#[test]
fn new_rejects_dimension_mismatch() {
    let err = CompressedVector::new(vec![0, 1, 2], None, String::from("h"), 4, 4).unwrap_err();
    assert_eq!(err, CodecError::DimensionMismatch { expected: 4, got: 3 });
}

#[test]
fn new_rejects_first_index_out_of_range() {
    let err = CompressedVector::new(vec![1, 3, 4, 9], None, String::from("h"), 4, 2).unwrap_err();
    assert_eq!(err, CodecError::IndexOutOfRange { index: 2, value: 4 });
}

#[test]
fn new_keeps_its_parts() {
    let cv = CompressedVector::new(vec![3, 0, 2], Some(vec![9, 8]), String::from("cfg"), 3, 2).unwrap();
    assert_eq!(cv.indices(), &[3, 0, 2]);
    assert_eq!(cv.residual(), Some(&[9u8, 8][..]));
    assert_eq!(cv.config_hash(), "cfg");
    assert_eq!(cv.dimension(), 3);
    assert_eq!(cv.bit_width(), 2);
    assert!(cv.has_residual());
}

#[test]
fn pack_and_unpack_directly() {
    let indices = [1u8, 2, 3, 0, 3];
    let mut packed = [0u8; 2];
    pack_indices(&indices, 2, &mut packed);
    // 1 | 2<<2 | 3<<4 | 0<<6 = 0x39 ; 3
    assert_eq!(packed, [0x39, 0x03]);
    let mut out = [0u8; 5];
    unpack_indices(&packed, 5, 2, &mut out);
    assert_eq!(out, indices);
}

#[test]
fn pack_bw8_is_identity() {
    let indices = [0u8, 17, 255, 128];
    let mut packed = [0u8; 4];
    pack_indices(&indices, 8, &mut packed);
    assert_eq!(packed, indices);
}

#[test]
fn record_header_encode_decode() {
    let mut out = Vec::new();
    encode_record_header(&mut out, "abc", 12, 4);
    assert_eq!(out.len(), 70);
    assert_eq!(out[0], 1);
    assert_eq!(&out[1..4], b"abc");
    assert!(out[4..65].iter().all(|&b| b == 0));
    assert_eq!(&out[65..69], &12u32.to_le_bytes());
    assert_eq!(out[69], 4);
    let (version, hash, dim, bw) = decode_record_header(&out).unwrap();
    assert_eq!((version, hash, dim, bw), (1, "abc", 12, 4));
    assert!(matches!(decode_record_header(&out[..10]), Err(IoError::Truncated { needed: 70, got: 10 })));
}

#[test]
fn hash_ending_in_nul_loses_the_nul() {
    let cv = CompressedVector::new(vec![1, 2], None, String::from("ab\0"), 2, 4).unwrap();
    let back = from_bytes(&to_bytes(&cv)).unwrap();
    assert_eq!(back.config_hash(), "ab");
}

#[test]
fn from_bytes_ignores_trailing_bytes() {
    let cv = CompressedVector::new(vec![1, 2, 3], Some(vec![5; 6]), String::from("t"), 3, 8).unwrap();
    let mut bytes = to_bytes(&cv);
    bytes.extend_from_slice(&[0xAA, 0xBB]);
    let back = from_bytes(&bytes).unwrap();
    assert_eq!(back.indices(), cv.indices());
    assert_eq!(back.residual(), cv.residual());
}

#[test]
fn cursor_reads_consecutive_records_then_stops() {
    let a = CompressedVector::new(vec![1, 2, 3], None, String::from("a"), 3, 4).unwrap();
    let b = CompressedVector::new(vec![0, 3], Some(vec![7, 7, 7, 7]), String::from("b"), 2, 2).unwrap();
    let mut bytes = to_bytes(&a);
    bytes.extend_from_slice(&to_bytes(&b));
    let mut cursor = SliceCursor::new(&bytes);
    let first = cursor.next().unwrap().unwrap();
    assert_eq!(first.config_hash, "a");
    let second = cursor.next().unwrap().unwrap();
    assert_eq!(second.config_hash, "b");
    assert_eq!(second.residual, Some(&[7u8, 7, 7, 7][..]));
    assert!(cursor.next().is_none());
}

#[test]
fn cursor_stops_after_an_error() {
    let a = CompressedVector::new(vec![1, 2, 3], None, String::from("a"), 3, 4).unwrap();
    let mut bytes = to_bytes(&a);
    bytes.extend_from_slice(&[0x05, 0x00]);
    let mut cursor = SliceCursor::new(&bytes);
    assert!(cursor.next().unwrap().is_ok());
    assert!(matches!(cursor.next(), Some(Err(IoError::Truncated { needed: 70, got: 2 }))));
    assert!(cursor.next().is_none());
}

#[test]
fn view_to_owned_matches_from_bytes() {
    let cv = CompressedVector::new(vec![2, 1, 0, 3, 3], Some(vec![1, 2]), String::from("own"), 5, 2).unwrap();
    let bytes = to_bytes(&cv);
    let (view, _) = CompressedVectorView::parse(&bytes).unwrap();
    let owned = view.to_owned_cv().unwrap();
    assert_eq!(owned.indices(), cv.indices());
    assert_eq!(owned.residual(), cv.residual());
    assert_eq!(owned.config_hash(), "own");
    let mut wrong = [0u8; 4];
    assert!(matches!(view.unpack_into(&mut wrong), Err(IoError::LengthMismatch)));
    assert_eq!(wrong, [0u8; 4]);
}

#[test]
fn metadata_blob_exposes_its_bytes() {
    let raw = [1u8, 2, 3];
    let blob = MetadataBlob::new(&raw);
    assert_eq!(blob.as_bytes(), &raw);
}

#[test]
fn corpus_header_round_trip_with_metadata() {
    let mut enc = encode_header("cfg", 100, 8, true, b"meta", 0).unwrap();
    assert_eq!(&enc[..4], b"TQCX");
    tinyquant::codec_file::writer::finalize_header(&mut enc[..], 42);
    assert_eq!(&enc[..4], b"TQCV");
    let h: CorpusFileHeader = decode_header(&enc).unwrap();
    assert_eq!(h.vector_count, 42);
    assert_eq!(h.dimension, 100);
    assert_eq!(h.bit_width, 8);
    assert!(h.residual);
    assert_eq!(h.config_hash, "cfg");
    assert_eq!(h.metadata, b"meta".to_vec());
    assert_eq!(h.body_offset, enc.len());
    assert_eq!(enc.len(), 40); // 24 + 3 + 4 + 4 = 35, padded to 40
}

#[test]
fn corpus_header_encode_rejections() {
    assert!(matches!(encode_header("h", 0, 4, false, &[], 0), Err(IoError::InvalidHeader)));
    assert!(matches!(encode_header("h", 4, 3, false, &[], 0), Err(IoError::InvalidBitWidth { got: 3 })));
    assert!(matches!(encode_header(&"h".repeat(257), 4, 4, false, &[], 0), Err(IoError::InvalidHeader)));
}

#[test]
fn written_record_fits_the_reader_limit() {
    let cv = CompressedVector::new(vec![1; 10], Some(vec![0; 20]), String::from("h"), 10, 4).unwrap();
    let header = decode_header(&{
        let mut e = encode_header("h", 10, 4, true, &[], 0).unwrap();
        tinyquant::codec_file::writer::finalize_header(&mut e[..], 1);
        e
    })
    .unwrap();
    let limit = max_record_len_for_header(&header);
    // 70 + 5 + 1 + 4 + 20
    assert_eq!(limit, 100);
    assert_eq!(to_bytes(&cv).len(), limit);
    let huge = decode_header(&{
        let mut e = encode_header("h", u32::MAX, 8, true, &[], 0).unwrap();
        tinyquant::codec_file::writer::finalize_header(&mut e[..], 1);
        e
    })
    .unwrap();
    assert_eq!(max_record_len_for_header(&huge), MAX_RECORD_LEN);
}

#[test]
fn table_name_rejection_message() {
    let err = validate_table_name("1users").unwrap_err();
    let expected = format!(
        "invalid table name: {:?} \u{2014} must match [A-Za-z_][A-Za-z0-9_]{{0,62}}",
        "1users"
    );
    assert_eq!(err, BackendError::Adapter(expected));
    assert_eq!(validate_table_name("ok_name"), Ok(()));
}

#[test]
fn adapter_without_database() {
    let mut adapter = PgvectorAdapter::new("vectors").unwrap();
    assert_eq!(adapter.table(), "vectors");
    assert_eq!(adapter.dim(), None);
    assert_eq!(adapter.len(), 0);
    let live = BackendError::Adapter(String::from(LIVE_DB_REQUIRED));
    assert_eq!(adapter.ensure_schema(8), Err(live.clone()));
    assert_eq!(adapter.ensure_index(0), Err(live.clone()));
    assert_eq!(adapter.remove(&[]), Ok(()));
    assert_eq!(adapter.remove(&[String::from("a")]), Err(live));
    assert_eq!(adapter.dim(), None);
}

#[test]
fn policy_tags() {
    assert!(CompressionPolicy::Compress.requires_codec());
    assert!(!CompressionPolicy::Passthrough.requires_codec());
    assert!(!CompressionPolicy::Fp16.requires_codec());
    assert_eq!(CompressionPolicy::Compress.kind_tag(), "compress");
    assert_eq!(CompressionPolicy::Passthrough.kind_tag(), "passthrough");
    assert_eq!(CompressionPolicy::Fp16.kind_tag(), "fp16");
    assert_eq!(CompressionPolicy::Compress.storage_dtype(), "uint8");
    assert_eq!(CompressionPolicy::Passthrough.storage_dtype(), "float32");
    assert_eq!(CompressionPolicy::Fp16.storage_dtype(), "float16");
    assert_eq!(CompressionPolicy::Compress.python_name(), "COMPRESS");
    assert_eq!(CompressionPolicy::Passthrough.python_name(), "PASSTHROUGH");
    assert_eq!(CompressionPolicy::Fp16.python_name(), "FP16");
}

#[test]
fn abi_policy_codes_and_conversion() {
    assert_eq!(TinyQuantCompressionPolicy::Compress.code(), 0);
    assert_eq!(TinyQuantCompressionPolicy::Passthrough.code(), 1);
    assert_eq!(TinyQuantCompressionPolicy::Fp16.code(), 2);
    assert_eq!(CompressionPolicy::from(TinyQuantCompressionPolicy::Compress), CompressionPolicy::Compress);
    assert_eq!(CompressionPolicy::from(TinyQuantCompressionPolicy::Passthrough), CompressionPolicy::Passthrough);
    assert_eq!(CompressionPolicy::from(TinyQuantCompressionPolicy::Fp16), CompressionPolicy::Fp16);
}

#[test]
fn abi_error_codes_and_kinds() {
    let codes: Vec<u32> = [
        TinyQuantErrorKind::Success,
        TinyQuantErrorKind::InvalidHandle,
        TinyQuantErrorKind::DimensionMismatch,
        TinyQuantErrorKind::ConfigMismatch,
        TinyQuantErrorKind::CodebookIncompatible,
        TinyQuantErrorKind::DuplicateVector,
        TinyQuantErrorKind::Io,
        TinyQuantErrorKind::InvalidArgument,
        TinyQuantErrorKind::Panic,
        TinyQuantErrorKind::Unknown,
    ]
    .iter()
    .map(|k| k.code())
    .collect();
    assert_eq!(codes, vec![0, 1, 2, 3, 4, 5, 6, 7, 98, 99]);
    assert_eq!(TinyQuantErrorKind::default(), TinyQuantErrorKind::Success);
    assert_eq!(
        TinyQuantErrorKind::of_codec_error(&CodecError::DimensionMismatch { expected: 1, got: 2 }),
        TinyQuantErrorKind::DimensionMismatch
    );
    assert_eq!(
        TinyQuantErrorKind::of_codec_error(&CodecError::UnsupportedBitWidth { got: 3 }),
        TinyQuantErrorKind::InvalidArgument
    );
    assert_eq!(TinyQuantErrorKind::of_backend_error(&BackendError::Empty), TinyQuantErrorKind::InvalidArgument);
    assert_eq!(TinyQuantErrorKind::of_backend_error(&BackendError::InvalidTopK), TinyQuantErrorKind::InvalidArgument);
    assert_eq!(
        TinyQuantErrorKind::of_backend_error(&BackendError::Adapter(String::from("x"))),
        TinyQuantErrorKind::Unknown
    );
    assert_eq!(TinyQuantErrorKind::of_io_error(&IoError::InvalidUtf8), TinyQuantErrorKind::Io);
}

#[test]
fn binding_error_classes() {
    let dim = CodecError::DimensionMismatch { expected: 1, got: 2 };
    let bw = CodecError::UnsupportedBitWidth { got: 3 };
    let idx = CodecError::IndexOutOfRange { index: 0, value: 9 };
    let flag = CodecError::InvalidResidualFlag { got: 2 };
    assert_eq!(node_codec_error_class(&dim), "DimensionMismatchError");
    assert_eq!(node_codec_error_class(&bw), "UnsupportedBitWidthError");
    assert_eq!(node_codec_error_class(&idx), "TinyQuantError");
    assert_eq!(node_codec_error_class(&flag), "TinyQuantError");
    assert_eq!(node_backend_error_class(&BackendError::Empty), "BackendEmptyError");
    assert_eq!(node_backend_error_class(&BackendError::InvalidTopK), "InvalidTopKError");
    assert_eq!(node_backend_error_class(&BackendError::Adapter(String::new())), "BackendAdapterError");
    assert_eq!(python_codec_error_class(&dim), "DimensionMismatchError");
    assert_eq!(python_codec_error_class(&bw), "ValueError");
    assert_eq!(python_codec_error_class(&flag), "ValueError");
    assert_eq!(python_backend_error_class(&BackendError::Empty), "RuntimeError");
    assert_eq!(python_backend_error_class(&BackendError::InvalidTopK), "ValueError");
    assert_eq!(python_backend_error_class(&BackendError::Adapter(String::new())), "RuntimeError");
}

#[test]
fn writer_state_counts_records() {
    let mut writer = CodecFileWriter::from_parts(Vec::<u8>::new(), "w", 3, 4, false);
    assert_eq!(writer.vector_count(), 0);
    assert_eq!(writer.config_hash(), "w");
    assert_eq!(writer.dimension(), 3);
    assert_eq!(writer.bit_width(), 4);
    assert!(!writer.residual());
    let cv = CompressedVector::new(vec![1, 2, 3], None, String::from("w"), 3, 4).unwrap();
    let record = writer.record_bytes(&cv);
    assert_eq!(record, encode_record(&cv));
    // 4-byte length prefix, then 70 + 2 + 1 payload bytes
    assert_eq!(&record[..4], &73u32.to_le_bytes());
    assert_eq!(&record[4..], to_bytes(&cv).as_slice());
    writer.file_mut().extend_from_slice(&record);
    writer.record_appended();
    assert_eq!(writer.vector_count(), 1);
    assert_eq!(writer.file_mut().len(), 77);
}

#[test]
fn node_bit_width_conversion() {
    assert_eq!(u32_to_u8_bit_width(4), Ok(4));
    assert_eq!(u32_to_u8_bit_width(255), Ok(255));
    assert_eq!(u32_to_u8_bit_width(256), Err(String::from("bitWidth 256 is out of range for u8")));
    assert_eq!(
        u32_to_u8_bit_width(u32::MAX),
        Err(String::from("bitWidth 4294967295 is out of range for u8"))
    );
}

#[test]
fn magic_flip_alone_finalizes_a_header_with_its_count() {
    let mut enc = encode_header("flip", 16, 2, false, b"m", 5).unwrap();
    enc[..4].copy_from_slice(b"TQCV");
    enc.extend_from_slice(&[9, 9, 9]);
    let h = decode_header(&enc).unwrap();
    assert_eq!(h.vector_count, 5);
    assert_eq!(h.dimension, 16);
    assert_eq!(h.bit_width, 2);
    assert_eq!(h.config_hash, "flip");
    assert_eq!(h.metadata, b"m".to_vec());
    assert_eq!(h.body_offset, enc.len() - 3);
}

#[test]
fn table_names_accepted_and_refused() {
    for ok in ["a", "_", "Z9_", "users_2024", &"b".repeat(63)] {
        assert!(validate_table_name(ok).is_ok(), "{ok} should be accepted");
    }
    for bad in ["", "9a", "a-b", "a b", "é", "a\n", &"b".repeat(64)] {
        assert!(validate_table_name(bad).is_err(), "{bad:?} should be refused");
    }
}
