//! Rejection tests: malformed inputs must produce specific `IoError` variants.

use tinyquant::codec::CompressedVector;
use tinyquant::codec_file::reader::{
    check_record_len, config_hash_len_from_fixed, decode_streamed_header, header_remaining_len,
    CodecFileReader,
};
use tinyquant::compressed_vector::{from_bytes, to_bytes};
use tinyquant::errors::{CodecError, IoError};

/// Build a minimal valid serialized payload for bw=8, dim=4, no residual.
fn valid_payload() -> Vec<u8> {
    let indices = vec![0u8, 1, 2, 3];
    let cv = CompressedVector::new(indices, None, String::from("test"), 4, 8).unwrap();
    to_bytes(&cv)
}

#[test]
fn truncated_at_69_bytes_errors() {
    let payload = valid_payload();
    let short = &payload[..69];
    let err = from_bytes(short).unwrap_err();
    assert!(
        matches!(err, IoError::Truncated { needed: 70, got: 69 }),
        "expected Truncated{{needed:70,got:69}}, got: {err:?}"
    );
}

#[test]
fn empty_slice_errors() {
    let err = from_bytes(&[]).unwrap_err();
    assert!(matches!(err, IoError::Truncated { .. }), "expected Truncated, got: {err:?}");
}

#[test]
fn unknown_version_errors() {
    let mut payload = valid_payload();
    payload[0] = 0x02; // corrupt version byte
    let err = from_bytes(&payload).unwrap_err();
    assert!(
        matches!(err, IoError::UnknownVersion { got: 0x02 }),
        "expected UnknownVersion{{got:0x02}}, got: {err:?}"
    );
}

#[test]
fn invalid_bit_width_errors() {
    let mut payload = valid_payload();
    payload[69] = 3; // bit_width=3 is not in {2,4,8}
    let err = from_bytes(&payload).unwrap_err();
    assert!(
        matches!(err, IoError::InvalidBitWidth { got: 3 }),
        "expected InvalidBitWidth{{got:3}}, got: {err:?}"
    );
}

#[test]
fn invalid_utf8_in_config_hash_errors() {
    let mut payload = valid_payload();
    payload[1] = 0xFF; // first byte of config_hash is not valid UTF-8
    let err = from_bytes(&payload).unwrap_err();
    assert!(matches!(err, IoError::InvalidUtf8), "expected InvalidUtf8, got: {err:?}");
}

#[test]
fn invalid_residual_flag_errors() {
    // Build bw=8, dim=4, no residual: flag is at offset 70+4=74
    let mut payload = valid_payload();
    let flag_offset = 70 + 4; // header=70, packed=dim*bw/8=4*8/8=4
    payload[flag_offset] = 0x02; // invalid residual flag
    let err = from_bytes(&payload).unwrap_err();
    assert!(
        matches!(err, IoError::Decode(CodecError::InvalidResidualFlag { got: 0x02 })),
        "expected Decode(InvalidResidualFlag{{got:0x02}}), got: {err:?}"
    );
}

#[test]
fn truncated_after_flag_errors() {
    // Build bw=8, dim=4, with residual but truncate after the flag byte
    let indices = vec![0u8, 1, 2, 3];
    let residual = vec![0u8; 8]; // 2*dim
    let cv = CompressedVector::new(indices, Some(residual), String::from("test"), 4, 8).unwrap();
    let full = to_bytes(&cv);
    let flag_offset = 70 + 4; // 74
    let truncated = &full[..flag_offset + 2]; // only 2 bytes of the 4-byte rlen field
    let err = from_bytes(truncated).unwrap_err();
    assert!(matches!(err, IoError::Truncated { .. }), "expected Truncated, got: {err:?}");
}

/// Verify that `From<std::io::Error>` is implemented (compile-time check).
#[test]
fn from_io_error_compiles() {
    let io_err = std::io::Error::new(std::io::ErrorKind::NotFound, "not found");
    let tq_err: IoError = io_err.into();
    assert!(matches!(tq_err, IoError::Io(_)), "expected IoError::Io variant, got: {tq_err:?}");
}

/// Verify that `From<CodecError>` is implemented (compile-time check).
#[test]
fn from_codec_error_compiles() {
    let codec_err = CodecError::UnsupportedBitWidth { got: 3 };
    let tq_err: IoError = codec_err.into();
    assert!(
        matches!(tq_err, IoError::Decode(_)),
        "expected IoError::Decode variant, got: {tq_err:?}"
    );
}

/// A Level-2 header whose metadata_len field exceeds the decode-time cap is
/// rejected by the streaming reader before any metadata is read.
#[test]
fn oversized_metadata_len_in_codec_file_header_rejected() {
    // Fixed 24-byte header: magic=TQCV, version=0x01, reserved=[0;3],
    // vector_count=1, dimension=4, bit_width=8, residual=0, config_hash_len=4
    let mut buf: Vec<u8> = Vec::new();
    buf.extend_from_slice(b"TQCV"); // magic
    buf.push(0x01); // version
    buf.extend_from_slice(&[0u8; 3]); // reserved
    buf.extend_from_slice(&1u64.to_le_bytes()); // vector_count
    buf.extend_from_slice(&4u32.to_le_bytes()); // dimension=4
    buf.push(8u8); // bit_width=8
    buf.push(0u8); // residual=false
    buf.extend_from_slice(&4u16.to_le_bytes()); // config_hash_len=4
    buf.extend_from_slice(b"test"); // 4-byte config hash
    // metadata_len = MAX_METADATA_LEN + 1 = 16 MiB + 1
    let bad_len: u32 = (16 * 1024 * 1024 + 1) as u32;
    buf.extend_from_slice(&bad_len.to_le_bytes());
    // Stream ends here — no metadata bytes present

    let config_hash_len = config_hash_len_from_fixed(&buf[..24]).unwrap();
    assert_eq!(config_hash_len, 4);
    match header_remaining_len(config_hash_len, &buf[24..24 + config_hash_len + 4]) {
        Err(IoError::InvalidHeader) => {}
        Err(e) => panic!("expected InvalidHeader for oversized metadata_len, got: {e:?}"),
        Ok(_) => panic!("expected Err for oversized metadata_len, got Ok"),
    }
}

/// A valid Level-2 header followed by a record_len field that exceeds the
/// derived per-header maximum: the reader rejects before reading the record.
#[test]
fn oversized_record_len_in_codec_file_rejected() {
    // config_hash_len=0, metadata_len=0 → header_end=28, body_offset=32
    let mut buf: Vec<u8> = Vec::new();
    buf.extend_from_slice(b"TQCV"); // magic
    buf.push(0x01); // version
    buf.extend_from_slice(&[0u8; 3]); // reserved
    buf.extend_from_slice(&1u64.to_le_bytes()); // vector_count=1
    buf.extend_from_slice(&4u32.to_le_bytes()); // dimension=4
    buf.push(8u8); // bit_width=8
    buf.push(0u8); // residual=false
    buf.extend_from_slice(&0u16.to_le_bytes()); // config_hash_len=0
    buf.extend_from_slice(&0u32.to_le_bytes()); // metadata_len field = 0
    buf.extend_from_slice(&[0u8; 4]); // padding to body_offset=32
    // MAX_RECORD_LEN = 4 MiB; use 4 MiB + 1
    let bad_record_len: u32 = 4 * 1024 * 1024 + 1;
    buf.extend_from_slice(&bad_record_len.to_le_bytes());

    let config_hash_len = config_hash_len_from_fixed(&buf[..24]).unwrap();
    let var_end = 24 + config_hash_len + 4;
    let rest_len = header_remaining_len(config_hash_len, &buf[24..var_end]).unwrap();
    let body_offset = var_end + rest_len;
    assert_eq!(body_offset, 32);
    let header =
        decode_streamed_header(&buf[..24], &buf[24..var_end], &buf[var_end..body_offset]).unwrap();
    let reader = CodecFileReader::from_parts((), header);
    let limit = reader.next_record_limit().unwrap();
    let err = check_record_len(&buf[body_offset..body_offset + 4], limit).unwrap_err();
    assert!(
        matches!(err, IoError::InvalidHeader),
        "expected InvalidHeader for oversized record_len, got: {err:?}"
    );
}

/// An extreme dimension value in the Level-1 header does not cause integer
/// overflow or a panic in `from_bytes`.
#[test]
fn extreme_dimension_does_not_panic_in_from_bytes() {
    // A 70-byte Level-1 header with dimension = u32::MAX and bit_width = 8.
    let mut buf = vec![0u8; 70];
    buf[0] = 0x01; // FORMAT_VERSION
    buf[65..69].copy_from_slice(&u32::MAX.to_le_bytes());
    buf[69] = 8; // bit_width = 8
    let result = from_bytes(&buf);
    assert!(result.is_err(), "expected error for extreme dimension, got success");
}
