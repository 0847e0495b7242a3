//! Tests of the pgvector adapter that need no database.

use tinyquant::errors::BackendError;
use tinyquant::pgvector::PgvectorAdapter;

/// Attempt to construct an adapter with the given table name.
/// The constructor validates the name before any DB interaction.
fn validate(name: &str) -> bool {
    PgvectorAdapter::new(name).is_ok()
}

#[test]
fn table_name_accepts_valid() {
    assert!(validate("users"));
}

#[test]
fn table_name_accepts_underscore_prefix() {
    assert!(validate("_my_table"));
}

#[test]
fn table_name_rejects_sql_injection() {
    assert!(!validate("users; DROP TABLE users; --"));
}

#[test]
fn table_name_rejects_leading_digit() {
    assert!(!validate("1users"));
}

#[test]
fn table_name_rejects_dollar() {
    assert!(!validate("u$ers"));
}

#[test]
fn table_name_rejects_too_long() {
    // 64 'a' characters — one over the 63-char limit
    let name = "a".repeat(64);
    assert!(!validate(&name));
}

#[test]
fn table_name_accepts_max_length() {
    // 63 'a' characters — exactly at the limit
    let name = "a".repeat(63);
    assert!(validate(&name));
}

#[test]
fn wire_encode_round_trip() {
    // Wire encoding is exercised through the adapter's ingest and search,
    // which need a database connection.
}

/// Lengths and first non-finite positions of vectors, as ingest takes them.
fn ingest_args(vectors: &[Vec<f32>]) -> (Vec<usize>, Vec<Option<usize>>) {
    (
        vectors.iter().map(Vec::len).collect(),
        vectors.iter().map(|v| v.iter().position(|x| !x.is_finite())).collect(),
    )
}

#[test]
fn wire_encode_rejects_nan() {
    // The NaN check fires before any database connection.
    let mut adapter = PgvectorAdapter::new("test_nan").unwrap();
    let vec_with_nan = vec![1.0_f32, f32::NAN];
    let (lens, non_finite) = ingest_args(&[vec_with_nan]);
    let err = adapter.ingest(&lens, &non_finite).unwrap_err();
    assert!(matches!(err, BackendError::Adapter(_)), "expected Adapter error for NaN, got {err:?}");
}

#[test]
fn wire_encode_rejects_inf() {
    let mut adapter = PgvectorAdapter::new("test_inf").unwrap();
    let vec_with_inf = vec![1.0_f32, f32::INFINITY];
    let (lens, non_finite) = ingest_args(&[vec_with_inf]);
    let err = adapter.ingest(&lens, &non_finite).unwrap_err();
    assert!(matches!(err, BackendError::Adapter(_)), "expected Adapter error for Inf, got {err:?}");
}

#[test]
fn ingest_and_search_without_database() {
    let mut adapter = PgvectorAdapter::new("vectors").unwrap();
    assert_eq!(adapter.ingest(&[], &[]), Ok(()));
    let (lens, non_finite) = ingest_args(&[vec![1.0, 2.0], vec![0.5, f32::NEG_INFINITY, f32::NAN]]);
    assert_eq!(
        adapter.ingest(&lens, &non_finite),
        Err(BackendError::Adapter(String::from("NaN or Inf in vector at index 1")))
    );
    let (lens, non_finite) = ingest_args(&[vec![1.0, 2.0]]);
    let live = BackendError::Adapter(String::from(tinyquant::pgvector::LIVE_DB_REQUIRED));
    assert_eq!(adapter.ingest(&lens, &non_finite), Err(live.clone()));
    assert_eq!(adapter.search(0, None), Err(BackendError::InvalidTopK));
    assert_eq!(adapter.search(0, Some(3)), Err(BackendError::InvalidTopK));
    assert_eq!(
        adapter.search(5, Some(1234)),
        Err(BackendError::Adapter(String::from("NaN or Inf in vector at index 1234")))
    );
    assert_eq!(adapter.search(5, None), Err(live));
}

#[test]
fn placeholder_integration_test() {
    // No-op until integration tests against a live server are wired.
}
