//! `CompressedVector` binary serialization (Level-1 wire format).
pub mod pack;
pub mod unpack;
pub mod header;
pub mod from_bytes;
pub mod to_bytes;
pub mod laws;
pub mod layout;

pub use from_bytes::from_bytes;
pub use header::HEADER_SIZE;
pub use to_bytes::to_bytes;
