//! Zero-copy views into serialized `CompressedVector` data.
pub mod view;

pub use view::CompressedVectorView;
pub mod cursor;
pub mod laws;
