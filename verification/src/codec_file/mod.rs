//! Level-2 TQCV corpus file container.
pub mod header;
pub mod writer;
pub mod reader;
pub mod metadata;
pub mod laws;
pub mod layout;
pub mod stream_laws;

pub use header::CorpusFileHeader;
pub use metadata::MetadataBlob;
pub use reader::CodecFileReader;
pub use writer::CodecFileWriter;
