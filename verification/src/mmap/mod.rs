//! Iteration over the records of a memory-mapped Level-2 corpus file.
pub mod corpus_file;
pub mod laws;

pub use corpus_file::CorpusFileIter;
