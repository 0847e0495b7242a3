//! Binary formats of TinyQuant compressed vectors and corpus files.
pub mod abi;
pub mod bits;
pub mod byte_util;
pub mod codec;
pub mod codec_file;
pub mod compressed_vector;
pub mod error_class;
pub mod errors;
pub mod mmap;
pub mod node_args;
pub mod pgvector;
pub mod policy;
pub mod text;
pub mod zero_copy;
