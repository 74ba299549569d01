//! Structural reader and writer for the ZIP archive container format.
//!
//! The crate locates, parses, validates and serializes the metadata records
//! that describe what files an archive holds and where their compressed bytes
//! live.  It never decompresses payload bytes itself: compressed byte ranges
//! and a compression-method identifier are handed to an external codec.

pub mod archive;
pub mod codec;
pub mod crc;
pub mod errors;
pub mod extract;
pub mod laws;
pub mod le;
pub mod records;
pub mod writer;
pub mod zip64;

pub use errors::ZipError;
