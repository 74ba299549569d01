//! Error taxonomy for archive parsing and extraction.
//!
//! Every variant carries the byte offset at which the condition was detected,
//! to aid diagnosis.  No error is ever silently swallowed.

use vstd::prelude::*;

verus! {

/// Errors raised while locating, decoding or validating archive records.
#[derive(Clone, Copy, Debug, PartialEq, Eq, Structural)]
pub enum ZipError {
    /// The stream ended before a declared length was satisfied.
    Truncated { offset: usize },
    /// A mandatory record signature was absent at the expected offset.
    SignatureMismatch { offset: usize },
    /// No end-of-central-directory signature was found in the trailing window.
    EndRecordNotFound { offset: usize },
    /// Sentinel fields demand a ZIP64 record, but no locator precedes the
    /// end-of-central-directory record.
    Zip64LocatorMissing { offset: usize },
    /// The stream ended before the declared number of central directory
    /// headers could be decoded.
    TruncatedDirectory { offset: usize },
    /// A local file header disagrees with the central directory entry that
    /// points at it; the central directory wins.
    InconsistentEntry { offset: usize },
    /// The CRC-32 recomputed over decoded bytes disagrees with the recorded
    /// value.
    CrcMismatch { offset: usize, recorded: u32, computed: u32 },
    /// The entry uses a compression method that only an external codec can
    /// decode.
    CodecError { offset: usize, method: u16 },
}

} // verus!
