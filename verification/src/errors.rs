//! Error taxonomy of the library.
//!
//! Every fallible operation reports its failure through these types; nothing
//! is retried or swallowed, and no operation panics.

use vstd::prelude::*;

verus! {

/// Tags which half of the internal clear step failed.
///
/// Clearing the backing file is two sequential operations: truncate to zero
/// length, then seek back to the start.  Each failure is kept distinct so a
/// caller can tell which half went wrong.  The in-memory file model of this
/// crate cannot fail either step, but the store contract keeps both outcomes
/// representable.
#[derive(Clone, Copy, Debug, PartialEq, Eq, Structural)]
pub enum ClearFileError {
    /// Truncating the file to zero length failed.
    SetLenFailed,
    /// Repositioning the cursor to the start failed.
    SeekFailed,
}

/// Tags whether a codec failure happened while encoding or while decoding.
#[derive(Clone, Copy, Debug, PartialEq, Eq, Structural)]
pub enum CodecError {
    /// The value could not be encoded.
    EncodeFailed,
    /// The bytes did not decode to a value (malformed or mismatched content).
    DecodeFailed,
}

/// The error type of every public operation on a synchronized file.
#[derive(Debug)]
pub enum FileSyncError {
    /// Construction was requested at a path that is already occupied.
    /// Carries the offending path.
    FileAlreadyExists { fp: String },
    /// The underlying store failed; in the in-memory model this arises only
    /// from opening a path that does not exist.
    IoError,
    /// Encoding or decoding failed; carries the codec's failure.
    SerializationError(CodecError),
    /// The internal clear step failed; carries which half failed.
    ClearFile(ClearFileError),
}

} // verus!
