//! A small container that keeps one in-memory value and one backing file in
//! sync: every successful mutation rewrites the file so that its full contents
//! decode to the stored value.
//!
//! The filesystem is modelled by [`memfs::Fs`], a map from paths to byte
//! contents, and the serialization capability by the [`codec::JsonCodec`]
//! trait; [`counter::Counter`] is a value type with a verified codec.

pub mod codec;
pub mod counter;
pub mod digit;
pub mod digits;
pub mod errors;
pub mod memfs;
pub mod sync;

pub use codec::JsonCodec;
pub use counter::Counter;
pub use digit::Digit;
pub use errors::ClearFileError;
pub use errors::CodecError;
pub use errors::FileSyncError;
pub use memfs::Fs;
pub use sync::FileSync;
