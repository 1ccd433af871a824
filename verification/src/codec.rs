//! The serialization capability: a value type that can be encoded to bytes
//! in a compact or a pretty formatting mode, and decoded back.
//!
//! `decodes_to` is the type's own decoding function on byte strings; the
//! contracts of `encode` and `decode` tie both executable directions to it,
//! so that decoding any encoding of a value — whichever formatting mode
//! produced it — yields that value back.

use crate::errors::CodecError;
use vstd::prelude::*;

verus! {

/// A value that can be written as one self-contained textual document and
/// read back.
pub trait JsonCodec: Sized {
    /// What a byte string decodes to: `Some(v)` if it is a well-formed
    /// document for exactly the value `v`, `None` otherwise.
    spec fn decodes_to(bytes: Seq<u8>) -> Option<Self>;

    /// Whether encoding this value succeeds in the given formatting mode.
    spec fn can_encode(&self, pretty: bool) -> bool;

    /// The byte form that encoding this value produces in the given mode.
    spec fn encoding(&self, pretty: bool) -> Seq<u8>;

    /// Encodes the value; `pretty` selects human-readable formatting.
    ///
    /// Whatever the mode, a successful encoding decodes back to the value.
    fn encode(&self, pretty: bool) -> (r: Result<Vec<u8>, CodecError>)
        ensures
            r is Ok <==> self.can_encode(pretty),
            r matches Ok(bytes) ==> bytes@ == self.encoding(pretty) && Self::decodes_to(bytes@)
                == Some(*self),
            r matches Err(e) ==> e == CodecError::EncodeFailed,
    ;

    /// Decodes a full byte string into a value.
    fn decode(bytes: &Vec<u8>) -> (r: Result<Self, CodecError>)
        ensures
            r matches Ok(v) ==> Self::decodes_to(bytes@) == Some(v),
            r is Err <==> Self::decodes_to(bytes@) is None,
            r matches Err(e) ==> e == CodecError::DecodeFailed,
    ;
}

/// Formatting is neutral: if two byte strings — say, one written in compact
/// mode and one in pretty mode — both decode to the value `v`, the decoded
/// results are equal.  Together with the contract of `encode`, which owes
/// this premise for both modes whenever encoding succeeds, decoding either
/// mode's file yields the same value.
pub proof fn lemma_pretty_mode_neutral<T: JsonCodec>(v: T, compact: Seq<u8>, pretty: Seq<u8>)
    requires
        T::decodes_to(compact) == Some(v),
        T::decodes_to(pretty) == Some(v),
    ensures
        T::decodes_to(compact) == T::decodes_to(pretty),
{
}

} // verus!
