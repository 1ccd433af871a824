//! A one-digit number document: the smallest value type whose encoding can
//! fail.
//!
//! A mutation that stores an unencodable value fails only after the backing
//! file was already cleared — exactly the documented way a synchronized
//! file diverges — so this type makes that path reachable.

use crate::codec::JsonCodec;
use crate::digits::is_digit_byte;
use crate::errors::CodecError;
use vstd::prelude::*;

verus! {

/// A number meant to be written as a single decimal digit; values above
/// nine cannot be encoded, in either formatting mode.
#[derive(Clone, Copy, Debug, PartialEq, Eq, Structural)]
pub struct Digit {
    pub value: u8,
}

impl JsonCodec for Digit {
    open spec fn decodes_to(bytes: Seq<u8>) -> Option<Digit> {
        if bytes.len() == 1 && is_digit_byte(bytes[0]) {
            Some(Digit { value: (bytes[0] - 48) as u8 })
        } else {
            None
        }
    }

    open spec fn can_encode(&self, pretty: bool) -> bool {
        self.value < 10
    }

    open spec fn encoding(&self, pretty: bool) -> Seq<u8> {
        seq![(48 + self.value) as u8]
    }

    fn encode(&self, pretty: bool) -> (r: Result<Vec<u8>, CodecError>)
        ensures
            r is Ok <==> self.can_encode(pretty),
            r matches Ok(bytes) ==> bytes@ == self.encoding(pretty) && Self::decodes_to(bytes@)
                == Some(*self),
            r matches Err(e) ==> e == CodecError::EncodeFailed,
    {
        if self.value >= 10 {
            return Err(CodecError::EncodeFailed);
        }
        let mut v: Vec<u8> = Vec::new();
        v.push(48 + self.value);
        proof {
            assert(v@ =~= self.encoding(pretty));
        }
        Ok(v)
    }

    fn decode(bytes: &Vec<u8>) -> (r: Result<Digit, CodecError>)
        ensures
            r matches Ok(v) ==> Self::decodes_to(bytes@) == Some(v),
            r is Err <==> Self::decodes_to(bytes@) is None,
            r matches Err(e) ==> e == CodecError::DecodeFailed,
    {
        if bytes.len() != 1 {
            return Err(CodecError::DecodeFailed);
        }
        let b = bytes[0];
        if b < 48 || b > 57 {
            return Err(CodecError::DecodeFailed);
        }
        Ok(Digit { value: b - 48 })
    }
}

} // verus!
