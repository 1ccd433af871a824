//! A record with one integer field, `{"count": n}`, with a verified codec:
//! the value type of the worked example for a synchronized file.
//!
//! The compact form is `{"count":N}`; the pretty form spreads the record
//! over three lines with two-space indentation.  Decoding accepts exactly
//! these two framings around a run of decimal digits.

use crate::codec::JsonCodec;
use crate::digits::all_digit_bytes;
use crate::digits::dec_digits;
use crate::digits::dec_val;
use crate::digits::is_digit_byte;
use crate::digits::lemma_dec_digits_wf;
use crate::digits::lemma_dec_val_of_digits;
use crate::digits::parse_dec;
use crate::digits::u64_to_dec;
use crate::errors::CodecError;
use vstd::prelude::*;

verus! {

/// A counter record: one unsigned integer field.
#[derive(Clone, Copy, Debug, PartialEq, Eq, Structural)]
pub struct Counter {
    pub count: u64,
}

/// The bytes of `{"count":`.
pub open spec fn compact_prefix() -> Seq<u8> {
    seq![123u8, 34u8, 99u8, 111u8, 117u8, 110u8, 116u8, 34u8, 58u8]
}

/// The bytes of `}`.
pub open spec fn compact_suffix() -> Seq<u8> {
    seq![125u8]
}

/// The bytes of `{`, a line break, two spaces, `"count":` and a space.
pub open spec fn pretty_prefix() -> Seq<u8> {
    seq![123u8, 10u8, 32u8, 32u8, 34u8, 99u8, 111u8, 117u8, 110u8, 116u8, 34u8, 58u8, 32u8]
}

/// The bytes of a line break and `}`.
pub open spec fn pretty_suffix() -> Seq<u8> {
    seq![10u8, 125u8]
}

/// The compact encoding of a count.
pub open spec fn counter_compact(n: nat) -> Seq<u8> {
    compact_prefix() + dec_digits(n) + compact_suffix()
}

/// The pretty encoding of a count.
pub open spec fn counter_pretty(n: nat) -> Seq<u8> {
    pretty_prefix() + dec_digits(n) + pretty_suffix()
}

/// The body between a prefix and a suffix, if `b` carries both and at least
/// one byte in between.
pub open spec fn strip_frame(b: Seq<u8>, pre: Seq<u8>, suf: Seq<u8>) -> Option<Seq<u8>> {
    if b.len() > pre.len() + suf.len() && b.subrange(0, pre.len() as int) == pre && b.subrange(
        b.len() - suf.len(),
        b.len() as int,
    ) == suf {
        Some(b.subrange(pre.len() as int, b.len() - suf.len()))
    } else {
        None
    }
}

/// The count a framed digit body stands for, if the digits fit a `u64`.
pub open spec fn body_value(body: Seq<u8>) -> Option<u64> {
    if all_digit_bytes(body) && dec_val(body) <= u64::MAX {
        Some(dec_val(body) as u64)
    } else {
        None
    }
}

impl JsonCodec for Counter {
    open spec fn decodes_to(bytes: Seq<u8>) -> Option<Counter> {
        match strip_frame(bytes, compact_prefix(), compact_suffix()) {
            Some(body) => match body_value(body) {
                Some(v) => Some(Counter { count: v }),
                None => None,
            },
            None => match strip_frame(bytes, pretty_prefix(), pretty_suffix()) {
                Some(body) => match body_value(body) {
                    Some(v) => Some(Counter { count: v }),
                    None => None,
                },
                None => None,
            },
        }
    }

    open spec fn can_encode(&self, pretty: bool) -> bool {
        true
    }

    open spec fn encoding(&self, pretty: bool) -> Seq<u8> {
        if pretty {
            counter_pretty(self.count as nat)
        } else {
            counter_compact(self.count as nat)
        }
    }

    fn encode(&self, pretty: bool) -> (r: Result<Vec<u8>, CodecError>)
        ensures
            r is Ok <==> self.can_encode(pretty),
            r matches Ok(bytes) ==> bytes@ == self.encoding(pretty) && Self::decodes_to(bytes@)
                == Some(*self),
            r matches Err(e) ==> e == CodecError::EncodeFailed,
    {
        let digits = u64_to_dec(self.count);
        let mut out: Vec<u8> = Vec::new();
        if pretty {
            out.push(123);
            out.push(10);
            out.push(32);
            out.push(32);
        } else {
            out.push(123);
        }
        out.push(34);
        out.push(99);
        out.push(111);
        out.push(117);
        out.push(110);
        out.push(116);
        out.push(34);
        out.push(58);
        if pretty {
            out.push(32);
        }
        append_bytes(&mut out, &digits);
        if pretty {
            out.push(10);
        }
        out.push(125);
        proof {
            if pretty {
                assert(out@ =~= counter_pretty(self.count as nat));
                lemma_pretty_decodes(self.count);
            } else {
                assert(out@ =~= counter_compact(self.count as nat));
                lemma_compact_decodes(self.count);
            }
        }
        Ok(out)
    }

    fn decode(bytes: &Vec<u8>) -> (r: Result<Counter, CodecError>)
        ensures
            r matches Ok(v) ==> Self::decodes_to(bytes@) == Some(v),
            r is Err <==> Self::decodes_to(bytes@) is None,
            r matches Err(e) ==> e == CodecError::DecodeFailed,
    {
        let compact = decode_framed(bytes, false);
        match compact {
            Some(r) => {
                return r;
            },
            None => {},
        }
        let pretty = decode_framed(bytes, true);
        match pretty {
            Some(r) => {
                return r;
            },
            None => {},
        }
        Err(CodecError::DecodeFailed)
    }
}

/// Builds the frame bytes of the chosen mode: the prefix when `suffix` is
/// false, the suffix when it is true.
fn frame_bytes(pretty: bool, suffix: bool) -> (r: Vec<u8>)
    ensures
        !pretty && !suffix ==> r@ == compact_prefix(),
        !pretty && suffix ==> r@ == compact_suffix(),
        pretty && !suffix ==> r@ == pretty_prefix(),
        pretty && suffix ==> r@ == pretty_suffix(),
{
    let mut v: Vec<u8> = Vec::new();
    if suffix {
        if pretty {
            v.push(10);
        }
        v.push(125);
        proof {
            if pretty {
                assert(v@ =~= pretty_suffix());
            } else {
                assert(v@ =~= compact_suffix());
            }
        }
        return v;
    }
    if pretty {
        v.push(123);
        v.push(10);
        v.push(32);
        v.push(32);
    } else {
        v.push(123);
    }
    v.push(34);
    v.push(99);
    v.push(111);
    v.push(117);
    v.push(110);
    v.push(116);
    v.push(34);
    v.push(58);
    if pretty {
        v.push(32);
    }
    proof {
        if pretty {
            assert(v@ =~= pretty_prefix());
        } else {
            assert(v@ =~= compact_prefix());
        }
    }
    v
}

/// Appends the bytes of `src` to `dst`.
fn append_bytes(dst: &mut Vec<u8>, src: &Vec<u8>)
    ensures
        final(dst)@ == old(dst)@ + src@,
{
    let mut i: usize = 0;
    while i < src.len()
        invariant
            i <= src.len(),
            dst@ == old(dst)@ + src@.subrange(0, i as int),
        decreases src.len() - i,
    {
        dst.push(src[i]);
        proof {
            assert(old(dst)@ + src@.subrange(0, i + 1) =~= (old(dst)@ + src@.subrange(
                0,
                i as int,
            )).push(src@[i as int]));
        }
        i = i + 1;
    }
    proof {
        assert(src@.subrange(0, src@.len() as int) =~= src@);
    }
}

/// Whether `pat` occurs in `b` starting at `at`.
fn match_at(b: &Vec<u8>, pat: &Vec<u8>, at: usize) -> (r: bool)
    requires
        at + pat@.len() <= b@.len(),
    ensures
        r == (b@.subrange(at as int, at + pat@.len()) == pat@),
{
    let m = b.len();
    let n = pat.len();
    let mut i: usize = 0;
    while i < n
        invariant
            i <= n,
            n == pat@.len(),
            m == b@.len(),
            at + n <= m,
            forall|j: int| 0 <= j < i ==> b@[at + j] == pat@[j],
        decreases n - i,
    {
        if b[at + i] != pat[i] {
            proof {
                assert(b@.subrange(at as int, at + pat@.len())[i as int] == b@[at + i]);
            }
            return false;
        }
        i = i + 1;
    }
    proof {
        assert(b@.subrange(at as int, at + pat@.len()) =~= pat@);
    }
    true
}

/// Whether every byte of `b` between `start` and `end` is a decimal digit.
fn all_digits_range(b: &Vec<u8>, start: usize, end: usize) -> (r: bool)
    requires
        start <= end <= b@.len(),
    ensures
        r == all_digit_bytes(b@.subrange(start as int, end as int)),
{
    let ghost t = b@.subrange(start as int, end as int);
    let mut i: usize = start;
    while i < end
        invariant
            start <= i <= end <= b@.len(),
            t == b@.subrange(start as int, end as int),
            forall|j: int| 0 <= j < i - start ==> is_digit_byte(#[trigger] t[j]),
        decreases end - i,
    {
        let v = b[i];
        proof {
            assert(t[i - start] == b@[i as int]);
        }
        if v < 48 || v > 57 {
            return false;
        }
        i = i + 1;
    }
    true
}

/// Tries to read `bytes` as one mode's framing; `None` means the frame does
/// not fit, `Some(r)` carries the decoding result for a fitting frame.
fn decode_framed(bytes: &Vec<u8>, pretty: bool) -> (res: Option<Result<Counter, CodecError>>)
    ensures
        res is Some <==> strip_frame(
            bytes@,
            if pretty {
                pretty_prefix()
            } else {
                compact_prefix()
            },
            if pretty {
                pretty_suffix()
            } else {
                compact_suffix()
            },
        ) is Some,
        res matches Some(r) ==> {
            let body = strip_frame(
                bytes@,
                if pretty {
                    pretty_prefix()
                } else {
                    compact_prefix()
                },
                if pretty {
                    pretty_suffix()
                } else {
                    compact_suffix()
                },
            )->Some_0;
            match body_value(body) {
                Some(v) => r matches Ok(c) && c == (Counter { count: v }),
                None => r == Err::<Counter, CodecError>(CodecError::DecodeFailed),
            }
        },
{
    let pre = frame_bytes(pretty, false);
    let suf = frame_bytes(pretty, true);
    if bytes.len() <= pre.len() + suf.len() {
        return None;
    }
    if !match_at(bytes, &pre, 0) {
        return None;
    }
    let suf_at = bytes.len() - suf.len();
    if !match_at(bytes, &suf, suf_at) {
        return None;
    }
    let start = pre.len();
    let end = suf_at;
    if !all_digits_range(bytes, start, end) {
        return Some(Err(CodecError::DecodeFailed));
    }
    match parse_dec(bytes, start, end) {
        Some(v) => Some(Ok(Counter { count: v })),
        None => Some(Err(CodecError::DecodeFailed)),
    }
}

/// The compact encoding of a count decodes to exactly that counter.
pub proof fn lemma_compact_decodes(n: u64)
    ensures
        Counter::decodes_to(counter_compact(n as nat)) == Some(Counter { count: n }),
{
    lemma_dec_digits_wf(n as nat);
    lemma_dec_val_of_digits(n as nat);
    let b = counter_compact(n as nat);
    let d = dec_digits(n as nat);
    assert(b.subrange(0, 9) =~= compact_prefix());
    assert(b.subrange(b.len() - 1, b.len() as int) =~= compact_suffix());
    assert(b.subrange(9, b.len() - 1) =~= d);
    assert(strip_frame(b, compact_prefix(), compact_suffix()) == Some(d));
    assert(body_value(d) == Some(n));
}

/// The pretty encoding of a count decodes to exactly that counter: the
/// formatting mode does not change the decoded value.
pub proof fn lemma_pretty_decodes(n: u64)
    ensures
        Counter::decodes_to(counter_pretty(n as nat)) == Some(Counter { count: n }),
{
    lemma_dec_digits_wf(n as nat);
    lemma_dec_val_of_digits(n as nat);
    let b = counter_pretty(n as nat);
    let d = dec_digits(n as nat);
    assert(b[1] == 10u8);
    assert(compact_prefix()[1] == 34u8);
    assert(b.subrange(0, 9)[1] == b[1]);
    assert(b.subrange(0, 9) != compact_prefix());
    assert(strip_frame(b, compact_prefix(), compact_suffix()) is None);
    assert(b.subrange(0, 13) =~= pretty_prefix());
    assert(b.subrange(b.len() - 2, b.len() as int) =~= pretty_suffix());
    assert(b.subrange(13, b.len() - 2) =~= d);
    assert(strip_frame(b, pretty_prefix(), pretty_suffix()) == Some(d));
    assert(body_value(d) == Some(n));
}

} // verus!
