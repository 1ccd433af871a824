//! Decimal digit strings: the mathematical form of an unsigned integer as
//! ASCII bytes, with verified conversion in both directions.

use vstd::prelude::*;

verus! {

/// An ASCII decimal digit.
pub open spec fn is_digit_byte(b: u8) -> bool {
    48 <= b <= 57
}

/// The digit byte for a single decimal digit.
pub open spec fn digit_byte(d: nat) -> u8
    recommends
        d < 10,
{
    (48 + d) as u8
}

/// The canonical decimal digit string of `n`: no leading zeros, at least one
/// digit.
pub open spec fn dec_digits(n: nat) -> Seq<u8>
    decreases n,
{
    if n < 10 {
        seq![digit_byte(n)]
    } else {
        dec_digits(n / 10).push(digit_byte(n % 10))
    }
}

/// Every byte of `s` is a decimal digit.
pub open spec fn all_digit_bytes(s: Seq<u8>) -> bool {
    forall|i: int| 0 <= i < s.len() ==> is_digit_byte(#[trigger] s[i])
}

/// The value of a digit string, most significant digit first.
pub open spec fn dec_val(s: Seq<u8>) -> nat
    recommends
        all_digit_bytes(s),
    decreases s.len(),
{
    if s.len() == 0 {
        0
    } else {
        (dec_val(s.drop_last()) * 10 + (s.last() - 48)) as nat
    }
}

/// The canonical digit string is nonempty and made of digits.
pub proof fn lemma_dec_digits_wf(n: nat)
    ensures
        dec_digits(n).len() >= 1,
        all_digit_bytes(dec_digits(n)),
    decreases n,
{
    if n < 10 {
        assert(dec_digits(n) == seq![digit_byte(n)]);
    } else {
        lemma_dec_digits_wf(n / 10);
        let s = dec_digits(n / 10);
        let t = dec_digits(n);
        assert(t == s.push(digit_byte(n % 10)));
        assert forall|i: int| 0 <= i < t.len() implies is_digit_byte(#[trigger] t[i]) by {
            if i < s.len() {
                assert(t[i] == s[i]);
            } else {
                assert(t[i] == digit_byte(n % 10));
            }
        }
    }
}

/// Appending a digit multiplies the value by ten and adds the digit.
pub proof fn lemma_dec_val_push(s: Seq<u8>, b: u8)
    requires
        is_digit_byte(b),
    ensures
        dec_val(s.push(b)) == dec_val(s) * 10 + (b - 48),
{
    let t = s.push(b);
    assert(t.drop_last() =~= s);
    assert(t.last() == b);
}

/// Reading the canonical digit string back gives the number itself.
pub proof fn lemma_dec_val_of_digits(n: nat)
    ensures
        dec_val(dec_digits(n)) == n,
    decreases n,
{
    if n < 10 {
        let s = dec_digits(n);
        assert(s.drop_last() =~= Seq::<u8>::empty());
        assert(dec_val(s) == dec_val(s.drop_last()) * 10 + (s.last() - 48));
        assert(dec_val(s) == n);
    } else {
        lemma_dec_val_of_digits(n / 10);
        lemma_dec_val_push(dec_digits(n / 10), digit_byte(n % 10));
        assert(n / 10 * 10 + n % 10 == n) by {
            vstd::arithmetic::div_mod::lemma_fundamental_div_mod(n as int, 10);
        }
    }
}

/// A digit string is worth at least any of its prefixes.
pub proof fn lemma_dec_val_prefix_le(s: Seq<u8>, i: int)
    requires
        all_digit_bytes(s),
        0 <= i <= s.len(),
    ensures
        dec_val(s.subrange(0, i)) <= dec_val(s),
    decreases s.len() - i,
{
    if i == s.len() {
        assert(s.subrange(0, i) =~= s);
    } else {
        lemma_dec_val_prefix_le(s, i + 1);
        let p = s.subrange(0, i);
        let q = s.subrange(0, i + 1);
        assert(q =~= p.push(s[i]));
        lemma_dec_val_push(p, s[i]);
        assert(dec_val(p) <= dec_val(p) * 10 + (s[i] - 48));
    }
}

/// Converts `n` to its canonical decimal digit string.
pub fn u64_to_dec(n: u64) -> (r: Vec<u8>)
    ensures
        r@ == dec_digits(n as nat),
    decreases n,
{
    if n < 10 {
        let mut v: Vec<u8> = Vec::new();
        v.push(48 + n as u8);
        proof {
            assert(v@ =~= dec_digits(n as nat));
        }
        v
    } else {
        let mut v = u64_to_dec(n / 10);
        v.push(48 + (n % 10) as u8);
        proof {
            assert(v@ =~= dec_digits(n as nat));
        }
        v
    }
}

/// Parses the digit bytes of `s` between `start` and `end` as a `u64`.
///
/// Returns `None` exactly when the digits are worth more than `u64::MAX`.
pub fn parse_dec(s: &Vec<u8>, start: usize, end: usize) -> (r: Option<u64>)
    requires
        start < end <= s@.len(),
        all_digit_bytes(s@.subrange(start as int, end as int)),
    ensures
        r matches Some(v) ==> v as nat == dec_val(s@.subrange(start as int, end as int)),
        r is None <==> dec_val(s@.subrange(start as int, end as int)) > u64::MAX,
{
    let ghost t = s@.subrange(start as int, end as int);
    let mut acc: u64 = 0;
    let mut i: usize = start;
    while i < end
        invariant
            start <= i <= end <= s@.len(),
            t == s@.subrange(start as int, end as int),
            all_digit_bytes(t),
            acc as nat == dec_val(t.subrange(0, i - start)),
        decreases end - i,
    {
        let b = s[i];
        proof {
            assert(t[i - start] == b);
            assert(is_digit_byte(b));
        }
        let d = b - 48;
        proof {
            let p = t.subrange(0, i - start);
            let q = t.subrange(0, i + 1 - start);
            assert(q =~= p.push(b));
            lemma_dec_val_push(p, b);
        }
        let shifted = match acc.checked_mul(10) {
            Some(m) => m,
            None => {
                proof {
                    lemma_dec_val_prefix_le(t, i + 1 - start);
                }
                return None;
            },
        };
        acc = match shifted.checked_add(d as u64) {
            Some(a) => a,
            None => {
                proof {
                    lemma_dec_val_prefix_le(t, i + 1 - start);
                }
                return None;
            },
        };
        i = i + 1;
    }
    proof {
        assert(t.subrange(0, end - start) =~= t);
    }
    Some(acc)
}

} // verus!
