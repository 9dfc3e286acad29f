//! Decimal strings: parsing and formatting.
//!
//! The wire format keeps numeric fields as fixed-width, zero-padded
//! digit runs; their numeric value appears only in the serialized
//! reading. Parsing and formatting are verified against one pair of
//! specification functions, [`dec_val`] and [`dec_str`].

use vstd::prelude::*;
use vstd::utf8::decode_utf8;

use crate::textenc::{bytes_to_string, lemma_ascii_decode};

verus! {

/// Whether a character sequence is a nonempty run of decimal digits.
pub open spec fn is_digits(s: Seq<char>) -> bool {
    s.len() > 0 && forall|i: int| 0 <= i < s.len() ==> '0' <= #[trigger] s[i] <= '9'
}

/// Numeric value of a digit run, most significant digit first.
pub open spec fn dec_val(s: Seq<char>) -> int
    decreases s.len(),
{
    if s.len() == 0 {
        0
    } else {
        dec_val(s.drop_last()) * 10 + (s.last() as int - '0' as int)
    }
}

/// The digit character of a value below ten.
pub open spec fn digit_char(d: int) -> char {
    ((48 + d) as u8) as char
}

/// The canonical decimal digits of a nonnegative value: no sign, no
/// leading zeros except for zero itself.
pub open spec fn dec_str(n: int) -> Seq<char>
    decreases n,
{
    if n < 0 {
        Seq::empty()
    } else if n < 10 {
        seq![digit_char(n)]
    } else {
        dec_str(n / 10).push(digit_char(n % 10))
    }
}

/// A digit run has a nonnegative value.
pub proof fn lemma_dec_val_nonneg(s: Seq<char>)
    requires
        forall|i: int| 0 <= i < s.len() ==> '0' <= #[trigger] s[i] <= '9',
    ensures
        dec_val(s) >= 0,
    decreases s.len(),
{
    if s.len() > 0 {
        lemma_dec_val_nonneg(s.drop_last());
    }
}

/// A prefix of a digit run is worth no more than the whole run.
pub proof fn lemma_dec_val_prefix(s: Seq<char>, k: int)
    requires
        0 <= k <= s.len(),
        forall|i: int| 0 <= i < s.len() ==> '0' <= #[trigger] s[i] <= '9',
    ensures
        dec_val(s.subrange(0, k)) <= dec_val(s),
    decreases s.len() - k,
{
    if k == s.len() {
        assert(s.subrange(0, k) =~= s);
    } else {
        lemma_dec_val_prefix(s, k + 1);
        assert(s.subrange(0, k + 1).drop_last() =~= s.subrange(0, k));
        assert(s.subrange(0, k + 1).last() == s[k]);
        lemma_dec_val_nonneg(s.subrange(0, k));
    }
}

/// The canonical digits of a value are digits, at least one of them.
pub proof fn lemma_dec_str_digits(n: int)
    requires
        n >= 0,
    ensures
        dec_str(n).len() >= 1,
        forall|i: int| 0 <= i < dec_str(n).len() ==> '0' <= #[trigger] dec_str(n)[i] <= '9',
    decreases n,
{
    if n >= 10 {
        lemma_dec_str_digits(n / 10);
    }
}

/// Parses a run of decimal digits.
///
/// Returns the numeric value exactly when the text is a nonempty,
/// all-digit run whose value fits; anything else comes back empty.
pub fn parse_decimal(s: &str) -> (r: Option<u64>)
    ensures
        r is Some <==> is_digits(s@) && dec_val(s@) <= u64::MAX,
        r is Some ==> r->0 == dec_val(s@),
{
    let n = s.unicode_len();
    if n == 0 {
        return None;
    }
    let mut v: u64 = 0;
    let mut i: usize = 0;
    proof {
        assert(s@.subrange(0, 0) =~= Seq::<char>::empty());
    }
    while i < n
        invariant
            0 < n == s@.len(),
            i <= n,
            forall|j: int| 0 <= j < i ==> '0' <= #[trigger] s@[j] <= '9',
            v == dec_val(s@.subrange(0, i as int)),
        decreases n - i,
    {
        let c = s.get_char(i);
        let d = c as u32;
        if d < 48 || d > 57 {
            return None;
        }
        let dd = (d - 48) as u64;
        proof {
            assert(s@.subrange(0, i + 1).drop_last() =~= s@.subrange(0, i as int));
            assert(s@.subrange(0, i + 1).last() == s@[i as int]);
        }
        if v > (u64::MAX - dd) / 10 {
            proof {
                assert(v * 10 + dd > u64::MAX);
                if is_digits(s@) {
                    lemma_dec_val_prefix(s@, i + 1);
                }
            }
            return None;
        }
        v = v * 10 + dd;
        i = i + 1;
    }
    proof {
        assert(s@.subrange(0, n as int) =~= s@);
    }
    Some(v)
}

/// Appends the decimal digits of a value, most significant first.
fn push_decimal(n: u64, out: &mut Vec<u8>)
    ensures
        final(out)@ == old(out)@ + dec_str(n as int).map_values(|c: char| c as u8),
    decreases n,
{
    if n >= 10 {
        push_decimal(n / 10, out);
    }
    let d = (n % 10) as u8 + 48;
    out.push(d);
    proof {
        let digits = dec_str(n as int).map_values(|c: char| c as u8);
        if n < 10 {
            assert(digits =~= seq![d]);
        } else {
            assert(digits =~= dec_str(n as int / 10).map_values(|c: char| c as u8).push(d));
        }
        assert(out@ =~= old(out)@ + digits);
    }
}

/// Formats a value as its canonical decimal digits.
pub fn format_decimal(n: u64) -> (r: String)
    ensures
        r@ == dec_str(n as int),
{
    let mut out: Vec<u8> = Vec::new();
    push_decimal(n, &mut out);
    proof {
        lemma_dec_str_digits(n as int);
        assert(forall|i: int| 0 <= i < out@.len() ==> out@[i] < 128);
        lemma_ascii_decode(out@);
        assert(decode_utf8(out@) =~= dec_str(n as int));
    }
    match bytes_to_string(out) {
        Some(x) => x,
        None => vstd::pervasive::unreached(),
    }
}

} // verus!
