//! Per-line checksum verification.
//!
//! A protocol line has the shape `LABEL<sep>VALUE<sep>CHECKSUM`, where
//! `<sep>` is a space or a tab and `CHECKSUM` is one byte. The checksum
//! is computed over everything before the last separator: the sum of
//! those byte values, reduced to six bits, shifted into the printable
//! range by adding 0x20.

use vstd::arithmetic::div_mod::lemma_add_mod_noop_right;
use vstd::prelude::*;
use vstd::string::StringSliceAdditionalSpecFns;

use crate::scan::{is_sep, SP, TAB};

verus! {

/// Sum of the byte values of a sequence.
pub open spec fn sum_bytes(s: Seq<u8>) -> int
    decreases s.len(),
{
    if s.len() == 0 {
        0
    } else {
        sum_bytes(s.drop_last()) + s.last()
    }
}

/// The checksum byte that protects a span: `(sum & 0x3F) + 0x20`.
pub open spec fn checksum_of(span: Seq<u8>) -> u8 {
    ((sum_bytes(span) % 64) + 32) as u8
}

/// Index of the last separator byte in a line, or -1 when there is none.
pub open spec fn last_sep(s: Seq<u8>) -> int
    decreases s.len(),
{
    if s.len() == 0 {
        -1
    } else if is_sep(s.last()) {
        s.len() - 1
    } else {
        last_sep(s.drop_last())
    }
}

/// A line is checksum-valid when it has a separator, at least one byte
/// follows the last separator, and that byte equals the checksum of the
/// span before the last separator.
pub open spec fn line_checksum_ok(line: Seq<u8>) -> bool {
    let p = last_sep(line);
    &&& p >= 0
    &&& p + 1 < line.len()
    &&& line[p + 1] == checksum_of(line.subrange(0, p))
}

/// Finds the last separator (space or tab) of a line.
fn find_last_sep(bytes: &[u8]) -> (r: Option<usize>)
    ensures
        r is Some ==> r->0 < bytes@.len() && last_sep(bytes@) == r->0 as int,
        r is None ==> last_sep(bytes@) == -1,
{
    let mut i: usize = bytes.len();
    proof {
        assert(bytes@.subrange(0, bytes@.len() as int) =~= bytes@);
    }
    while i > 0
        invariant
            i <= bytes@.len(),
            last_sep(bytes@) == last_sep(bytes@.subrange(0, i as int)),
        decreases i,
    {
        let b = bytes[i - 1];
        if b == SP || b == TAB {
            proof {
                assert(bytes@.subrange(0, i as int).last() == b);
            }
            return Some(i - 1);
        }
        proof {
            assert(bytes@.subrange(0, i as int).drop_last() =~= bytes@.subrange(
                0,
                i as int - 1,
            ));
        }
        i = i - 1;
    }
    proof {
        assert(bytes@.subrange(0, 0) =~= Seq::<u8>::empty());
    }
    None
}

/// Computes the checksum byte over `bytes[..end]`.
fn checksum_over(bytes: &[u8], end: usize) -> (r: u8)
    requires
        end <= bytes@.len(),
    ensures
        r == checksum_of(bytes@.subrange(0, end as int)),
{
    let mut acc: u32 = 0;
    let mut j: usize = 0;
    proof {
        assert(bytes@.subrange(0, 0) =~= Seq::<u8>::empty());
    }
    while j < end
        invariant
            j <= end <= bytes@.len(),
            acc == sum_bytes(bytes@.subrange(0, j as int)) % 64,
        decreases end - j,
    {
        let b = bytes[j];
        proof {
            let s = bytes@;
            assert(s.subrange(0, j + 1).drop_last() =~= s.subrange(0, j as int));
            assert(s.subrange(0, j + 1).last() == b);
            lemma_add_mod_noop_right(b as int, sum_bytes(s.subrange(0, j as int)), 64);
        }
        acc = (acc + b as u32) % 64;
        j = j + 1;
    }
    (acc + 32) as u8
}

/// Verifies the checksum of one line given as raw bytes.
pub fn validate_checksum_bytes(bytes: &[u8]) -> (r: bool)
    ensures
        r == line_checksum_ok(bytes@),
{
    match find_last_sep(bytes) {
        None => false,
        Some(p) => {
            let n = bytes.len();
            if p + 1 >= n {
                false
            } else {
                let expected = bytes[p + 1];
                let computed = checksum_over(bytes, p);
                expected == computed
            }
        },
    }
}

/// Verifies the checksum of one line of frame text.
///
/// The computation runs over the line's UTF-8 bytes; on the 7-bit clean
/// ASCII text the protocol emits, those are exactly its characters.
pub fn validate_checksum(line: &str) -> (r: bool)
    ensures
        r == line_checksum_ok(line.spec_bytes()),
{
    validate_checksum_bytes(line.as_bytes())
}

} // verus!
