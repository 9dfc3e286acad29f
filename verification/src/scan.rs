//! Byte-level scanning for the protocol text: classification, trimming
//! and token splitting.
//!
//! The protocol is 7-bit clean ASCII, so all scanning works directly on
//! bytes; one byte is one character everywhere a frame is well formed.

use vstd::prelude::*;

verus! {

/// Start-of-frame control byte (STX).
pub const STX: u8 = 0x02;

/// End-of-frame control byte (ETX).
pub const ETX: u8 = 0x03;

/// Line feed: frames carry one field per line.
pub const LF: u8 = 0x0A;

/// Carriage return, tolerated around lines.
pub const CR: u8 = 0x0D;

/// Space, one of the two separators inside a line.
pub const SP: u8 = 0x20;

/// Horizontal tab, the other separator.
pub const TAB: u8 = 0x09;

/// A separator between label, value and checksum: space or tab.
pub open spec fn is_sep(b: u8) -> bool {
    b == SP || b == TAB
}

/// Whitespace for trimming and token splitting.
pub open spec fn is_ws(b: u8) -> bool {
    b == SP || b == TAB || b == CR || b == LF
}

/// First index at or after `from` holding a non-whitespace byte, or the
/// length when the rest is all whitespace.
pub open spec fn skip_ws(s: Seq<u8>, from: int) -> int
    decreases s.len() - from,
{
    if from < 0 || from >= s.len() {
        s.len() as int
    } else if is_ws(s[from]) {
        skip_ws(s, from + 1)
    } else {
        from
    }
}

/// First index at or after `from` holding a whitespace byte, or the
/// length when the rest has none.
pub open spec fn skip_token(s: Seq<u8>, from: int) -> int
    decreases s.len() - from,
{
    if from < 0 || from >= s.len() {
        s.len() as int
    } else if is_ws(s[from]) {
        from
    } else {
        skip_token(s, from + 1)
    }
}

/// Length of `s` once trailing whitespace is removed.
pub open spec fn trim_end(s: Seq<u8>) -> int
    decreases s.len(),
{
    if s.len() == 0 {
        0
    } else if is_ws(s.last()) {
        trim_end(s.drop_last())
    } else {
        s.len() as int
    }
}

/// `s` with leading and trailing whitespace removed.
pub open spec fn trim_of(s: Seq<u8>) -> Seq<u8> {
    let b = skip_ws(s, 0);
    let e = trim_end(s);
    if b < e {
        s.subrange(b, e)
    } else {
        Seq::empty()
    }
}

/// The line's content relevant to field extraction: its trimmed text,
/// or nothing when the line is blank or starts with a control byte.
pub open spec fn effective(line: Seq<u8>) -> Option<Seq<u8>> {
    let t = trim_of(line);
    if t.len() == 0 {
        None
    } else if t[0] == STX || t[0] == ETX {
        None
    } else {
        Some(t)
    }
}

/// The label token of a trimmed line: its first whitespace-delimited run.
pub open spec fn key_of(t: Seq<u8>) -> Seq<u8> {
    t.subrange(0, skip_token(t, 0))
}

/// The value token of a trimmed line: its second whitespace-delimited
/// run, empty when the line has only one token.
pub open spec fn value_of(t: Seq<u8>) -> Seq<u8> {
    let k = skip_token(t, 0);
    let b = skip_ws(t, k);
    t.subrange(b, skip_token(t, b))
}

/// Copies `s[a..b]` into a fresh vector.
pub fn copy_range(s: &[u8], a: usize, b: usize) -> (v: Vec<u8>)
    requires
        a <= b <= s@.len(),
    ensures
        v@ == s@.subrange(a as int, b as int),
{
    let mut v: Vec<u8> = Vec::new();
    proof {
        assert(v@ =~= s@.subrange(a as int, a as int));
    }
    let mut i: usize = a;
    while i < b
        invariant
            a <= i <= b <= s@.len(),
            v@ == s@.subrange(a as int, i as int),
        decreases b - i,
    {
        v.push(s[i]);
        proof {
            assert(v@ =~= s@.subrange(a as int, i + 1));
        }
        i = i + 1;
    }
    v
}

/// Compares two byte strings for equality.
pub fn bytes_eq(a: &[u8], b: &[u8]) -> (r: bool)
    ensures
        r == (a@ == b@),
{
    if a.len() != b.len() {
        return false;
    }
    let mut i: usize = 0;
    while i < a.len()
        invariant
            i <= a@.len(),
            a@.len() == b@.len(),
            forall|j: int| 0 <= j < i ==> a@[j] == b@[j],
        decreases a@.len() - i,
    {
        if a[i] != b[i] {
            return false;
        }
        i = i + 1;
    }
    proof {
        assert(a@ =~= b@);
    }
    true
}

/// Removes leading and trailing whitespace from a line.
pub fn trim_slice(line: &[u8]) -> (t: Vec<u8>)
    ensures
        t@ == trim_of(line@),
{
    let n = line.len();
    let mut e: usize = n;
    proof {
        assert(line@.subrange(0, n as int) =~= line@);
    }
    while e > 0 && (line[e - 1] == SP || line[e - 1] == TAB || line[e - 1] == CR || line[e - 1]
        == LF)
        invariant
            e <= n == line@.len(),
            trim_end(line@) == trim_end(line@.subrange(0, e as int)),
        decreases e,
    {
        proof {
            assert(line@.subrange(0, e as int).last() == line@[e - 1]);
            assert(line@.subrange(0, e as int).drop_last() =~= line@.subrange(0, e as int - 1));
        }
        e = e - 1;
    }
    proof {
        if e > 0 {
            assert(line@.subrange(0, e as int).last() == line@[e - 1]);
        } else {
            assert(line@.subrange(0, 0) =~= Seq::<u8>::empty());
        }
        assert(trim_end(line@) == e as int);
    }
    let mut b: usize = 0;
    while b < n && (line[b] == SP || line[b] == TAB || line[b] == CR || line[b] == LF)
        invariant
            b <= n == line@.len(),
            skip_ws(line@, 0) == skip_ws(line@, b as int),
        decreases n - b,
    {
        b = b + 1;
    }
    proof {
        assert(skip_ws(line@, 0) == b as int);
    }
    if b < e {
        copy_range(line, b, e)
    } else {
        Vec::new()
    }
}

/// Splits a trimmed line into its first two whitespace-delimited tokens:
/// the label and the value. The value is empty when the line has only
/// one token.
pub fn split_pair(t: &[u8]) -> (kv: (Vec<u8>, Vec<u8>))
    ensures
        kv.0@ == key_of(t@),
        kv.1@ == value_of(t@),
{
    let k_end = scan_token(t, 0);
    let v_start = scan_ws(t, k_end);
    let v_end = scan_token(t, v_start);
    let k = copy_range(t, 0, k_end);
    let v = copy_range(t, v_start, v_end);
    (k, v)
}

/// Finds the end of the whitespace run starting at `from`; the
/// executable mirror of [`skip_ws`].
pub fn scan_ws(t: &[u8], from: usize) -> (r: usize)
    requires
        from <= t@.len(),
    ensures
        r as int == skip_ws(t@, from as int),
        from <= r <= t@.len(),
{
    let n = t.len();
    let mut i: usize = from;
    while i < n && (t[i] == SP || t[i] == TAB || t[i] == CR || t[i] == LF)
        invariant
            from <= i <= n == t@.len(),
            skip_ws(t@, from as int) == skip_ws(t@, i as int),
        decreases n - i,
    {
        i = i + 1;
    }
    i
}

/// Finds the end of the token starting at `from`; the executable mirror
/// of [`skip_token`].
pub fn scan_token(t: &[u8], from: usize) -> (r: usize)
    requires
        from <= t@.len(),
    ensures
        r as int == skip_token(t@, from as int),
        from <= r <= t@.len(),
{
    let n = t.len();
    let mut i: usize = from;
    while i < n && !(t[i] == SP || t[i] == TAB || t[i] == CR || t[i] == LF)
        invariant
            from <= i <= n == t@.len(),
            skip_token(t@, from as int) == skip_token(t@, i as int),
        decreases n - i,
    {
        i = i + 1;
    }
    i
}

} // verus!
