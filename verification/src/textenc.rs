//! Conversion between protocol bytes and owned text.
//!
//! The decoder scans frames as raw bytes; field values become `String`s
//! only once extracted. This module holds the one trusted conversion
//! and the lemma that, on the 7-bit ASCII text the protocol emits,
//! bytes and characters correspond one to one.

use vstd::prelude::*;
use vstd::utf8::{
    decode_utf8, encode_utf8, encode_utf8_decode_utf8, encode_utf8_valid_utf8, is_ascii_chars,
    is_ascii_chars_encode_utf8, valid_utf8,
};

verus! {

/// Relies on `String::from_utf8`: returns the string holding exactly
/// the given bytes when they are valid UTF-8, and nothing otherwise.
#[verifier::external_body]
pub fn bytes_to_string(v: Vec<u8>) -> (r: Option<String>)
    ensures
        r is Some <==> valid_utf8(v@),
        r is Some ==> r->0@ == decode_utf8(v@),
{
    String::from_utf8(v).ok()
}

/// Bytes below 0x80 are valid UTF-8 and decode to themselves, one
/// character per byte.
pub proof fn lemma_ascii_decode(bytes: Seq<u8>)
    requires
        forall|i: int| 0 <= i < bytes.len() ==> bytes[i] < 128,
    ensures
        valid_utf8(bytes),
        decode_utf8(bytes).len() == bytes.len(),
        forall|i: int| 0 <= i < bytes.len() ==> decode_utf8(bytes)[i] == bytes[i] as char,
        is_ascii_chars(decode_utf8(bytes)),
{
    let chars = bytes.map_values(|b: u8| b as char);
    assert(is_ascii_chars(chars));
    is_ascii_chars_encode_utf8(chars);
    assert(encode_utf8(chars) =~= bytes);
    encode_utf8_valid_utf8(chars);
    encode_utf8_decode_utf8(chars);
    assert(decode_utf8(bytes) == chars);
}

} // verus!
