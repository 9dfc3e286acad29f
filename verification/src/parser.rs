//! Field extraction: from one frame's text to a validated reading.
//!
//! A frame is processed line by line. Blank lines and lines that begin
//! with a leaked control byte are skipped; every other line must carry
//! a valid trailing checksum, and contributes its first two tokens as a
//! label/value pair, a later occurrence of a label overriding an
//! earlier one. The ten required labels must all be present.

use vstd::prelude::*;
use vstd::std_specs::cmp::PartialEqSpec;
use vstd::string::StringSliceAdditionalSpecFns;
use vstd::utf8::{decode_utf8, valid_utf8};

use crate::checksum::{line_checksum_ok, validate_checksum_bytes};
use crate::frame::{field_at, field_index, label_vec, spec_label, DecodeError, Field, TeleinfoFrame};
use crate::scan::{bytes_eq, copy_range, effective, key_of, split_pair, trim_slice, value_of, ETX,
    LF, STX};
use crate::textenc::bytes_to_string;

verus! {

/// First index at or after `from` holding a line feed, or the length
/// when there is none.
pub open spec fn next_lf(s: Seq<u8>, from: int) -> int
    decreases s.len() - from,
{
    if from < 0 || from >= s.len() {
        s.len() as int
    } else if s[from] == LF {
        from
    } else {
        next_lf(s, from + 1)
    }
}

/// End of the line starting at `from`: the next line feed, clamped into
/// `[from, len]`.
pub open spec fn line_end(s: Seq<u8>, from: int) -> int {
    let e = next_lf(s, from);
    if e < from {
        from
    } else if e > s.len() {
        s.len() as int
    } else {
        e
    }
}

/// What one line contributes to the lookup of a label: its value token
/// when it is effective and its label matches, nothing otherwise.
pub open spec fn own_entry(line: Seq<u8>, label: Seq<u8>) -> Option<Seq<u8>> {
    match effective(line) {
        Some(t) => if key_of(t) == label {
            Some(value_of(t))
        } else {
            None
        },
        None => None,
    }
}

/// The first option when it is set, the second otherwise.
pub open spec fn opt_or(a: Option<Seq<u8>>, b: Option<Seq<u8>>) -> Option<Seq<u8>> {
    if a is Some {
        a
    } else {
        b
    }
}

/// The first effective line at or after `from` that fails checksum
/// verification, trimmed, if any.
pub open spec fn scan_bad_from(s: Seq<u8>, from: int) -> Option<Seq<u8>>
    decreases s.len() + 1 - from,
{
    if from < 0 || from > s.len() {
        None
    } else {
        let e = line_end(s, from);
        let line = s.subrange(from, e);
        match effective(line) {
            Some(t) => if !line_checksum_ok(t) {
                Some(t)
            } else {
                scan_bad_from(s, e + 1)
            },
            None => scan_bad_from(s, e + 1),
        }
    }
}

/// The value of the last effective line at or after `from` whose label
/// matches, if any.
pub open spec fn lookup_from(s: Seq<u8>, from: int, label: Seq<u8>) -> Option<Seq<u8>>
    decreases s.len() + 1 - from,
{
    if from < 0 || from > s.len() {
        None
    } else {
        let e = line_end(s, from);
        let line = s.subrange(from, e);
        opt_or(lookup_from(s, e + 1, label), own_entry(line, label))
    }
}

/// The first checksum-invalid effective line of a frame, trimmed.
pub open spec fn frame_bad_line(s: Seq<u8>) -> Option<Seq<u8>> {
    scan_bad_from(s, 0)
}

/// The value bytes a frame assigns to a field: those of the last
/// effective line bearing the field's label.
pub open spec fn frame_field(s: Seq<u8>, f: Field) -> Option<Seq<u8>> {
    lookup_from(s, 0, spec_label(f))
}

/// Whether extraction of a field fails: its label is absent, or its
/// value bytes are not valid text.
pub open spec fn field_problem(s: Seq<u8>, f: Field) -> bool {
    frame_field(s, f) is None || !valid_utf8(frame_field(s, f)->0)
}

/// Helper for [`first_problem`]: the first failing field at or after
/// position `i` of the required-field order.
pub open spec fn first_problem_at(s: Seq<u8>, i: int) -> int
    decreases 10 - i,
{
    if i < 0 || i >= 10 {
        10
    } else if field_problem(s, field_at(i)) {
        i
    } else {
        first_problem_at(s, i + 1)
    }
}

/// Index of the first field of the required order whose extraction
/// fails, or 10 when every field extracts.
pub open spec fn first_problem(s: Seq<u8>) -> int {
    first_problem_at(s, 0)
}

/// The reading's fields are the decoded field values of the frame.
pub open spec fn fields_decoded(s: Seq<u8>, f: TeleinfoFrame) -> bool {
    &&& f.adco@ == decode_utf8(frame_field(s, Field::Adco)->0)
    &&& f.optarif@ == decode_utf8(frame_field(s, Field::Optarif)->0)
    &&& f.isousc@ == decode_utf8(frame_field(s, Field::Isousc)->0)
    &&& f.base@ == decode_utf8(frame_field(s, Field::Base)->0)
    &&& f.ptec@ == decode_utf8(frame_field(s, Field::Ptec)->0)
    &&& f.iinst@ == decode_utf8(frame_field(s, Field::Iinst)->0)
    &&& f.imax@ == decode_utf8(frame_field(s, Field::Imax)->0)
    &&& f.papp@ == decode_utf8(frame_field(s, Field::Papp)->0)
    &&& f.hhphc@ == decode_utf8(frame_field(s, Field::Hhphc)->0)
    &&& f.motdetat@ == decode_utf8(frame_field(s, Field::Motdetat)->0)
}

/// The full outcome of parsing a frame whose bytes are `s`.
///
/// A reading comes back exactly when no effective line fails its
/// checksum and all ten fields are present with text-valid values;
/// otherwise the error names the first failure: the first bad line, or
/// the first field of the required order that is missing or not text.
pub open spec fn parse_result_ok(s: Seq<u8>, r: Result<TeleinfoFrame, DecodeError>) -> bool {
    match r {
        Ok(f) => {
            &&& frame_bad_line(s) is None
            &&& first_problem(s) == 10
            &&& fields_decoded(s, f)
        },
        Err(e) => match e {
            DecodeError::Checksum { line } => frame_bad_line(s) == Some(line@),
            DecodeError::MissingField { field } => {
                &&& frame_bad_line(s) is None
                &&& first_problem(s) == field_index(field)
                &&& frame_field(s, field) is None
            },
            DecodeError::Encoding => {
                &&& frame_bad_line(s) is None
                &&& first_problem(s) < 10
                &&& frame_field(s, field_at(first_problem(s))) is Some
                &&& !valid_utf8(frame_field(s, field_at(first_problem(s)))->0)
            },
        },
    }
}

/// Finds the end of the line starting at `from`; the executable mirror
/// of [`line_end`].
fn find_lf(s: &[u8], from: usize) -> (r: usize)
    requires
        from <= s@.len(),
    ensures
        r as int == line_end(s@, from as int),
        from <= r <= s@.len(),
{
    let n = s.len();
    let mut i: usize = from;
    while i < n && s[i] != LF
        invariant
            from <= i <= n == s@.len(),
            next_lf(s@, from as int) == next_lf(s@, i as int),
        decreases n - i,
    {
        i = i + 1;
    }
    proof {
        assert(next_lf(s@, from as int) == i as int);
    }
    i
}

/// Establishes the value of [`first_problem`] once the fields up to a
/// point are known good and the one at the point, if any, known bad.
proof fn lemma_first_problem_from(s: Seq<u8>, k: int, i: int)
    requires
        0 <= k <= i <= 10,
        forall|j: int| k <= j < i ==> !field_problem(s, field_at(j)),
        i < 10 ==> field_problem(s, field_at(i)),
    ensures
        first_problem_at(s, k) == if i < 10 {
            i
        } else {
            10
        },
    decreases i - k,
{
    if k < i {
        lemma_first_problem_from(s, k + 1, i);
    }
}

/// Parses one frame, given as raw bytes.
///
/// Returns the reading exactly when every effective line passes its
/// checksum and all ten required fields are present with text-valid
/// values; otherwise reports the first failure.
pub fn parse_frame(frame: &[u8]) -> (r: Result<TeleinfoFrame, DecodeError>)
    ensures
        parse_result_ok(frame@, r),
{
    let ghost s = frame@;
    let n = frame.len();
    let mut pos: usize = 0;
    let mut done: bool = false;
    let mut v_adco: Option<Vec<u8>> = None;
    let mut v_optarif: Option<Vec<u8>> = None;
    let mut v_isousc: Option<Vec<u8>> = None;
    let mut v_base: Option<Vec<u8>> = None;
    let mut v_ptec: Option<Vec<u8>> = None;
    let mut v_iinst: Option<Vec<u8>> = None;
    let mut v_imax: Option<Vec<u8>> = None;
    let mut v_papp: Option<Vec<u8>> = None;
    let mut v_hhphc: Option<Vec<u8>> = None;
    let mut v_motdetat: Option<Vec<u8>> = None;
    while !done
        invariant
            pos <= n == s.len(),
            s == frame@,
            scan_bad_from(s, 0) == scan_bad_from(s, cursor(s, pos as int, done)),
            slot_tracks(s, pos as int, done, Field::Adco, v_adco),
            slot_tracks(s, pos as int, done, Field::Optarif, v_optarif),
            slot_tracks(s, pos as int, done, Field::Isousc, v_isousc),
            slot_tracks(s, pos as int, done, Field::Base, v_base),
            slot_tracks(s, pos as int, done, Field::Ptec, v_ptec),
            slot_tracks(s, pos as int, done, Field::Iinst, v_iinst),
            slot_tracks(s, pos as int, done, Field::Imax, v_imax),
            slot_tracks(s, pos as int, done, Field::Papp, v_papp),
            slot_tracks(s, pos as int, done, Field::Hhphc, v_hhphc),
            slot_tracks(s, pos as int, done, Field::Motdetat, v_motdetat),
        decreases s.len() + 1 - pos - (if done {
            1int
        } else {
            0int
        }),
    {
        let e = find_lf(frame, pos);
        let line = copy_range(frame, pos, e);
        let t = trim_slice(line.as_slice());
        proof {
            assert(line@ == s.subrange(pos as int, e as int));
        }
        let effective_line = t.len() > 0 && !(t[0] == STX || t[0] == ETX);
        proof {
            if effective_line {
                assert(effective(line@) == Some(t@));
            } else {
                assert(effective(line@) is None);
            }
        }
        if effective_line {
            if !validate_checksum_bytes(t.as_slice()) {
                proof {
                    assert(scan_bad_from(s, pos as int) == Some(t@));
                }
                return Err(DecodeError::Checksum { line: t });
            }
            let (k, v) = split_pair(t.as_slice());
            proof {
                assert(k@ == key_of(t@));
                assert(v@ == value_of(t@));
            }
            let la = label_vec(Field::Adco);
            let lo = label_vec(Field::Optarif);
            let li = label_vec(Field::Isousc);
            let lb = label_vec(Field::Base);
            let lp = label_vec(Field::Ptec);
            let lii = label_vec(Field::Iinst);
            let lim = label_vec(Field::Imax);
            let lpa = label_vec(Field::Papp);
            let lh = label_vec(Field::Hhphc);
            let lm = label_vec(Field::Motdetat);
            if bytes_eq(k.as_slice(), la.as_slice()) {
                v_adco = Some(v);
            } else if bytes_eq(k.as_slice(), lo.as_slice()) {
                v_optarif = Some(v);
            } else if bytes_eq(k.as_slice(), li.as_slice()) {
                v_isousc = Some(v);
            } else if bytes_eq(k.as_slice(), lb.as_slice()) {
                v_base = Some(v);
            } else if bytes_eq(k.as_slice(), lp.as_slice()) {
                v_ptec = Some(v);
            } else if bytes_eq(k.as_slice(), lii.as_slice()) {
                v_iinst = Some(v);
            } else if bytes_eq(k.as_slice(), lim.as_slice()) {
                v_imax = Some(v);
            } else if bytes_eq(k.as_slice(), lpa.as_slice()) {
                v_papp = Some(v);
            } else if bytes_eq(k.as_slice(), lh.as_slice()) {
                v_hhphc = Some(v);
            } else if bytes_eq(k.as_slice(), lm.as_slice()) {
                v_motdetat = Some(v);
            }
        }
        proof {
            let cur = pos as int;
            let nxt = e as int + 1;
            assert(scan_bad_from(s, cur) == scan_bad_from(s, nxt));
            assert(lookup_from(s, cur, spec_label(Field::Adco)) == opt_or(
                lookup_from(s, nxt, spec_label(Field::Adco)),
                own_entry(line@, spec_label(Field::Adco)),
            ));
            assert(lookup_from(s, cur, spec_label(Field::Optarif)) == opt_or(
                lookup_from(s, nxt, spec_label(Field::Optarif)),
                own_entry(line@, spec_label(Field::Optarif)),
            ));
            assert(lookup_from(s, cur, spec_label(Field::Isousc)) == opt_or(
                lookup_from(s, nxt, spec_label(Field::Isousc)),
                own_entry(line@, spec_label(Field::Isousc)),
            ));
            assert(lookup_from(s, cur, spec_label(Field::Base)) == opt_or(
                lookup_from(s, nxt, spec_label(Field::Base)),
                own_entry(line@, spec_label(Field::Base)),
            ));
            assert(lookup_from(s, cur, spec_label(Field::Ptec)) == opt_or(
                lookup_from(s, nxt, spec_label(Field::Ptec)),
                own_entry(line@, spec_label(Field::Ptec)),
            ));
            assert(lookup_from(s, cur, spec_label(Field::Iinst)) == opt_or(
                lookup_from(s, nxt, spec_label(Field::Iinst)),
                own_entry(line@, spec_label(Field::Iinst)),
            ));
            assert(lookup_from(s, cur, spec_label(Field::Imax)) == opt_or(
                lookup_from(s, nxt, spec_label(Field::Imax)),
                own_entry(line@, spec_label(Field::Imax)),
            ));
            assert(lookup_from(s, cur, spec_label(Field::Papp)) == opt_or(
                lookup_from(s, nxt, spec_label(Field::Papp)),
                own_entry(line@, spec_label(Field::Papp)),
            ));
            assert(lookup_from(s, cur, spec_label(Field::Hhphc)) == opt_or(
                lookup_from(s, nxt, spec_label(Field::Hhphc)),
                own_entry(line@, spec_label(Field::Hhphc)),
            ));
            assert(lookup_from(s, cur, spec_label(Field::Motdetat)) == opt_or(
                lookup_from(s, nxt, spec_label(Field::Motdetat)),
                own_entry(line@, spec_label(Field::Motdetat)),
            ));
        }
        if e == n {
            done = true;
        } else {
            pos = e + 1;
        }
    }
    let adco = match take_field(v_adco, Field::Adco, Ghost(s)) {
        Ok(x) => x,
        Err(e) => return Err(e),
    };
    let optarif = match take_field(v_optarif, Field::Optarif, Ghost(s)) {
        Ok(x) => x,
        Err(e) => return Err(e),
    };
    let isousc = match take_field(v_isousc, Field::Isousc, Ghost(s)) {
        Ok(x) => x,
        Err(e) => return Err(e),
    };
    let base = match take_field(v_base, Field::Base, Ghost(s)) {
        Ok(x) => x,
        Err(e) => return Err(e),
    };
    let ptec = match take_field(v_ptec, Field::Ptec, Ghost(s)) {
        Ok(x) => x,
        Err(e) => return Err(e),
    };
    let iinst = match take_field(v_iinst, Field::Iinst, Ghost(s)) {
        Ok(x) => x,
        Err(e) => return Err(e),
    };
    let imax = match take_field(v_imax, Field::Imax, Ghost(s)) {
        Ok(x) => x,
        Err(e) => return Err(e),
    };
    let papp = match take_field(v_papp, Field::Papp, Ghost(s)) {
        Ok(x) => x,
        Err(e) => return Err(e),
    };
    let hhphc = match take_field(v_hhphc, Field::Hhphc, Ghost(s)) {
        Ok(x) => x,
        Err(e) => return Err(e),
    };
    let motdetat = match take_field(v_motdetat, Field::Motdetat, Ghost(s)) {
        Ok(x) => x,
        Err(e) => return Err(e),
    };
    proof {
        lemma_first_problem_from(s, 0, 10);
    }
    Ok(TeleinfoFrame { adco, optarif, isousc, base, ptec, iinst, imax, papp, hhphc, motdetat })
}

/// Ghost cursor of the parsing loop: the start of the unprocessed
/// remainder, past the end once the last line is consumed.
pub open spec fn cursor(s: Seq<u8>, pos: int, done: bool) -> int {
    if done {
        s.len() as int + 1
    } else {
        pos
    }
}

/// The slot for a field holds the last value its label received among
/// the lines already processed.
pub open spec fn slot_tracks(
    s: Seq<u8>,
    pos: int,
    done: bool,
    f: Field,
    slot: Option<Vec<u8>>,
) -> bool {
    lookup_from(s, 0, spec_label(f)) == opt_or(
        lookup_from(s, cursor(s, pos, done), spec_label(f)),
        match slot {
            Some(v) => Some(v@),
            None => None,
        },
    )
}

/// Turns a filled slot into the field's string, or reports the first
/// failing field.
fn take_field(slot: Option<Vec<u8>>, f: Field, Ghost(s): Ghost<Seq<u8>>) -> (r: Result<
    String,
    DecodeError,
>)
    requires
        frame_bad_line(s) is None,
        (match slot {
            Some(v) => frame_field(s, f) == Some(v@),
            None => frame_field(s, f) is None,
        }),
        forall|j: int| 0 <= j < field_index(f) ==> !field_problem(s, field_at(j)),
    ensures
        (match r {
            Ok(x) => frame_field(s, f) is Some && valid_utf8(frame_field(s, f)->0) && x@
                == decode_utf8(frame_field(s, f)->0),
            Err(e) => parse_result_ok(s, Err::<TeleinfoFrame, DecodeError>(e)),
        }),
{
    match slot {
        None => {
            proof {
                assert(field_at(field_index(f)) == f);
                lemma_first_problem_from(s, 0, field_index(f));
            }
            Err(DecodeError::MissingField { field: f })
        },
        Some(v) => {
            match bytes_to_string(v) {
                Some(x) => Ok(x),
                None => {
                    proof {
                        assert(field_at(field_index(f)) == f);
                        lemma_first_problem_from(s, 0, field_index(f));
                    }
                    Err(DecodeError::Encoding)
                },
            }
        },
    }
}

/// Parses one frame of text into a reading.
///
/// The scan runs over the text's UTF-8 bytes; on the 7-bit clean ASCII
/// text the protocol emits, those are exactly its characters.
pub fn parse_teleinfo(teleinfo: &str) -> (r: Result<TeleinfoFrame, DecodeError>)
    ensures
        parse_result_ok(teleinfo.spec_bytes(), r),
{
    parse_frame(teleinfo.as_bytes())
}

/// Parsing the same frame bytes twice yields structurally equal
/// readings: the reading is a function of the frame text alone.
pub proof fn lemma_parse_repeatable(s: Seq<u8>, f1: TeleinfoFrame, f2: TeleinfoFrame)
    requires
        parse_result_ok(s, Ok::<TeleinfoFrame, DecodeError>(f1)),
        parse_result_ok(s, Ok::<TeleinfoFrame, DecodeError>(f2)),
    ensures
        f1.eq_spec(&f2),
{
}

} // verus!
