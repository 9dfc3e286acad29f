//! Canonical JSON serialization of a reading.
//!
//! The output is an object keyed by the ten uppercase field labels,
//! each entry holding the raw wire text and a typed value: the numeric
//! fields carry the number their digits denote, the textual fields the
//! raw string again, and the tariff-period field the first two
//! characters of its raw string. This exact shape is a public
//! contract; the downstream publisher reproduces it verbatim.

use vstd::prelude::*;
use vstd::string::{StringExecFns, StrSliceExecFns};

use crate::frame::TeleinfoFrame;
use crate::numbers::{dec_str, dec_val, is_digits, format_decimal, parse_decimal};

verus! {

/// One serialized entry whose typed value is a string.
pub open spec fn json_str_entry(name: Seq<char>, raw: Seq<char>, value: Seq<char>) -> Seq<char> {
    "\""@ + name + "\": {\"raw\": \""@ + raw + "\", \"value\": \""@ + value + "\"}"@
}

/// One serialized entry whose typed value is the number the raw digits
/// denote, leading zeros dropped.
pub open spec fn json_num_entry(name: Seq<char>, raw: Seq<char>) -> Seq<char> {
    "\""@ + name + "\": {\"raw\": \""@ + raw + "\", \"value\": "@ + dec_str(dec_val(raw)) + "}"@
}

/// The canonical JSON text of a reading.
pub open spec fn json_of(f: TeleinfoFrame) -> Seq<char> {
    "{\n"@ + json_num_entry("ADCO"@, f.adco@) + ",\n"@ + json_str_entry(
        "OPTARIF"@,
        f.optarif@,
        f.optarif@,
    ) + ",\n"@ + json_num_entry("ISOUSC"@, f.isousc@) + ",\n"@ + json_num_entry("BASE"@, f.base@)
        + ",\n"@ + json_str_entry("PTEC"@, f.ptec@, f.ptec@.subrange(0, 2)) + ",\n"@
        + json_num_entry("IINST"@, f.iinst@) + ",\n"@ + json_num_entry("IMAX"@, f.imax@) + ",\n"@
        + json_num_entry("PAPP"@, f.papp@) + ",\n"@ + json_str_entry(
        "HHPHC"@,
        f.hhphc@,
        f.hhphc@,
    ) + ",\n"@ + json_str_entry("MOTDETAT"@, f.motdetat@, f.motdetat@) + "\n}"@
}

/// Appends an entry whose typed value is a string.
fn append_str_entry(out: &mut String, name: &str, raw: &str, value: &str)
    ensures
        final(out)@ == old(out)@ + json_str_entry(name@, raw@, value@),
{
    out.append("\"");
    out.append(name);
    out.append("\": {\"raw\": \"");
    out.append(raw);
    out.append("\", \"value\": \"");
    out.append(value);
    out.append("\"}");
    proof {
        assert(out@ =~= old(out)@ + json_str_entry(name@, raw@, value@));
    }
}

/// Appends an entry whose typed value is the number the raw digits
/// denote.
fn append_num_entry(out: &mut String, name: &str, raw: &str)
    requires
        is_digits(raw@),
        dec_val(raw@) <= u64::MAX,
    ensures
        final(out)@ == old(out)@ + json_num_entry(name@, raw@),
{
    out.append("\"");
    out.append(name);
    out.append("\": {\"raw\": \"");
    out.append(raw);
    out.append("\", \"value\": ");
    let v = match parse_decimal(raw) {
        Some(v) => v,
        None => vstd::pervasive::unreached(),
    };
    let num = format_decimal(v);
    out.append(num.as_str());
    out.append("}");
    proof {
        assert(out@ =~= old(out)@ + json_num_entry(name@, raw@));
    }
}

impl TeleinfoFrame {
    /// Serializes the reading as its canonical JSON text.
    ///
    /// The numeric fields must hold digit runs whose values fit the
    /// widths the wire format promises, and the tariff period must be
    /// at least two characters; upstream validation owes the caller
    /// both.
    pub fn to_json(&self) -> (r: String)
        requires
            is_digits(self.adco@),
            dec_val(self.adco@) <= i64::MAX,
            is_digits(self.isousc@),
            dec_val(self.isousc@) <= i32::MAX,
            is_digits(self.base@),
            dec_val(self.base@) <= i64::MAX,
            is_digits(self.iinst@),
            dec_val(self.iinst@) <= i32::MAX,
            is_digits(self.imax@),
            dec_val(self.imax@) <= i32::MAX,
            is_digits(self.papp@),
            dec_val(self.papp@) <= i32::MAX,
            self.ptec@.len() >= 2,
        ensures
            r@ == json_of(*self),
    {
        let mut out = String::from_str("{\n");
        append_num_entry(&mut out, "ADCO", self.adco.as_str());
        out.append(",\n");
        append_str_entry(&mut out, "OPTARIF", self.optarif.as_str(), self.optarif.as_str());
        out.append(",\n");
        append_num_entry(&mut out, "ISOUSC", self.isousc.as_str());
        out.append(",\n");
        append_num_entry(&mut out, "BASE", self.base.as_str());
        out.append(",\n");
        let ptec_value = self.ptec.as_str().substring_char(0, 2);
        append_str_entry(&mut out, "PTEC", self.ptec.as_str(), ptec_value);
        out.append(",\n");
        append_num_entry(&mut out, "IINST", self.iinst.as_str());
        out.append(",\n");
        append_num_entry(&mut out, "IMAX", self.imax.as_str());
        out.append(",\n");
        append_num_entry(&mut out, "PAPP", self.papp.as_str());
        out.append(",\n");
        append_str_entry(&mut out, "HHPHC", self.hhphc.as_str(), self.hhphc.as_str());
        out.append(",\n");
        append_str_entry(&mut out, "MOTDETAT", self.motdetat.as_str(), self.motdetat.as_str());
        out.append("\n}");
        proof {
            assert(out@ =~= json_of(*self));
        }
        out
    }
}

} // verus!
