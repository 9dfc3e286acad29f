//! The decoded reading, its field labels and its error taxonomy.

use vstd::prelude::*;
use vstd::string::StringExecFns;
use vstd::utf8::{decode_utf8, valid_utf8};

use crate::scan::copy_range;
use crate::textenc::{bytes_to_string, lemma_ascii_decode};

verus! {

/// The ten required fields of a reading, in the order the parser
/// checks their presence.
#[derive(Clone, Copy, PartialEq, Eq, Structural, Debug)]
pub enum Field {
    /// Meter address.
    Adco,
    /// Tariff option.
    Optarif,
    /// Subscribed current, in amperes.
    Isousc,
    /// Base index, in watt-hours.
    Base,
    /// Current tariff period.
    Ptec,
    /// Instantaneous current, in amperes.
    Iinst,
    /// Maximum called current, in amperes.
    Imax,
    /// Apparent power, in volt-amperes.
    Papp,
    /// Peak/off-peak schedule code.
    Hhphc,
    /// Meter status word.
    Motdetat,
}

/// The label bytes that introduce a field's line in a frame.
pub open spec fn spec_label(f: Field) -> Seq<u8> {
    match f {
        Field::Adco => seq!['A' as u8, 'D' as u8, 'C' as u8, 'O' as u8],
        Field::Optarif => seq![
            'O' as u8,
            'P' as u8,
            'T' as u8,
            'A' as u8,
            'R' as u8,
            'I' as u8,
            'F' as u8,
        ],
        Field::Isousc => seq!['I' as u8, 'S' as u8, 'O' as u8, 'U' as u8, 'S' as u8, 'C' as u8],
        Field::Base => seq!['B' as u8, 'A' as u8, 'S' as u8, 'E' as u8],
        Field::Ptec => seq!['P' as u8, 'T' as u8, 'E' as u8, 'C' as u8],
        Field::Iinst => seq!['I' as u8, 'I' as u8, 'N' as u8, 'S' as u8, 'T' as u8],
        Field::Imax => seq!['I' as u8, 'M' as u8, 'A' as u8, 'X' as u8],
        Field::Papp => seq!['P' as u8, 'A' as u8, 'P' as u8, 'P' as u8],
        Field::Hhphc => seq!['H' as u8, 'H' as u8, 'P' as u8, 'H' as u8, 'C' as u8],
        Field::Motdetat => seq![
            'M' as u8,
            'O' as u8,
            'T' as u8,
            'D' as u8,
            'E' as u8,
            'T' as u8,
            'A' as u8,
            'T' as u8,
        ],
    }
}

/// Position of a field in the required-field order.
pub open spec fn field_index(f: Field) -> int {
    match f {
        Field::Adco => 0,
        Field::Optarif => 1,
        Field::Isousc => 2,
        Field::Base => 3,
        Field::Ptec => 4,
        Field::Iinst => 5,
        Field::Imax => 6,
        Field::Papp => 7,
        Field::Hhphc => 8,
        Field::Motdetat => 9,
    }
}

/// The field at a position of the required-field order.
pub open spec fn field_at(i: int) -> Field {
    if i == 0 {
        Field::Adco
    } else if i == 1 {
        Field::Optarif
    } else if i == 2 {
        Field::Isousc
    } else if i == 3 {
        Field::Base
    } else if i == 4 {
        Field::Ptec
    } else if i == 5 {
        Field::Iinst
    } else if i == 6 {
        Field::Imax
    } else if i == 7 {
        Field::Papp
    } else if i == 8 {
        Field::Hhphc
    } else {
        Field::Motdetat
    }
}

/// Every label byte is plain ASCII.
pub proof fn lemma_label_ascii(f: Field)
    ensures
        forall|i: int| 0 <= i < spec_label(f).len() ==> spec_label(f)[i] < 128,
{
}

/// The label bytes of a field, as an owned vector.
pub fn label_vec(f: Field) -> (v: Vec<u8>)
    ensures
        v@ == spec_label(f),
{
    match f {
        Field::Adco => {
            let v: Vec<u8> = vec!['A' as u8, 'D' as u8, 'C' as u8, 'O' as u8];
            proof {
                assert(v@ =~= spec_label(f));
            }
            v
        },
        Field::Optarif => {
            let v: Vec<u8> = vec![
                'O' as u8,
                'P' as u8,
                'T' as u8,
                'A' as u8,
                'R' as u8,
                'I' as u8,
                'F' as u8,
            ];
            proof {
                assert(v@ =~= spec_label(f));
            }
            v
        },
        Field::Isousc => {
            let v: Vec<u8> = vec![
                'I' as u8,
                'S' as u8,
                'O' as u8,
                'U' as u8,
                'S' as u8,
                'C' as u8,
            ];
            proof {
                assert(v@ =~= spec_label(f));
            }
            v
        },
        Field::Base => {
            let v: Vec<u8> = vec!['B' as u8, 'A' as u8, 'S' as u8, 'E' as u8];
            proof {
                assert(v@ =~= spec_label(f));
            }
            v
        },
        Field::Ptec => {
            let v: Vec<u8> = vec!['P' as u8, 'T' as u8, 'E' as u8, 'C' as u8];
            proof {
                assert(v@ =~= spec_label(f));
            }
            v
        },
        Field::Iinst => {
            let v: Vec<u8> = vec!['I' as u8, 'I' as u8, 'N' as u8, 'S' as u8, 'T' as u8];
            proof {
                assert(v@ =~= spec_label(f));
            }
            v
        },
        Field::Imax => {
            let v: Vec<u8> = vec!['I' as u8, 'M' as u8, 'A' as u8, 'X' as u8];
            proof {
                assert(v@ =~= spec_label(f));
            }
            v
        },
        Field::Papp => {
            let v: Vec<u8> = vec!['P' as u8, 'A' as u8, 'P' as u8, 'P' as u8];
            proof {
                assert(v@ =~= spec_label(f));
            }
            v
        },
        Field::Hhphc => {
            let v: Vec<u8> = vec!['H' as u8, 'H' as u8, 'P' as u8, 'H' as u8, 'C' as u8];
            proof {
                assert(v@ =~= spec_label(f));
            }
            v
        },
        Field::Motdetat => {
            let v: Vec<u8> = vec![
                'M' as u8,
                'O' as u8,
                'T' as u8,
                'D' as u8,
                'E' as u8,
                'T' as u8,
                'A' as u8,
                'T' as u8,
            ];
            proof {
                assert(v@ =~= spec_label(f));
            }
            v
        },
    }
}

/// One fully decoded, checksum-verified reading: the ten fields, each
/// kept exactly as transmitted, leading zeros included.
#[derive(Debug)]
pub struct TeleinfoFrame {
    /// Meter address.
    pub adco: String,
    /// Tariff option.
    pub optarif: String,
    /// Subscribed current, in amperes.
    pub isousc: String,
    /// Base index, in watt-hours.
    pub base: String,
    /// Current tariff period.
    pub ptec: String,
    /// Instantaneous current, in amperes.
    pub iinst: String,
    /// Maximum called current, in amperes.
    pub imax: String,
    /// Apparent power, in volt-amperes.
    pub papp: String,
    /// Peak/off-peak schedule code.
    pub hhphc: String,
    /// Meter status word.
    pub motdetat: String,
}

impl PartialEq for TeleinfoFrame {
    /// Two readings are equal exactly when all ten fields are equal as
    /// strings.
    fn eq(&self, other: &TeleinfoFrame) -> (r: bool) {
        self.adco == other.adco && self.optarif == other.optarif && self.isousc == other.isousc
            && self.base == other.base && self.ptec == other.ptec && self.iinst == other.iinst
            && self.imax == other.imax && self.papp == other.papp && self.hhphc == other.hhphc
            && self.motdetat == other.motdetat
    }
}

impl vstd::std_specs::cmp::PartialEqSpecImpl for TeleinfoFrame {
    open spec fn obeys_eq_spec() -> bool {
        true
    }

    open spec fn eq_spec(&self, other: &TeleinfoFrame) -> bool {
        &&& self.adco@ == other.adco@
        &&& self.optarif@ == other.optarif@
        &&& self.isousc@ == other.isousc@
        &&& self.base@ == other.base@
        &&& self.ptec@ == other.ptec@
        &&& self.iinst@ == other.iinst@
        &&& self.imax@ == other.imax@
        &&& self.papp@ == other.papp@
        &&& self.hhphc@ == other.hhphc@
        &&& self.motdetat@ == other.motdetat@
    }
}

/// Why a frame was rejected.
#[derive(Debug)]
pub enum DecodeError {
    /// A line failed checksum verification; carries the trimmed line.
    Checksum { line: Vec<u8> },
    /// A required field was absent from the frame.
    MissingField { field: Field },
    /// A field's bytes are not valid text.
    Encoding,
}

/// The diagnostic text of an error.
pub open spec fn error_text(e: DecodeError) -> Seq<char> {
    match e {
        DecodeError::Checksum { line } => "Invalid checksum for line: "@ + (if valid_utf8(line@) {
            decode_utf8(line@)
        } else {
            Seq::<char>::empty()
        }),
        DecodeError::MissingField { field } => "Missing "@ + decode_utf8(spec_label(field)),
        DecodeError::Encoding => "Invalid text in frame"@,
    }
}

impl DecodeError {
    /// Renders the error for diagnostics.
    pub fn message(&self) -> (r: String)
        ensures
            r@ == error_text(*self),
    {
        match self {
            DecodeError::Checksum { line } => {
                let mut s = String::from_str("Invalid checksum for line: ");
                let copy = copy_range(line.as_slice(), 0, line.len());
                proof {
                    assert(copy@ =~= line@);
                }
                match bytes_to_string(copy) {
                    Some(t) => {
                        s.append(t.as_str());
                    },
                    None => {
                        proof {
                            assert(s@ =~= "Invalid checksum for line: "@ + Seq::<char>::empty());
                        }
                    },
                }
                s
            },
            DecodeError::MissingField { field } => {
                let mut s = String::from_str("Missing ");
                let lv = label_vec(*field);
                proof {
                    lemma_label_ascii(*field);
                    lemma_ascii_decode(spec_label(*field));
                }
                match bytes_to_string(lv) {
                    Some(t) => {
                        s.append(t.as_str());
                        s
                    },
                    None => vstd::pervasive::unreached(),
                }
            },
            DecodeError::Encoding => String::from_str("Invalid text in frame"),
        }
    }
}

} // verus!
