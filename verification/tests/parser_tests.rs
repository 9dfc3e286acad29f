use teleinfo::frame::{DecodeError, Field, TeleinfoFrame};
use teleinfo::parser::{parse_frame, parse_teleinfo};
use teleinfo::validate_checksum;

const SAMPLE: &str = "ADCO 012345678901 E\nOPTARIF BASE 0\nISOUSC 30 9\nBASE 002809718 .\nPTEC TH.. $\nIINST 002 Y\nIMAX 090 H\nPAPP 00390 -\nHHPHC A ,\nMOTDETAT 000000 B";

#[test]
fn test_validate_checksum_valid() {
    // Checksum = (sum(LABEL + SEP + VALUE) & 0x3F) + 0x20
    assert!(validate_checksum("ADCO 012345678901 E"));
    assert!(validate_checksum("OPTARIF BASE 0"));
    assert!(validate_checksum("ISOUSC 30 9"));
    assert!(validate_checksum("BASE 002809718 ."));
    assert!(validate_checksum("PTEC TH.. $"));
    assert!(validate_checksum("IINST 002 Y"));
    assert!(validate_checksum("IMAX 090 H"));
    assert!(validate_checksum("PAPP 00390 -"));
    assert!(validate_checksum("HHPHC A ,"));
    assert!(validate_checksum("MOTDETAT 000000 B"));
}

#[test]
fn test_validate_checksum_invalid() {
    // Wrong checksum character
    assert!(!validate_checksum("ADCO 012345678901 X"));
    assert!(!validate_checksum("ISOUSC 30 Z"));
    // Corrupted value
    assert!(!validate_checksum("ADCO 999999999999 E"));
}

#[test]
fn test_validate_checksum_edge_cases() {
    assert!(!validate_checksum(""));
    assert!(!validate_checksum("NOSPACE"));
}

#[test]
fn test_validate_checksum_trailing_separator() {
    // The separator is last: there is no checksum byte after it.
    assert!(!validate_checksum("ADCO 012345678901 "));
}

#[test]
fn test_parse_teleinfo_valid() {
    let result = parse_teleinfo(SAMPLE);
    assert!(result.is_ok(), "parse failed: {:?}", result.err());
    let frame = result.unwrap();
    assert_eq!(frame.adco, "012345678901");
    assert_eq!(frame.optarif, "BASE");
    assert_eq!(frame.isousc, "30");
    assert_eq!(frame.base, "002809718");
    assert_eq!(frame.ptec, "TH..");
    assert_eq!(frame.iinst, "002");
    assert_eq!(frame.imax, "090");
    assert_eq!(frame.papp, "00390");
    assert_eq!(frame.hhphc, "A");
    assert_eq!(frame.motdetat, "000000");
}

#[test]
fn test_parse_teleinfo_invalid_checksum() {
    // Same as valid but with wrong checksum on ADCO line
    let teleinfo = "ADCO 012345678901 X\nOPTARIF BASE 0\nISOUSC 30 9\nBASE 002809718 .\nPTEC TH.. $\nIINST 002 Y\nIMAX 090 H\nPAPP 00390 -\nHHPHC A ,\nMOTDETAT 000000 B";
    let result = parse_teleinfo(teleinfo);
    assert!(result.is_err());
    assert!(result.unwrap_err().message().contains("Invalid checksum"));
}

#[test]
fn test_checksum_error_names_line() {
    let teleinfo = "ADCO 012345678901 X\nOPTARIF BASE 0";
    let err = parse_teleinfo(teleinfo).unwrap_err();
    match &err {
        DecodeError::Checksum { line } => {
            assert_eq!(line.as_slice(), b"ADCO 012345678901 X");
        }
        other => panic!("expected a checksum error, got {:?}", other),
    }
    assert_eq!(err.message(), "Invalid checksum for line: ADCO 012345678901 X");
}

#[test]
fn test_missing_field() {
    // Drop the MOTDETAT line from an otherwise valid frame.
    let teleinfo = "ADCO 012345678901 E\nOPTARIF BASE 0\nISOUSC 30 9\nBASE 002809718 .\nPTEC TH.. $\nIINST 002 Y\nIMAX 090 H\nPAPP 00390 -\nHHPHC A ,";
    let err = parse_teleinfo(teleinfo).unwrap_err();
    assert!(matches!(err, DecodeError::MissingField { field: Field::Motdetat }));
    assert_eq!(err.message(), "Missing MOTDETAT");
}

#[test]
fn test_missing_field_reports_first() {
    // With both ADCO and MOTDETAT gone, ADCO is named: the fields are
    // checked in their required order.
    let teleinfo = "OPTARIF BASE 0\nISOUSC 30 9\nBASE 002809718 .\nPTEC TH.. $\nIINST 002 Y\nIMAX 090 H\nPAPP 00390 -\nHHPHC A ,";
    let err = parse_teleinfo(teleinfo).unwrap_err();
    assert!(matches!(err, DecodeError::MissingField { field: Field::Adco }));
}

#[test]
fn test_duplicate_label_last_wins() {
    let teleinfo = "ADCO 012345678901 E\nOPTARIF BASE 0\nISOUSC 30 9\nBASE 002809718 .\nPTEC TH.. $\nIINST 002 Y\nIMAX 090 H\nPAPP 00390 -\nHHPHC A ,\nMOTDETAT 000000 B\nADCO 999999999999 C";
    let frame = parse_teleinfo(teleinfo).unwrap();
    assert_eq!(frame.adco, "999999999999");
}

#[test]
fn test_control_byte_lines_skipped() {
    let teleinfo = format!("\u{2}\n{}\n\u{3}", SAMPLE);
    let frame = parse_teleinfo(&teleinfo).unwrap();
    assert_eq!(frame.adco, "012345678901");
}

#[test]
fn test_unknown_label_ignored() {
    // An extra, checksum-valid line with an unknown label changes
    // nothing about the reading.
    let teleinfo = format!("{}\nHCHC 012345678901 D", SAMPLE);
    let frame = parse_teleinfo(&teleinfo).unwrap();
    assert_eq!(frame, parse_teleinfo(SAMPLE).unwrap());
}

#[test]
fn test_encoding_error_on_invalid_text() {
    // A value holding the byte 0xFF, with a correct checksum over
    // "ADCO \xFF" (sum 566, so the checksum byte is 'V').
    let line: Vec<u8> = vec![b'A', b'D', b'C', b'O', b' ', 0xFF, b' ', b'V'];
    let err = parse_frame(&line).unwrap_err();
    assert!(matches!(err, DecodeError::Encoding));
    assert_eq!(err.message(), "Invalid text in frame");
}

#[test]
fn test_frame_to_teleinfo() {
    let frame_text = SAMPLE;
    let parsed = parse_teleinfo(frame_text).unwrap();
    let expected = TeleinfoFrame {
        adco: "012345678901".to_string(),
        optarif: "BASE".to_string(),
        isousc: "30".to_string(),
        base: "002809718".to_string(),
        ptec: "TH..".to_string(),
        iinst: "002".to_string(),
        imax: "090".to_string(),
        papp: "00390".to_string(),
        hhphc: "A".to_string(),
        motdetat: "000000".to_string(),
    };
    assert_eq!(parsed, expected);
}

#[test]
fn test_invalid_frame_to_teleinfo() {
    let frame_text = "invalid";
    let result = parse_teleinfo(frame_text);
    assert!(result.is_err());
}

#[test]
fn test_parse_idempotent() {
    let first = parse_teleinfo(SAMPLE).unwrap();
    let second = parse_teleinfo(SAMPLE).unwrap();
    assert_eq!(first, second);
}
