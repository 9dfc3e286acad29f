use teleinfo::numbers::{format_decimal, parse_decimal};
use teleinfo::parser::parse_teleinfo;

const SAMPLE: &str = "ADCO 012345678901 E\nOPTARIF BASE 0\nISOUSC 30 9\nBASE 002809718 .\nPTEC TH.. $\nIINST 002 Y\nIMAX 090 H\nPAPP 00390 -\nHHPHC A ,\nMOTDETAT 000000 B";

#[test]
fn test_json_contract() {
    let frame = parse_teleinfo(SAMPLE).unwrap();
    let json = frame.to_json();
    // The tariff period's typed value is the first two characters of
    // its raw string.
    assert!(json.contains("\"PTEC\": {\"raw\": \"TH..\", \"value\": \"TH\"}"));
    // The meter address's typed value is numeric, with no
    // leading-zero artifact.
    assert!(json.contains("\"ADCO\": {\"raw\": \"012345678901\", \"value\": 12345678901}"));
}

#[test]
fn test_json_full_text() {
    let frame = parse_teleinfo(SAMPLE).unwrap();
    let json = frame.to_json();
    let expected = "{\n\"ADCO\": {\"raw\": \"012345678901\", \"value\": 12345678901},\n\"OPTARIF\": {\"raw\": \"BASE\", \"value\": \"BASE\"},\n\"ISOUSC\": {\"raw\": \"30\", \"value\": 30},\n\"BASE\": {\"raw\": \"002809718\", \"value\": 2809718},\n\"PTEC\": {\"raw\": \"TH..\", \"value\": \"TH\"},\n\"IINST\": {\"raw\": \"002\", \"value\": 2},\n\"IMAX\": {\"raw\": \"090\", \"value\": 90},\n\"PAPP\": {\"raw\": \"00390\", \"value\": 390},\n\"HHPHC\": {\"raw\": \"A\", \"value\": \"A\"},\n\"MOTDETAT\": {\"raw\": \"000000\", \"value\": \"000000\"}\n}";
    assert_eq!(json, expected);
}

#[test]
fn test_parse_decimal_values() {
    assert_eq!(parse_decimal("002809718"), Some(2809718));
    assert_eq!(parse_decimal("0"), Some(0));
    assert_eq!(parse_decimal("18446744073709551615"), Some(u64::MAX));
    assert_eq!(parse_decimal(""), None);
    assert_eq!(parse_decimal("12a4"), None);
    assert_eq!(parse_decimal("-12"), None);
    // One past the largest representable value.
    assert_eq!(parse_decimal("18446744073709551616"), None);
}

#[test]
fn test_format_decimal_values() {
    assert_eq!(format_decimal(0), "0");
    assert_eq!(format_decimal(390), "390");
    assert_eq!(format_decimal(12345678901), "12345678901");
    assert_eq!(format_decimal(u64::MAX), "18446744073709551615");
}
