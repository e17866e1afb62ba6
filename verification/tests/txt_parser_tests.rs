//! Plaintext decoding behaviour.

use data_ingestion::error::IngestionError;
use data_ingestion::txt_parser::parse_txt;
use data_ingestion::value::JsonValue;

fn text(rec: &JsonValue, name: &str) -> String {
    match rec.get(name).expect("missing field") {
        JsonValue::Text(s) => s.clone(),
        _ => panic!("field is not text"),
    }
}

fn int_field(rec: &JsonValue, name: &str) -> i64 {
    match rec.get(name).expect("missing field") {
        JsonValue::Int(i) => *i,
        _ => panic!("field is not an integer"),
    }
}

#[test]
fn test_txt_one_record_per_line() {
    let result = parse_txt(b"alpha\nbeta\ngamma").unwrap();
    assert_eq!(result.len(), 3);
    assert_eq!(int_field(&result[0], "line_number"), 1);
    assert_eq!(text(&result[0], "content"), "alpha");
    assert_eq!(int_field(&result[2], "line_number"), 3);
    assert_eq!(text(&result[2], "content"), "gamma");
}

#[test]
fn test_txt_trailing_newline_and_crlf() {
    let result = parse_txt(b"one\r\ntwo\n").unwrap();
    assert_eq!(result.len(), 2);
    assert_eq!(text(&result[0], "content"), "one");
    assert_eq!(text(&result[1], "content"), "two");
}

#[test]
fn test_txt_empty_input_yields_no_records() {
    let result = parse_txt(b"").unwrap();
    assert_eq!(result.len(), 0);
}

#[test]
fn test_txt_invalid_utf8_is_parse_error() {
    let result = parse_txt(&[0x61, 0xff, 0xfe]);
    assert!(matches!(result, Err(IngestionError::Parse(_))));
}
