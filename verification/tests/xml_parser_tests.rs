//! Markup decoding behaviour.

use data_ingestion::error::IngestionError;
use data_ingestion::value::JsonValue;
use data_ingestion::xml_parser::parse_xml;

fn text(rec: &JsonValue, name: &str) -> String {
    match rec.get(name).expect("missing field") {
        JsonValue::Text(s) => s.clone(),
        _ => panic!("field is not text"),
    }
}

#[test]
fn test_xml_record_attributes_and_children() {
    let result = parse_xml(b"<record id=\"1\"><name>x</name></record>").unwrap();
    assert_eq!(result.len(), 1);
    assert_eq!(text(&result[0], "id"), "1");
    assert_eq!(text(&result[0], "name"), "x");
}

#[test]
fn test_xml_zero_records_is_parse_error() {
    let result = parse_xml(b"<data><item>1</item></data>");
    assert!(matches!(result, Err(IngestionError::Parse(_))));
}

#[test]
fn test_xml_multiple_records_in_order() {
    let input = b"<root><record><name>a</name></record><record><name>b</name></record></root>";
    let result = parse_xml(input).unwrap();
    assert_eq!(result.len(), 2);
    assert_eq!(text(&result[0], "name"), "a");
    assert_eq!(text(&result[1], "name"), "b");
}

#[test]
fn test_xml_only_immediate_children_become_fields() {
    let result = parse_xml(b"<record id=\"1\"><a><b>t</b></a></record>").unwrap();
    assert_eq!(result.len(), 1);
    assert_eq!(text(&result[0], "id"), "1");
    assert!(result[0].get("b").is_none());
    assert!(result[0].get("a").is_none());
}

#[test]
fn test_xml_entity_references_resolve_into_text() {
    let result = parse_xml(b"<record><name>a&amp;b</name></record>").unwrap();
    assert_eq!(result.len(), 1);
    assert_eq!(text(&result[0], "name"), "a&b");
}

#[test]
fn test_xml_entity_keeps_interior_spaces() {
    let result = parse_xml(b"<record><name>a &amp; b</name><num>&#49;</num></record>").unwrap();
    assert_eq!(result.len(), 1);
    assert_eq!(text(&result[0], "name"), "a & b");
    assert_eq!(text(&result[0], "num"), "1");
}

#[test]
fn test_xml_malformed_is_parse_error() {
    let result = parse_xml(b"<record><name>x</wrong></record>");
    assert!(matches!(result, Err(IngestionError::Parse(_))));
}
