//! Parser-dispatcher behaviour: routing, the unsupported-type failure
//! path, and decoder determinism.

use apache_avro::{types::Value, Schema, Writer};
use data_ingestion::error::IngestionError;
use data_ingestion::parser_adapter::ParserAdapter;
use data_ingestion::value::JsonValue;

fn same_value(a: &JsonValue, b: &JsonValue) -> bool {
    match (a, b) {
        (JsonValue::Null, JsonValue::Null) => true,
        (JsonValue::Bool(x), JsonValue::Bool(y)) => x == y,
        (JsonValue::Int(x), JsonValue::Int(y)) => x == y,
        (JsonValue::Num(x), JsonValue::Num(y)) => x == y,
        (JsonValue::Text(x), JsonValue::Text(y)) => x == y,
        (JsonValue::Arr(x), JsonValue::Arr(y)) => {
            x.len() == y.len() && x.iter().zip(y.iter()).all(|(u, v)| same_value(u, v))
        },
        (JsonValue::Obj(x), JsonValue::Obj(y)) => {
            x.len() == y.len()
                && x.iter()
                    .zip(y.iter())
                    .all(|(u, v)| u.name == v.name && same_value(&u.value, &v.value))
        },
        _ => false,
    }
}

fn same_records(a: &[JsonValue], b: &[JsonValue]) -> bool {
    a.len() == b.len() && a.iter().zip(b.iter()).all(|(u, v)| same_value(u, v))
}

fn decode_twice_and_compare(bytes: &[u8], tag: &str) {
    let adapter = ParserAdapter::new();
    let first = adapter.parse_with_config(bytes, tag, None).unwrap();
    let second = adapter.parse_with_config(bytes, tag, None).unwrap();
    assert!(same_records(&first, &second));
}

fn avro_bytes() -> Vec<u8> {
    let schema = Schema::parse_str(
        r#"{"type":"record","name":"R","fields":[{"name":"n","type":"string"}]}"#,
    )
    .unwrap();
    let mut writer = Writer::new(&schema, Vec::new()).unwrap();
    writer
        .append(Value::Record(vec![("n".to_string(), Value::String("v".to_string()))]))
        .unwrap();
    writer.into_inner().unwrap()
}

#[test]
fn test_unsupported_type_is_parse_error() {
    let adapter = ParserAdapter::new();
    let result = adapter.parse_with_config(b"%PDF-1.4", "pdf", None);
    assert!(matches!(result, Err(IngestionError::Parse(_))));
}

#[test]
fn test_empty_tag_is_parse_error() {
    let adapter = ParserAdapter::new();
    let result = adapter.parse(b"anything", "");
    assert!(matches!(result, Err(IngestionError::Parse(_))));
}

#[test]
fn test_dispatch_routes_by_tag() {
    let adapter = ParserAdapter::new();
    let recs = adapter.parse_with_config(b"a,b\n1,2", "csv", None).unwrap();
    assert_eq!(recs.len(), 1);
    let recs = adapter.parse_with_config(b"[1,2,3]", "json", None).unwrap();
    assert_eq!(recs.len(), 3);
    let recs = adapter.parse_with_config(b"x\ny", "txt", None).unwrap();
    assert_eq!(recs.len(), 2);
}

#[test]
fn test_decoders_are_deterministic() {
    decode_twice_and_compare(b"a,b\n1,2\n3,4", "csv");
    decode_twice_and_compare(b"[{\"a\":1},{\"a\":2}]", "json");
    decode_twice_and_compare(b"line one\nline two", "txt");
    decode_twice_and_compare(b"<record id=\"1\"><name>x</name></record>", "xml");
    decode_twice_and_compare(&avro_bytes(), "avro");
}
