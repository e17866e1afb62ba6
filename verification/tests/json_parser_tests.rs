//! JSON decoding behaviour.

use data_ingestion::error::IngestionError;
use data_ingestion::json_parser::parse_json;
use data_ingestion::value::JsonValue;

fn int_field(rec: &JsonValue, name: &str) -> i64 {
    match rec.get(name).expect("missing field") {
        JsonValue::Int(i) => *i,
        _ => panic!("field is not an integer"),
    }
}

#[test]
fn test_json_object_yields_one_record() {
    let result = parse_json(b"{\"a\":1}").unwrap();
    assert_eq!(result.len(), 1);
    assert_eq!(int_field(&result[0], "a"), 1);
}

#[test]
fn test_json_array_yields_one_record_per_element() {
    let result = parse_json(b"[{\"a\":1},{\"a\":2}]").unwrap();
    assert_eq!(result.len(), 2);
    assert_eq!(int_field(&result[0], "a"), 1);
    assert_eq!(int_field(&result[1], "a"), 2);
}

#[test]
fn test_json_scalar_yields_single_wrapped_record() {
    let result = parse_json(b"42").unwrap();
    assert_eq!(result.len(), 1);
    assert!(matches!(result[0], JsonValue::Int(42)));
}

#[test]
fn test_json_invalid_is_parse_error() {
    let result = parse_json(b"{not json");
    assert!(matches!(result, Err(IngestionError::Parse(_))));
}

#[test]
fn test_json_nested_values_survive() {
    let result = parse_json(b"{\"a\":{\"b\":[1,true,null,\"x\"]}}").unwrap();
    assert_eq!(result.len(), 1);
    let inner = match result[0].get("a").unwrap() {
        JsonValue::Obj(_) => result[0].get("a").unwrap(),
        _ => panic!("inner value is not an object"),
    };
    match inner.get("b").unwrap() {
        JsonValue::Arr(items) => {
            assert_eq!(items.len(), 4);
            assert!(matches!(items[0], JsonValue::Int(1)));
            assert!(matches!(items[1], JsonValue::Bool(true)));
            assert!(matches!(items[2], JsonValue::Null));
            assert!(matches!(&items[3], JsonValue::Text(s) if s == "x"));
        },
        _ => panic!("inner list is not a list"),
    }
}
