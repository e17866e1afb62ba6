//! Row-oriented container decoding behaviour.

use apache_avro::{types::Value, Schema, Writer};
use data_ingestion::avro_parser::parse_avro;
use data_ingestion::error::IngestionError;
use data_ingestion::value::JsonValue;

fn text(rec: &JsonValue, name: &str) -> String {
    match rec.get(name).expect("missing field") {
        JsonValue::Text(s) => s.clone(),
        _ => panic!("field is not text"),
    }
}

fn int_field(rec: &JsonValue, name: &str) -> i64 {
    match rec.get(name).expect("missing field") {
        JsonValue::Int(i) => *i,
        _ => panic!("field is not an integer"),
    }
}

fn create_test_avro_data() -> Vec<u8> {
    let schema = Schema::parse_str(
        r#"
    {
        "type": "record",
        "name": "User",
        "fields": [
            {"name": "name", "type": "string"},
            {"name": "age", "type": "int"},
            {"name": "email", "type": "string"}
        ]
    }
    "#,
    )
    .unwrap();

    let mut writer = Writer::new(&schema, Vec::new()).unwrap();

    let user1 = vec![
        ("name".to_string(), Value::String("John Doe".to_string())),
        ("age".to_string(), Value::Int(25)),
        ("email".to_string(), Value::String("john@example.com".to_string())),
    ];

    let user2 = vec![
        ("name".to_string(), Value::String("Jane Smith".to_string())),
        ("age".to_string(), Value::Int(30)),
        ("email".to_string(), Value::String("jane@example.com".to_string())),
    ];

    writer.append(Value::Record(user1)).unwrap();
    writer.append(Value::Record(user2)).unwrap();
    writer.into_inner().unwrap()
}

#[test]
fn test_parse_avro_success() {
    let avro_data = create_test_avro_data();
    let result = parse_avro(&avro_data).unwrap();

    assert_eq!(result.len(), 2);
    assert_eq!(text(&result[0], "name"), "John Doe");
    assert_eq!(int_field(&result[0], "age"), 25);
    assert_eq!(text(&result[1], "name"), "Jane Smith");
    assert_eq!(int_field(&result[1], "age"), 30);
}

#[test]
fn test_parse_invalid_avro() {
    let invalid_data = b"invalid avro data";
    let result = parse_avro(invalid_data);

    assert!(result.is_err());
}

#[test]
fn test_parse_avro_invalid_is_parse_error() {
    let result = parse_avro(b"not a container");
    assert!(matches!(result, Err(IngestionError::Parse(_))));
}
