//! Map-typed container values: their fields arrive through a hash map, so
//! the decoder canonicalizes object field order by name, making the
//! decode a function of the bytes.

use apache_avro::{types::Value, Schema, Writer};
use data_ingestion::avro_parser::parse_avro;
use data_ingestion::value::JsonValue;
use std::collections::HashMap;

fn map_container_bytes() -> Vec<u8> {
    let schema = Schema::parse_str(
        r#"{"type":"record","name":"R","fields":[{"name":"tags","type":{"type":"map","values":"int"}}]}"#,
    )
    .unwrap();
    let mut writer = Writer::new(&schema, Vec::new()).unwrap();
    let mut tags: HashMap<String, Value> = HashMap::new();
    tags.insert("zeta".to_string(), Value::Int(1));
    tags.insert("alpha".to_string(), Value::Int(2));
    tags.insert("mid".to_string(), Value::Int(3));
    writer.append(Value::Record(vec![("tags".to_string(), Value::Map(tags))])).unwrap();
    writer.into_inner().unwrap()
}

#[test]
fn test_avro_map_fields_are_in_name_order() {
    let bytes = map_container_bytes();
    let result = parse_avro(&bytes).unwrap();
    assert_eq!(result.len(), 1);
    let tags = result[0].get("tags").expect("missing map field");
    match tags {
        JsonValue::Obj(fields) => {
            let names: Vec<&str> = fields.iter().map(|f| f.name.as_str()).collect();
            assert_eq!(names, vec!["alpha", "mid", "zeta"]);
        },
        _ => panic!("map field is not an object"),
    }
}

#[test]
fn test_avro_map_decode_is_deterministic() {
    let bytes = map_container_bytes();
    let first = parse_avro(&bytes).unwrap();
    let second = parse_avro(&bytes).unwrap();
    let names = |r: &Vec<JsonValue>| -> Vec<String> {
        match r[0].get("tags").unwrap() {
            JsonValue::Obj(fields) => fields.iter().map(|f| f.name.clone()).collect(),
            _ => panic!("map field is not an object"),
        }
    };
    assert_eq!(names(&first), names(&second));
}
