//! Row-oriented container decoding: a self-describing record container is
//! read sequentially, each contained value becoming one record.

use vstd::prelude::*;
use crate::error::IngestionError;
use crate::json_parser::convert_json;
use crate::value::{arr_view, JsonField, JsonValue, ValueView};

verus! {

/// The records of a row-oriented container byte stream, in the library's
/// value shape with every object's fields in name order; `None` when the
/// header or any contained value is malformed.
pub uninterp spec fn avro_records(bytes: Seq<u8>) -> Option<Seq<ValueView>>;

/// Relies on `apache_avro::Reader` and `apache_avro::from_value`: the
/// contained values in order, each converted through its JSON form with
/// every object's fields put in name order; any malformed value aborts
/// the read. A map-typed value reaches its JSON form through a hash map
/// whose iteration order is arbitrary, so the name-order canonicalization
/// is what makes the result a function of the bytes alone.
#[verifier::external_body]
fn read_avro_records(bytes: &[u8]) -> (r: Result<Vec<JsonValue>, String>)
    ensures
        match r {
            Ok(v) => avro_records(bytes@) matches Some(rs) && arr_view(v@) == rs,
            Err(_) => avro_records(bytes@) is None,
        },
{
    let reader = match apache_avro::Reader::new(std::io::Cursor::new(bytes)) {
        Ok(rd) => rd,
        Err(e) => return Err(e.to_string()),
    };
    let mut out = Vec::new();
    for item in reader {
        let value = item.map_err(|e| e.to_string())?;
        let json: serde_json::Value = apache_avro::from_value(&value).map_err(|e| e.to_string())?;
        out.push(convert_sorted(json));
    }
    Ok(out)
}

/// Converts a JSON document into the library's value shape with every
/// object's fields sorted by name: containers are rebuilt through an
/// ordered map, which makes the field order canonical whatever order the
/// entries arrive in, and scalars convert as `convert_json` does.
#[verifier::external_body]
fn convert_sorted(v: serde_json::Value) -> JsonValue {
    match v {
        serde_json::Value::Array(a) => JsonValue::Arr(a.into_iter().map(convert_sorted).collect()),
        serde_json::Value::Object(m) => {
            let sorted: std::collections::BTreeMap<String, serde_json::Value> =
                m.into_iter().collect();
            let fields =
                sorted.into_iter().map(|(k, v)| JsonField { name: k, value: convert_sorted(v) });
            JsonValue::Obj(fields.collect())
        },
        scalar => convert_json(scalar),
    }
}

/// Decodes a row-oriented container. Succeeds exactly when the container
/// and every contained value are well formed, and then yields one record
/// per value, in order.
pub fn parse_avro(bytes: &[u8]) -> (r: Result<Vec<JsonValue>, IngestionError>)
    ensures
        match r {
            Ok(recs) => avro_records(bytes@) matches Some(rs) && arr_view(recs@) == rs,
            Err(e) => avro_records(bytes@) is None && e is Parse,
        },
{
    match read_avro_records(bytes) {
        Ok(v) => Ok(v),
        Err(m) => Err(IngestionError::Parse(m)),
    }
}

} // verus!
