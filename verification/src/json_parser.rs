//! JSON decoding: a top-level array yields one record per element, order
//! preserved; any other top-level value yields a single record wrapping it.

use vstd::prelude::*;
use crate::error::IngestionError;
use crate::value::{arr_view, lemma_value_view_shape, value_view, JsonField, JsonValue, ValueView};

verus! {

broadcast use crate::value::lemma_arr_value_view;

/// The parsed-document type of the JSON crate, opaque to the verifier.
#[verifier::external_type_specification]
#[verifier::external_body]
pub struct ExSerdeValue(serde_json::Value);

/// The document parsed from a JSON byte stream, in the library's value
/// shape; `None` when the bytes are not valid JSON.
pub uninterp spec fn json_doc(bytes: Seq<u8>) -> Option<ValueView>;

/// Relies on `serde_json::from_slice`: the parsed document is a function
/// of the bytes alone.
#[verifier::external_body]
pub(crate) fn parse_json_value(bytes: &[u8]) -> (r: Result<JsonValue, String>)
    ensures
        match r {
            Ok(v) => json_doc(bytes@) matches Some(d) && value_view(v) == d,
            Err(_) => json_doc(bytes@) is None,
        },
{
    match serde_json::from_slice::<serde_json::Value>(bytes) {
        Ok(v) => Ok(convert_json(v)),
        Err(e) => Err(e.to_string()),
    }
}

/// Converts a parsed `serde_json` document into the library's value shape,
/// one arm per kind: integers exactly, any other number as its decimal
/// rendering. Relies on `serde_json::Number::as_i64` and `to_string`.
#[verifier::external_body]
pub(crate) fn convert_json(v: serde_json::Value) -> JsonValue {
    match v {
        serde_json::Value::Null => JsonValue::Null,
        serde_json::Value::Bool(b) => JsonValue::Bool(b),
        serde_json::Value::Number(n) => match n.as_i64() {
            Some(i) => JsonValue::Int(i),
            None => JsonValue::Num(n.to_string()),
        },
        serde_json::Value::String(s) => JsonValue::Text(s),
        serde_json::Value::Array(a) => JsonValue::Arr(a.into_iter().map(convert_json).collect()),
        serde_json::Value::Object(m) => JsonValue::Obj(
            m.into_iter().map(|(k, val)| JsonField { name: k, value: convert_json(val) }).collect(),
        ),
    }
}

/// What decoding a JSON document yields: the elements of a top-level
/// array, or the document itself as the only record.
pub open spec fn json_records(doc: ValueView) -> Seq<ValueView> {
    match doc {
        ValueView::Arr(items) => items,
        _ => seq![doc],
    }
}

/// Decodes JSON. Succeeds exactly when the bytes are a well-formed JSON
/// document, and then yields the records that `json_records` describes.
pub fn parse_json(bytes: &[u8]) -> (r: Result<Vec<JsonValue>, IngestionError>)
    ensures
        match r {
            Ok(recs) => json_doc(bytes@) matches Some(d) && arr_view(recs@) == json_records(d),
            Err(e) => json_doc(bytes@) is None && e is Parse,
        },
{
    let v = match parse_json_value(bytes) {
        Ok(v) => v,
        Err(m) => { return Err(IngestionError::Parse(m)) },
    };
    proof {
        lemma_value_view_shape(v);
    }
    match v {
        JsonValue::Arr(items) => Ok(items),
        other => {
            let ghost d = value_view(other);
            let mut out: Vec<JsonValue> = Vec::new();
            out.push(other);
            proof {
                assert(arr_view(out@) =~= seq![d]);
            }
            Ok(out)
        },
    }
}

} // verus!
