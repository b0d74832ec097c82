//! The record model: one inbound event's payload as the library sees it.
//!
//! A structured payload is an ordered list of fields, each a name and a
//! scalar value; the textual form of a number is kept as it was rendered so
//! that no field ever passes through a machine float.

use vstd::prelude::*;

use crate::error::Error;
use crate::helpers::IsJson;
use crate::helpers::spec_json_shaped;

verus! {

/// One structured value of a record field.
#[derive(Debug)]
pub enum JsonValue {
    /// An explicit null.
    Null,
    /// A boolean.
    Bool(bool),
    /// A number, kept as its rendered literal text.
    Number(String),
    /// A string.
    Text(String),
    /// A nested object or array; unsupported, excluded from derived schemas.
    Composite,
}

/// The mathematical shadow of a structured value: the same shape, with each
/// string reduced to its characters.
pub enum JsonValueView {
    Null,
    Bool(bool),
    Number(Seq<char>),
    Text(Seq<char>),
    Composite,
}

impl View for JsonValue {
    type V = JsonValueView;

    open spec fn view(&self) -> JsonValueView {
        match self {
            JsonValue::Null => JsonValueView::Null,
            JsonValue::Bool(b) => JsonValueView::Bool(*b),
            JsonValue::Number(s) => JsonValueView::Number(s@),
            JsonValue::Text(s) => JsonValueView::Text(s@),
            JsonValue::Composite => JsonValueView::Composite,
        }
    }
}

/// The fields of one structured record, in order.
pub type Record = Vec<(String, JsonValue)>;

/// The mathematical shadow of a record: each field's name characters and
/// value view, in order.
pub open spec fn record_view(rec: Seq<(String, JsonValue)>) -> Seq<(Seq<char>, JsonValueView)> {
    rec.map_values(|f: (String, JsonValue)| (f.0@, f.1@))
}

/// A payload after the shape test: either a parsed structured record or the
/// raw bytes kept for the degraded insert path.
#[derive(Debug)]
pub enum Payload {
    /// A parsed structured record.
    Structured(Record),
    /// A payload that is not structured; its bytes are kept as they came.
    Raw(Vec<u8>),
}

/// Whether these bytes parse as one structured document — a map at top
/// level. The outcome is a function of the bytes alone.
pub uninterp spec fn json_object_ok(bs: Seq<u8>) -> bool;

/// The record these bytes parse to, when they parse: field names and value
/// views, in the parser's key order. A function of the bytes alone.
pub uninterp spec fn json_object_of(bs: Seq<u8>) -> Seq<(Seq<char>, JsonValueView)>;

/// Relies on `serde_json::from_slice` deserializing into `serde_json::Map`:
/// whether the bytes parse, and what they parse to, depend on the bytes
/// alone, so both are named (`json_object_ok`, `json_object_of`); the map is
/// ordered, so the keys of a parsed object come back distinct. Each value is
/// carried over variant by variant, with `serde_json::Number`'s rendering as
/// the textual form of a number; nested objects and arrays become
/// `JsonValue::Composite`.
#[verifier::external_body]
fn parse_json_object(payload: &[u8]) -> (r: Result<Record, String>)
    ensures
        (r matches Ok(_)) == json_object_ok(payload@),
        r matches Ok(rec) ==> record_view(rec@) == json_object_of(payload@),
        r matches Ok(rec) ==> forall|i: int, j: int|
            0 <= i < j < rec@.len() ==> rec@[i].0@ != rec@[j].0@,
{
    match serde_json::from_slice::<serde_json::Map<String, serde_json::Value>>(payload) {
        Ok(entries) => Ok(
            entries
                .into_iter()
                .map(|(key, value)| (key, match value {
                    serde_json::Value::Null => JsonValue::Null,
                    serde_json::Value::Bool(b) => JsonValue::Bool(b),
                    serde_json::Value::Number(n) => JsonValue::Number(n.to_string()),
                    serde_json::Value::String(s) => JsonValue::Text(s),
                    _ => JsonValue::Composite,
                }))
                .collect(),
        ),
        Err(err) => Err(err.to_string()),
    }
}

/// Classifies a payload. A brace-delimited payload is parsed: a record comes
/// back exactly when the bytes form a structured document, and a payload
/// that is brace-delimited but does not parse is a `JSONError` — never
/// silently dropped or misfiled. Anything not brace-delimited is kept raw
/// for the degraded insert path.
pub fn parse_payload(payload: Vec<u8>) -> (r: Result<Payload, Error>)
    ensures
        match r {
            Ok(Payload::Raw(b)) => !spec_json_shaped(payload@) && b@ == payload@,
            Ok(Payload::Structured(rec)) => spec_json_shaped(payload@) && json_object_ok(payload@)
                && record_view(rec@) == json_object_of(payload@) && (forall|i: int, j: int|
                0 <= i < j < rec@.len() ==> rec@[i].0@ != rec@[j].0@),
            Err(e) => spec_json_shaped(payload@) && !json_object_ok(payload@) && e matches
                Error::JSONError { .. },
        },
{
    if payload.is_json() {
        match parse_json_object(payload.as_slice()) {
            Ok(rec) => Ok(Payload::Structured(rec)),
            Err(err) => Err(Error::JSONError { error: err }),
        }
    } else {
        Ok(Payload::Raw(payload))
    }
}

} // verus!
