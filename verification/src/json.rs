//! Reading JSON documents, with `serde_json`.

use vstd::prelude::*;

use crate::lua::JsonValue;

verus! {

#[verifier::external_type_specification]
#[verifier::external_body]
pub struct ExJsonDocument(serde_json::Value);

/// The JSON document that `text` holds, if it holds one: what
/// `serde_json::from_str` reads from it, with objects' members in the order
/// of their names (the order in which `serde_json`, built without its
/// `preserve_order` feature, keeps them) and numbers as `serde_json` prints
/// them.
pub uninterp spec fn json_document(text: Seq<char>) -> Option<JsonValue>;

/// A `serde_json` value as the library's JSON value.
///
/// Trusted: converts each variant of `serde_json::Value` into the matching
/// variant of [`JsonValue`], numbers by `serde_json::Number`'s `Display`.
#[verifier::external_body]
fn json_of(value: serde_json::Value) -> JsonValue {
    match value {
        serde_json::Value::Null => JsonValue::Null,
        serde_json::Value::Bool(b) => JsonValue::Bool(b),
        serde_json::Value::Number(n) => JsonValue::Number(n.to_string()),
        serde_json::Value::String(s) => JsonValue::Str(s),
        serde_json::Value::Array(a) => JsonValue::Array(a.into_iter().map(json_of).collect()),
        serde_json::Value::Object(o) => JsonValue::Object(o.into_iter().map(|(k, v)| (k, json_of(v))).collect()),
    }
}

/// The JSON document that `text` holds, or `None` where it holds none.
///
/// Trusted: `serde_json::from_str::<serde_json::Value>`.  The contract names
/// its result ([`json_document`]): the document depends on the text alone.
#[verifier::external_body]
pub fn parse_json(text: &str) -> (r: Option<JsonValue>)
    ensures
        r == json_document(text@),
{
    serde_json::from_str::<serde_json::Value>(text).ok().map(json_of)
}

} // verus!
