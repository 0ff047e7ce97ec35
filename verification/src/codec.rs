//! The boundary to `serde_json`: parsing a text into a document and writing
//! a document as text. The parser, the writer and the conversions between
//! `serde_json::Value` and `Json` are not proved; their contracts name what
//! they return.

use crate::json::{Json, JsonV};
use serde_json::Value;
use vstd::prelude::*;

verus! {

/// `serde_json::Value`, a JSON value of the outside crate; nothing of its
/// inside is known here.
#[verifier::external_type_specification]
#[verifier::external_body]
pub struct ExValue(serde_json::Value);

/// The document that a `serde_json::Value` holds.
pub uninterp spec fn value_doc(v: serde_json::Value) -> JsonV;

/// The compact text that `serde_json` writes for a `serde_json::Value`.
pub uninterp spec fn value_text(v: serde_json::Value) -> Seq<char>;

/// What `serde_json::from_str` makes of a text: the document it denotes,
/// or nothing where the text is not exactly one JSON document.
pub uninterp spec fn json_parse(text: Seq<char>) -> Option<JsonV>;

/// The compact text that `serde_json` writes for a document.
pub uninterp spec fn json_text(value: JsonV) -> Seq<char>;

/// Parses a text with `serde_json::from_str` into a `serde_json::Value`.
/// The contract claims only that the outcome is a function of the text:
/// `json_parse` is that function, and gives the document that the value
/// holds.
#[verifier::external_body]
fn read_value(text: &str) -> (r: Option<Value>)
    ensures
        match r {
            Some(v) => json_parse(text@) == Some(value_doc(v)),
            None => json_parse(text@) is None,
        },
{
    serde_json::from_str::<Value>(text).ok()
}

/// Hands out what a `serde_json::Value` holds, variant by variant. An
/// integer that `as_u64` gives is kept unsigned, another that `as_i64`
/// gives is kept signed, and any other number is kept as the text that
/// `Number`'s `to_string` writes for it. The entries of an object come in
/// the order in which the map hands them out. The contract claims only
/// that the document is a function of the value: `value_doc` is that
/// function.
#[verifier::external_body]
fn lower(v: &Value) -> (r: Json)
    ensures
        r@ == value_doc(*v),
{
    match v {
        Value::Null => Json::Null,
        Value::Bool(b) => Json::Bool(*b),
        Value::Number(n) => match (n.as_u64(), n.as_i64()) {
            (Some(u), _) => Json::Unsigned(u),
            (None, Some(i)) => Json::Signed(i),
            (None, None) => Json::Real(n.to_string()),
        },
        Value::String(s) => Json::Str(s.clone()),
        Value::Array(a) => Json::Array(a.iter().map(lower).collect()),
        Value::Object(o) => Json::Object(o.iter().map(|(k, x)| (k.clone(), lower(x))).collect()),
    }
}

/// Makes a `serde_json::Value` of a document, variant by variant. The text
/// of a real number goes through `str::parse` and
/// `serde_json::Number::from_f64`; where either gives nothing the number
/// becomes `Value::Null`. The entries of an object are collected into a
/// `serde_json::Map`. The contract claims only that the text written for
/// the value is a function of the document's view: `json_text` is that
/// function.
#[verifier::external_body]
fn raise(j: &Json) -> (r: Value)
    ensures
        value_text(r) == json_text(j@),
{
    match j {
        Json::Null => Value::Null,
        Json::Bool(b) => Value::Bool(*b),
        Json::Unsigned(n) => Value::from(*n),
        Json::Signed(n) => Value::from(*n),
        Json::Real(t) => t.parse().ok().and_then(serde_json::Number::from_f64).map_or(
            Value::Null,
            Value::Number,
        ),
        Json::Str(s) => Value::String(s.clone()),
        Json::Array(a) => Value::Array(a.iter().map(raise).collect()),
        Json::Object(o) => Value::Object(o.iter().map(|e| (e.0.clone(), raise(&e.1))).collect()),
    }
}

/// Writes a `serde_json::Value` in compact form with its `to_string`. The
/// contract claims only that the text is a function of the value:
/// `value_text` is that function.
#[verifier::external_body]
fn write_value(v: &Value) -> (r: String)
    ensures
        r@ == value_text(*v),
{
    v.to_string()
}

/// Parses one JSON document.
pub fn parse(text: &str) -> (r: Option<Json>)
    ensures
        match r {
            Some(j) => json_parse(text@) == Some(j@),
            None => json_parse(text@) is None,
        },
{
    match read_value(text) {
        Some(v) => Some(lower(&v)),
        None => None,
    }
}

/// Writes a document as compact JSON text.
pub fn render(j: &Json) -> (r: String)
    ensures
        r@ == json_text(j@),
{
    let v = raise(j);
    write_value(&v)
}

} // verus!
