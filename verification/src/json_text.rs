//! JSON values as text, by way of `serde_json`.
use serde_json::Value;
use vstd::prelude::*;

use crate::json;
use crate::json::JsonNumber::{Negative, Real, Unsigned};
use crate::json::{Json, RealNumber};

verus! {

/// The value type of `serde_json`.
#[verifier::external_type_specification]
#[verifier::external_body]
pub struct ExSerdeValue(serde_json::Value);

/// The `serde_json` value that stands for a value.
pub uninterp spec fn serde_value(value: json::JsonView) -> Value;

/// What a `serde_json` value stands for.
pub uninterp spec fn serde_view(value: Value) -> json::JsonView;

/// What `serde_json::to_string` writes.
pub uninterp spec fn serde_compact(value: Value) -> Seq<char>;

/// What `serde_json::to_string_pretty` writes.
pub uninterp spec fn serde_pretty(value: Value) -> Seq<char>;

/// What `serde_json::from_str` reads as a value.
pub uninterp spec fn serde_parsed(text: Seq<char>) -> Option<Value>;

/// A value as a `serde_json::Value`, variant by variant. An object becomes a `serde_json::Map`,
/// in which of two entries with the same key the later counts.
#[verifier::external_body]
fn to_serde(value: &Json) -> (r: Value)
    ensures
        r == serde_value(value@),
{
    match value {
        Json::Null => Value::Null,
        Json::Bool(b) => Value::Bool(*b),
        Json::Number(Unsigned(n)) => Value::from(*n),
        Json::Number(Negative(n)) => Value::from(*n),
        Json::Number(Real(x)) => x.text.parse().unwrap_or(Value::Null),
        Json::Text(s) => Value::String(s.clone()),
        Json::List(v) => Value::Array(v.iter().map(to_serde).collect()),
        Json::Object(v) => Value::Object(
            v.iter().map(|(k, v)| (k.clone(), to_serde(v))).collect(),
        ),
    }
}

/// A `serde_json::Value` as a value, variant by variant. A number is unsigned where `as_u64` gives
/// one, negative where `as_i64` does, and else the text that its `Display` writes with the
/// integral part of its `as_f64`.
#[verifier::external_body]
fn from_serde(value: Value) -> (r: Json)
    ensures
        r@ == serde_view(value),
{
    match value {
        Value::Null => Json::Null,
        Value::Bool(b) => Json::Bool(b),
        Value::Number(n) => Json::Number(match (n.as_u64(), n.as_i64()) {
            (Some(u), _) => Unsigned(u),
            (None, Some(i)) => Negative(i),
            _ => Real(RealNumber { text: n.to_string(), magnitude: n.as_f64().unwrap_or_default() as u64 }),
        }),
        Value::String(s) => Json::Text(s),
        Value::Array(v) => Json::List(v.into_iter().map(from_serde).collect()),
        Value::Object(m) => Json::Object(m.into_iter().map(|(k, v)| (k, from_serde(v))).collect()),
    }
}

/// `serde_json::to_string` on a value, which cannot fail on one.
#[verifier::external_body]
fn write_compact(value: &Value) -> (r: String)
    ensures
        r@ == serde_compact(*value),
{
    serde_json::to_string(value).unwrap_or_else(|_| "{}".to_string())
}

/// `serde_json::to_string_pretty` on a value, which cannot fail on one.
#[verifier::external_body]
fn write_pretty(value: &Value) -> (r: String)
    ensures
        r@ == serde_pretty(*value),
{
    serde_json::to_string_pretty(value).unwrap_or_else(|_| "{}".to_string())
}

/// `serde_json::from_str`: the value that a text holds, or none where it is no JSON.
#[verifier::external_body]
fn read_value(text: &str) -> (r: Option<Value>)
    ensures
        r == serde_parsed(text@),
{
    serde_json::from_str(text).ok()
}

/// The text of a value on one line.
pub open spec fn compact(value: json::JsonView) -> Seq<char> {
    serde_compact(serde_value(value))
}

/// The text of a value on indented lines.
pub open spec fn pretty(value: json::JsonView) -> Seq<char> {
    serde_pretty(serde_value(value))
}

/// The value that a text holds.
pub open spec fn parsed(text: Seq<char>) -> Option<json::JsonView> {
    match serde_parsed(text) {
        Some(value) => Some(serde_view(value)),
        None => None,
    }
}

/// The text of a value on one line.
pub fn json_compact_value(value: &Json) -> (r: String)
    ensures
        r@ == compact(value@),
{
    write_compact(&to_serde(value))
}

/// The text of a value on indented lines.
pub fn json_pretty_value(value: &Json) -> (r: String)
    ensures
        r@ == pretty(value@),
{
    write_pretty(&to_serde(value))
}

/// The value that a text holds, or none where it is no JSON.
pub fn parse_json(text: &str) -> (r: Option<Json>)
    ensures
        r is Some == parsed(text@) is Some,
        r matches Some(value) ==> Some(value@) == parsed(text@),
{
    match read_value(text) {
        Some(value) => Some(from_serde(value)),
        None => None,
    }
}

} // verus!
