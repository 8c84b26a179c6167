//! JSON text, read and written by `serde_json`.

use crate::error::Error;
use crate::json::{names_apart, Json, JsonView};
use serde_json::{Number, Value};
use vstd::prelude::*;

verus! {

/// `serde_json::Value`, which the functions below turn into [`Json`] and back.
#[verifier::external_type_specification]
#[verifier::external_body]
pub struct ExValue(serde_json::Value);

/// The value that `serde_json` reads out of `text`, if it reads one.
pub uninterp spec fn parsed(text: Seq<char>) -> Option<JsonView>;

/// The text that `serde_json` writes for `value`, if it can write one.
pub uninterp spec fn rendered(value: JsonView) -> Option<Seq<char>>;

/// Turns a `serde_json::Value` into a [`Json`], variant by variant. A number
/// becomes an `Int` where `serde_json::Number::as_i128` gives one, and a `Real`
/// with the number's own text where not. Nothing is claimed of the result.
#[verifier::external_body]
fn from_outside(value: &serde_json::Value) -> Json {
    match value {
        Value::Null => Json::Null,
        Value::Bool(b) => Json::Bool(*b),
        Value::Number(n) => match n.as_i128() {
            Some(i) => Json::Int(i),
            None => Json::Real(n.to_string()),
        },
        Value::String(s) => Json::Text(s.clone()),
        Value::Array(a) => Json::Array(a.iter().map(from_outside).collect()),
        Value::Object(o) => Json::Object(
            o.iter().map(|(k, v)| (k.clone(), from_outside(v))).collect(),
        ),
    }
}

/// Turns a [`Json`] into a `serde_json::Value`, variant by variant, where
/// `serde_json` has a number for each `Int` (`Number::from_i128`) and each
/// `Real` (`str::parse`). Nothing is claimed of the result.
#[verifier::external_body]
fn to_outside(value: &Json) -> Option<serde_json::Value> {
    Some(match value {
        Json::Null => Value::Null,
        Json::Bool(b) => Value::Bool(*b),
        Json::Int(i) => Value::Number(Number::from_i128(*i)?),
        Json::Real(s) => Value::Number(s.parse().ok()?),
        Json::Text(s) => Value::String(s.clone()),
        Json::Array(a) => Value::Array(
            a.iter().map(to_outside).collect::<Option<_>>()?,
        ),
        Json::Object(o) => Value::Object(
            o.iter().map(|(k, v)| Some((k.clone(), to_outside(v)?))).collect::<Option<_>>()?,
        ),
    })
}

/// Calls `serde_json::from_str` for a `serde_json::Value`.
///
/// What comes back depends on the text alone, so it has a name: the contract
/// says that the value read is `parsed` of the text, and that `parsed` has
/// none where reading fails.
#[verifier::external_body]
fn read_value(text: &str) -> (r: Option<Json>)
    ensures
        match r {
            Some(value) => parsed(text@) == Some(value@),
            None => parsed(text@) is None,
        },
{
    match serde_json::from_str::<Value>(text) {
        Ok(value) => Some(from_outside(&value)),
        Err(_) => None,
    }
}

/// Calls `serde_json::to_string` on the value.
///
/// What comes back depends on the value alone, so it has a name: the contract
/// says that the text written is `rendered` of the value, and that `rendered`
/// has none where there is no text to write.
#[verifier::external_body]
fn write_value(value: &Json) -> (r: Option<String>)
    ensures
        match r {
            Some(text) => rendered(value@) == Some(text@),
            None => rendered(value@) is None,
        },
{
    serde_json::to_string(&to_outside(value)?).ok()
}

/// Reads a JSON value out of `text`; what is no JSON text is a protocol error.
pub fn parse(text: &str) -> (r: Result<Json, Error>)
    ensures
        match parsed(text@) {
            Some(value) => r matches Ok(read) && read@ == value,
            None => r == Err::<Json, _>(Error::Protocol),
        },
{
    match read_value(text) {
        Some(value) => Ok(value),
        None => Err(Error::Protocol),
    }
}

/// The text that is written for `value`: none where some object in it has
/// two entries with one name, and what `serde_json` writes where none has.
pub open spec fn written(value: JsonView) -> Option<Seq<char>> {
    if names_apart(value) {
        rendered(value)
    } else {
        None
    }
}

/// Writes `value` as JSON text, where it has one. A value in which an object
/// has two entries with one name has none.
pub fn render(value: &Json) -> (r: Option<String>)
    ensures
        r.deep_view() == written(value@),
{
    if value.names_apart() {
        write_value(value)
    } else {
        None
    }
}

} // verus!
