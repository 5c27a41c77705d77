//! The JSON codec: what is taken on trust from `serde_json`.

use crate::error::Error;
use crate::json::{signed_number, JsonModel, JsonNumber, JsonValue, NumberModel};
use serde_json::{Number, Value};
use vstd::prelude::*;

verus! {

/// A document of the codec.
#[verifier::external_type_specification]
#[verifier::external_body]
pub struct ExCodecValue(Value);

/// The text of the JSON number that the codec makes of the double written as
/// `text`, or `None` where `text` is not a double or the double is not
/// finite.
pub uninterp spec fn finite_double_text(text: Seq<char>) -> Option<Seq<char>>;

/// The document that the codec reads from `text`, or `None` where `text` is
/// not one JSON document.
pub uninterp spec fn parsed_json(text: Seq<char>) -> Option<JsonModel>;

/// The text that the codec writes for a document on one line.
pub uninterp spec fn compact_json(document: JsonModel) -> Seq<char>;

/// The text that the codec writes for a document over indented lines.
pub uninterp spec fn pretty_json(document: JsonModel) -> Seq<char>;

/// The form in which the codec holds a number: an integer that is zero or
/// more is never held as a negative one, a double is held as the codec
/// writes it, and a double that has no JSON number is held as null.
pub open spec fn stored_number(n: NumberModel) -> JsonModel {
    match n {
        NumberModel::PosInt(u) => JsonModel::Number(NumberModel::PosInt(u)),
        NumberModel::NegInt(i) => JsonModel::Number(signed_number(i)),
        NumberModel::Float(text) => match finite_double_text(text) {
            Some(number) => JsonModel::Number(NumberModel::Float(number)),
            None => JsonModel::Null,
        },
    }
}

/// The members of an object in the form in which the codec holds them.
pub open spec fn stored_members(members: Seq<(String, JsonValue)>) -> Map<Seq<char>, JsonModel>
    decreases members, 0int,
{
    if members.len() == 0 {
        Map::empty()
    } else {
        let last = members.last();
        stored_members(members.drop_last()).insert(last.0@, stored_form(last.1))
    }
}

/// The form in which the codec holds a document: the document itself, with
/// every number in its stored form.
pub open spec fn stored_form(v: JsonValue) -> JsonModel
    decreases v, 1int,
{
    match v {
        JsonValue::Null => JsonModel::Null,
        JsonValue::Bool(b) => JsonModel::Bool(b),
        JsonValue::Number(n) => stored_number(n@),
        JsonValue::String(s) => JsonModel::String(s@),
        JsonValue::Array(items) => JsonModel::Array(
            Seq::new(
                items@.len(),
                |i: int|
                    if 0 <= i < items@.len() {
                        stored_form(items@[i])
                    } else {
                        JsonModel::Null
                    },
            ),
        ),
        JsonValue::Object(members) => JsonModel::Object(stored_members(members@)),
    }
}

/// Calls `serde_json::Number::from_f64` on the double that `text` reads as.
/// A JSON number comes back for a finite double and nothing for any other;
/// the number is handed on as the text that the codec writes for it.
#[verifier::external_body]
pub(crate) fn json_double(text: &str) -> (r: Option<String>)
    ensures
        r is Some == finite_double_text(text@) is Some,
        r matches Some(number) ==> finite_double_text(text@) == Some(number@),
{
    text.parse().ok().and_then(Number::from_f64).map(|number| number.to_string())
}

/// Makes the codec's own document of a number: `serde_json::Value::from`
/// for an integer, `serde_json::Number::from_f64` for a double. A double
/// that has no JSON number becomes null.
#[verifier::external_body]
fn to_codec_number(n: &JsonNumber) -> Value {
    match n {
        JsonNumber::PosInt(u) => Value::from(*u),
        JsonNumber::NegInt(i) => Value::from(*i),
        JsonNumber::Float(text) => {
            text.parse().ok().and_then(Number::from_f64).map_or(Value::Null, Value::Number)
        },
    }
}

/// Makes the codec's own document of a document, member by member. Each
/// member of an object is put with `serde_json::Map::insert`, so of two
/// members with one key the later counts.
#[verifier::external_body]
pub(crate) fn to_codec(v: &JsonValue) -> Value {
    match v {
        JsonValue::Null => Value::Null,
        JsonValue::Bool(b) => Value::Bool(*b),
        JsonValue::Number(n) => to_codec_number(n),
        JsonValue::String(s) => Value::String(s.clone()),
        JsonValue::Array(items) => Value::Array(items.iter().map(to_codec).collect()),
        JsonValue::Object(members) => Value::Object(
            members.iter().fold(serde_json::Map::new(), |mut map, (key, member)| {
                map.insert(key.clone(), to_codec(member));
                map
            }),
        ),
    }
}

/// Makes a document of the codec's own document, member by member, in the
/// order in which the codec walks an object: a number by `as_u64`, else
/// `as_i64`, else by the text that the codec writes for it.
#[verifier::external_body]
fn from_codec(v: &Value) -> JsonValue {
    match v {
        Value::Null => JsonValue::Null,
        Value::Bool(b) => JsonValue::Bool(*b),
        Value::Number(n) => JsonValue::Number(match (n.as_u64(), n.as_i64()) {
            (Some(u), _) => JsonNumber::PosInt(u),
            (_, Some(i)) => JsonNumber::NegInt(i),
            _ => JsonNumber::Float(n.to_string()),
        }),
        Value::String(s) => JsonValue::String(s.clone()),
        Value::Array(items) => JsonValue::Array(items.iter().map(from_codec).collect()),
        Value::Object(map) => JsonValue::Object(
            map.iter().map(|(key, member)| (key.clone(), from_codec(member))).collect(),
        ),
    }
}

/// Calls `serde_json::from_str`, and `to_string` on the error where it
/// fails. Whether the text is a document, and which, depends on the text
/// alone. A document that was read is in the form in which the codec holds
/// it: the codec made its numbers.
#[verifier::external_body]
pub(crate) fn read_document(text: &str) -> (r: Result<JsonValue, String>)
    ensures
        r is Ok == parsed_json(text@) is Some,
        r matches Ok(document) ==> parsed_json(text@) == Some(document@),
        r matches Ok(document) ==> stored_form(document) == document@,
{
    match serde_json::from_str::<Value>(text) {
        Ok(document) => Ok(from_codec(&document)),
        Err(error) => Err(error.to_string()),
    }
}

/// Calls `serde_json::to_string`, and `to_string` on the error where it
/// fails. The codec writes every document of its own: it has a text for
/// every number that it holds, and every key is a string. The text depends
/// on the document alone.
#[verifier::external_body]
pub(crate) fn write_compact(document: &JsonValue) -> (r: Result<String, String>)
    ensures
        r is Ok,
        r matches Ok(text) ==> text@ == compact_json(document@),
{
    match serde_json::to_string(&to_codec(document)) {
        Ok(text) => Ok(text),
        Err(error) => Err(error.to_string()),
    }
}

/// Calls `serde_json::to_string_pretty`, and `to_string` on the error where
/// it fails. The codec writes every document of its own, and the text
/// depends on the document alone.
#[verifier::external_body]
pub(crate) fn write_pretty(document: &JsonValue) -> (r: Result<String, String>)
    ensures
        r is Ok,
        r matches Ok(text) ==> text@ == pretty_json(document@),
{
    match serde_json::to_string_pretty(&to_codec(document)) {
        Ok(text) => Ok(text),
        Err(error) => Err(error.to_string()),
    }
}

impl JsonValue {
    /// Reads a JSON document from its text.
    pub fn parse(text: &str) -> (r: Result<JsonValue, Error>)
        ensures
            r is Ok == parsed_json(text@) is Some,
            r matches Ok(document) ==> parsed_json(text@) == Some(document@),
            r matches Ok(document) ==> stored_form(document) == document@,
            r matches Err(error) ==> error is SerdeJson,
    {
        match read_document(text) {
            Ok(document) => Ok(document),
            Err(detail) => Err(Error::SerdeJson(detail)),
        }
    }

    /// Writes the document on one line. Every document can be written.
    pub fn to_compact(&self) -> (r: Result<String, Error>)
        ensures
            r matches Ok(text) && text@ == compact_json(self@),
    {
        match write_compact(self) {
            Ok(text) => Ok(text),
            Err(detail) => Err(Error::SerdeJson(detail)),
        }
    }

    /// Writes the document over indented lines. Every document can be
    /// written.
    pub fn to_pretty(&self) -> (r: Result<String, Error>)
        ensures
            r matches Ok(text) && text@ == pretty_json(self@),
    {
        match write_pretty(self) {
            Ok(text) => Ok(text),
            Err(detail) => Err(Error::SerdeJson(detail)),
        }
    }
}

} // verus!
