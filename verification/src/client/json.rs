//! Answers in JSON, as the `serde_json` crate reads them.

use vstd::prelude::*;
use serde_json::Value;
use crate::text::{copy_text, views};

verus! {

/// `serde_json::Value`: any JSON value.
#[verifier::external_type_specification]
#[verifier::external_body]
pub struct ExValue(serde_json::Value);

/// A JSON number: as an integer, where it is one that fits, and as the integer
/// that its nearest floating-point number is cut to.
pub struct JsonNumber {
    pub integer: Option<i64>,
    pub truncated: i64,
}

/// What a JSON value is made of.
pub enum Json {
    Null,
    Bool(bool),
    Number(JsonNumber),
    Text(Seq<char>),
    List(Seq<Json>),
    Table(Map<Seq<char>, Json>),
}

/// What a value of the `serde_json` crate holds.
pub uninterp spec fn json_held(value: serde_json::Value) -> Json;

/// What bytes of JSON stand for; nothing where they are not JSON.
pub uninterp spec fn json_parsed(bytes: Seq<u8>) -> Option<Json>;

impl Json {
    pub open spec fn get(self, key: Seq<char>) -> Option<Json> {
        match self {
            Json::Table(table) => if table.contains_key(key) {
                Some(table[key])
            } else {
                None
            },
            _ => None,
        }
    }

    pub open spec fn text(self) -> Option<Seq<char>> {
        match self {
            Json::Text(text) => Some(text),
            _ => None,
        }
    }

    pub open spec fn list(self) -> Option<Seq<Json>> {
        match self {
            Json::List(list) => Some(list),
            _ => None,
        }
    }

    pub open spec fn integer(self) -> Option<i64> {
        match self {
            Json::Number(number) => number.integer,
            _ => None,
        }
    }

    pub open spec fn truncated(self) -> Option<i64> {
        match self {
            Json::Number(number) => Some(number.truncated),
            _ => None,
        }
    }
}

/// Calls `serde_json::from_slice`: the value that the bytes stand for, which is
/// a function of the bytes alone.
#[verifier::external_body]
pub(crate) fn parse_json(bytes: &[u8]) -> (r: Option<Value>)
    ensures
        match r {
            Some(value) => json_parsed(bytes@) == Some(json_held(value)),
            None => json_parsed(bytes@) is None,
        },
{
    serde_json::from_slice::<Value>(bytes).ok()
}

/// Calls `Value::get` with a text: the entry of a table under that key; nothing
/// in a value that is no table.
#[verifier::external_body]
pub(crate) fn json_get<'a>(value: &'a Value, key: &str) -> (r: Option<&'a Value>)
    ensures
        match r {
            Some(entry) => json_held(*value).get(key@) == Some(json_held(*entry)),
            None => json_held(*value).get(key@) is None,
        },
{
    value.get(key)
}

/// Calls `Value::as_str`: the text, if the value is one.
#[verifier::external_body]
pub(crate) fn json_text<'a>(value: &'a Value) -> (r: Option<&'a str>)
    ensures
        match r {
            Some(text) => json_held(*value).text() == Some(text@),
            None => json_held(*value).text() is None,
        },
{
    value.as_str()
}

/// Calls `Value::as_array`: the items, if the value is a list.
#[verifier::external_body]
pub(crate) fn json_list<'a>(value: &'a Value) -> (r: Option<&'a Vec<Value>>)
    ensures
        match r {
            Some(items) => {
                &&& json_held(*value).list() is Some
                &&& (json_held(*value).list()->0).len() == items@.len()
                &&& forall|i: int|
                    0 <= i < items@.len() ==> json_held(#[trigger] items@[i]) == (json_held(
                        *value,
                    ).list()->0)[i]
            },
            None => json_held(*value).list() is None,
        },
{
    value.as_array()
}

/// Calls `Value::as_i64`: the integer, if the value is one that fits.
#[verifier::external_body]
pub(crate) fn json_integer(value: &Value) -> (r: Option<i64>)
    ensures
        r == json_held(*value).integer(),
{
    value.as_i64()
}

/// Calls `Value::as_f64`, whose result the conversion to an integer cuts: any
/// number has one.
#[verifier::external_body]
pub(crate) fn json_truncated(value: &Value) -> (r: Option<i64>)
    ensures
        r == json_held(*value).truncated(),
{
    value.as_f64().map(|number| number as i64)
}

/// The value that a path of keys leads to.
pub open spec fn at_path(value: Json, path: Seq<Seq<char>>) -> Result<Json, Seq<char>>
    decreases path.len(),
{
    if path.len() == 0 {
        Ok(value)
    } else {
        match value.get(path[0]) {
            Some(entry) => at_path(entry, path.skip(1)),
            None => Err(path[0]),
        }
    }
}

/// Why an answer cannot be used.
#[derive(Debug)]
pub enum JsonError {
    /// No entry under that key.
    Missing(String),
    NotText,
    NotNumber,
}

fn json_at<'a>(value: &'a Value, path: &[&str]) -> (r: Result<&'a Value, JsonError>)
    ensures
        match r {
            Ok(entry) => at_path(json_held(*value), views(path@)) == Ok::<Json, Seq<char>>(
                json_held(*entry),
            ),
            Err(e) => e is Missing && at_path(json_held(*value), views(path@)) == Err::<
                Json,
                Seq<char>,
            >(e->Missing_0@),
        },
{
    let ghost keys = views(path@);
    let mut current = value;
    let mut i: usize = 0;
    assert(keys.skip(0) =~= keys);
    while i < path.len()
        invariant
            i <= path@.len(),
            keys == views(path@),
            at_path(json_held(*current), keys.skip(i as int)) == at_path(json_held(*value), keys),
        decreases path@.len() - i,
    {
        assert(keys.skip(i as int).skip(1) =~= keys.skip(i + 1));
        assert(keys.skip(i as int)[0] == path@[i as int]@);
        match json_get(current, path[i]) {
            Some(entry) => {
                current = entry;
            },
            None => {
                return Err(JsonError::Missing(copy_text(path[i])));
            },
        }
        i = i + 1;
    }
    assert(keys.skip(i as int) =~= Seq::<Seq<char>>::empty());
    Ok(current)
}

/// The text at a path.
pub fn json_string<'a>(value: &'a Value, path: &[&str]) -> (r: Result<&'a str, JsonError>)
    ensures
        match (r, at_path(json_held(*value), views(path@))) {
            (Ok(text), Ok(entry)) => entry.text() == Some(text@),
            (Err(JsonError::NotText), Ok(entry)) => entry.text() is None,
            (Err(JsonError::Missing(key)), Err(wanted)) => key@ == wanted,
            _ => false,
        },
{
    match json_at(value, path) {
        Ok(entry) => match json_text(entry) {
            Some(text) => Ok(text),
            None => Err(JsonError::NotText),
        },
        Err(e) => Err(e),
    }
}

/// The number at a path, cut to an integer.
pub fn json_number(value: &Value, path: &[&str]) -> (r: Result<i64, JsonError>)
    ensures
        match (r, at_path(json_held(*value), views(path@))) {
            (Ok(number), Ok(entry)) => entry.truncated() == Some(number),
            (Err(JsonError::NotNumber), Ok(entry)) => entry.truncated() is None,
            (Err(JsonError::Missing(key)), Err(wanted)) => key@ == wanted,
            _ => false,
        },
{
    match json_at(value, path) {
        Ok(entry) => match json_truncated(entry) {
            Some(number) => Ok(number),
            None => Err(JsonError::NotNumber),
        },
        Err(e) => Err(e),
    }
}

/// How much of an answer that is no JSON is shown.
pub const EXCERPT_LEN: usize = 200;

/// Reads an answer; the start of it, where it is not JSON.
pub fn decode_response(body: &[u8]) -> (r: Result<Value, Vec<u8>>)
    ensures
        match r {
            Ok(value) => json_parsed(body@) == Some(json_held(value)),
            Err(excerpt) => json_parsed(body@) is None && excerpt@ == body@.take(
                if body@.len() < EXCERPT_LEN {
                    body@.len() as int
                } else {
                    EXCERPT_LEN as int
                },
            ),
        },
{
    match parse_json(body) {
        Some(value) => Ok(value),
        None => {
            let end: usize = if body.len() < EXCERPT_LEN {
                body.len()
            } else {
                EXCERPT_LEN
            };
            let start = vstd::slice::slice_subrange(body, 0, end);
            assert(start@ =~= body@.take(end as int));
            Err(vstd::slice::slice_to_vec(start))
        },
    }
}

} // verus!
