//! A JSON document held as plain values, and the lenient field readers that
//! the stream analysis uses.

use crate::text::{parse_i64, parse_i64_spec, parse_scaled, parse_scaled_spec, parse_u64, parse_u64_spec};
use vstd::prelude::*;

verus! {

/// A JSON value. A number is held as the text that `serde_json` writes for
/// it (digits with an optional `-` for integers; a `.` or an exponent for
/// others). The members of an object are unique by name.
pub enum JsonValue {
    Null,
    Bool(bool),
    Number(String),
    Str(String),
    Array(Vec<JsonValue>),
    Object(Vec<(String, JsonValue)>),
}

/// The member named `key` among `entries`, the first one if several share it.
pub open spec fn lookup(entries: Seq<(String, JsonValue)>, key: Seq<char>) -> Option<JsonValue>
    decreases entries.len(),
{
    if entries.len() == 0 {
        None
    } else if entries[0].0@ == key {
        Some(entries[0].1)
    } else {
        lookup(entries.drop_first(), key)
    }
}

/// `Value::get(key)`: the member of an object; nothing for other values.
pub open spec fn json_get(v: JsonValue, key: Seq<char>) -> Option<JsonValue> {
    match v {
        JsonValue::Object(m) => lookup(m@, key),
        _ => None,
    }
}

/// The text of member `key` if it is a string, else the empty text.
pub open spec fn str_field(v: JsonValue, key: Seq<char>) -> Seq<char> {
    match json_get(v, key) {
        Some(JsonValue::Str(t)) => t@,
        _ => Seq::empty(),
    }
}

/// Member `key` read as an `i64`: an integer number, or a string that
/// `str::parse::<i64>` accepts; 0 otherwise.
pub open spec fn int_field(v: JsonValue, key: Seq<char>) -> int {
    match json_get(v, key) {
        Some(JsonValue::Number(n)) => match parse_i64_spec(n@) {
            Some(x) => x,
            None => 0,
        },
        Some(JsonValue::Str(t)) => match parse_i64_spec(t@) {
            Some(x) => x,
            None => 0,
        },
        _ => 0,
    }
}

/// Member `key`, a number of seconds given as a JSON number or as a string,
/// read as a count of `10^-scale` seconds (rounded to the nearest); 0 when
/// it is neither or does not read as a decimal number.
pub open spec fn seconds_field(v: JsonValue, key: Seq<char>, scale: nat) -> int {
    match json_get(v, key) {
        Some(JsonValue::Number(n)) => match parse_scaled_spec(n@, scale) {
            Some(x) => x,
            None => 0,
        },
        Some(JsonValue::Str(t)) => match parse_scaled_spec(t@, scale) {
            Some(x) => x,
            None => 0,
        },
        _ => 0,
    }
}

/// Member `key` read as an unsigned integer number (`Value::as_u64`); 0 otherwise.
pub open spec fn u64_field(v: JsonValue, key: Seq<char>) -> int {
    match json_get(v, key) {
        Some(JsonValue::Number(n)) => match parse_u64_spec(n@) {
            Some(x) => x,
            None => 0,
        },
        _ => 0,
    }
}

/// The elements of member `key` if it is an array, else none.
pub open spec fn array_field(v: JsonValue, key: Seq<char>) -> Seq<JsonValue> {
    match json_get(v, key) {
        Some(JsonValue::Array(a)) => a@,
        _ => Seq::empty(),
    }
}

/// `Value::get(key)`.
pub fn get<'a>(v: &'a JsonValue, key: &str) -> (r: Option<&'a JsonValue>)
    ensures
        match r {
            Some(x) => json_get(*v, key@) == Some(*x),
            None => json_get(*v, key@) is None,
        },
{
    match v {
        JsonValue::Object(m) => {
            let k = String::from_str(key);
            let mut i: usize = 0;
            assert(m@.skip(0) =~= m@);
            while i < m.len()
                invariant
                    i <= m.len(),
                    k@ == key@,
                    json_get(*v, key@) == lookup(m@, key@),
                    lookup(m@, key@) == lookup(m@.skip(i as int), key@),
                decreases m.len() - i,
            {
                assert(m@.skip(i as int)[0] == m@[i as int]);
                if m[i].0 == k {
                    assert(m@[i as int].0@ == key@);
                    return Some(&m[i].1);
                }
                assert(m@.skip(i as int).drop_first() =~= m@.skip(i + 1));
                i += 1;
            }
            None
        },
        _ => None,
    }
}

/// The text of member `key` if it is a string, else the empty text.
pub fn str_of(v: &JsonValue, key: &str) -> (r: String)
    ensures
        r@ == str_field(*v, key@),
{
    match get(v, key) {
        Some(JsonValue::Str(t)) => t.clone(),
        _ => String::new(),
    }
}

/// Member `key` read as an `i64` (see `int_field`).
pub fn int_of(v: &JsonValue, key: &str) -> (r: i64)
    ensures
        r == int_field(*v, key@),
{
    match get(v, key) {
        Some(JsonValue::Number(n)) => match parse_i64(n.as_str()) {
            Some(x) => x,
            None => 0,
        },
        Some(JsonValue::Str(t)) => match parse_i64(t.as_str()) {
            Some(x) => x,
            None => 0,
        },
        _ => 0,
    }
}

/// Member `key` read as a count of `10^-scale` seconds (see `seconds_field`).
pub fn seconds_of(v: &JsonValue, key: &str, scale: usize) -> (r: i64)
    ensures
        r == seconds_field(*v, key@, scale as nat),
{
    match get(v, key) {
        Some(JsonValue::Number(n)) => match parse_scaled(n.as_str(), scale) {
            Some(x) => x,
            None => 0,
        },
        Some(JsonValue::Str(t)) => match parse_scaled(t.as_str(), scale) {
            Some(x) => x,
            None => 0,
        },
        _ => 0,
    }
}

/// Member `key` read as an unsigned integer number (see `u64_field`).
pub fn u64_of(v: &JsonValue, key: &str) -> (r: u64)
    ensures
        r == u64_field(*v, key@),
{
    match get(v, key) {
        Some(JsonValue::Number(n)) => match parse_u64(n.as_str()) {
            Some(x) => x,
            None => 0,
        },
        _ => 0,
    }
}

/// The elements of member `key` if it is an array (empty otherwise).
pub fn array_of<'a>(v: &'a JsonValue, key: &str) -> (r: &'a [JsonValue])
    ensures
        r@ == array_field(*v, key@),
{
    match get(v, key) {
        Some(JsonValue::Array(a)) => a.as_slice(),
        _ => &[],
    }
}

/// `serde_json::Value`, which the parse below produces and converts at once.
#[verifier::external_type_specification]
#[verifier::external_body]
pub struct ExValue(serde_json::Value);

/// What `serde_json::from_str::<serde_json::Value>` makes of a whole text:
/// the document (as the plain values of `JsonValue`), or the text of the
/// error it reports. Both depend on the text alone.
pub uninterp spec fn json_parse_of(text: Seq<char>) -> Result<JsonValue, Seq<char>>;

/// Calls `serde_json::from_str::<serde_json::Value>` on `text`. Claimed:
/// the result is `json_parse_of(text)`, the parsed document converted
/// variant by variant (a number as the text `serde_json` writes for it),
/// or the error's text. What the parse accepts is not stated.
#[verifier::external_body]
pub(crate) fn parse_json(text: &str) -> (r: Result<JsonValue, String>)
    ensures
        match r {
            Ok(v) => json_parse_of(text@) == Ok::<JsonValue, Seq<char>>(v),
            Err(e) => json_parse_of(text@) == Err::<JsonValue, Seq<char>>(e@),
        },
{
    match serde_json::from_str::<serde_json::Value>(text) {
        Ok(v) => Ok(json_from_value(&v)),
        Err(e) => Err(e.to_string()),
    }
}

/// The conversion in `parse_json`'s body: each `serde_json::Value` variant
/// to the `JsonValue` variant of the same name, fields moved over one for
/// one (a number through its `Display` text).
#[verifier::external_body]
fn json_from_value(v: &serde_json::Value) -> JsonValue {
    match v {
        serde_json::Value::Null => JsonValue::Null,
        serde_json::Value::Bool(b) => JsonValue::Bool(*b),
        serde_json::Value::Number(n) => JsonValue::Number(n.to_string()),
        serde_json::Value::String(t) => JsonValue::Str(t.clone()),
        serde_json::Value::Array(a) => JsonValue::Array(a.iter().map(json_from_value).collect()),
        serde_json::Value::Object(m) => JsonValue::Object(
            m.iter().map(|(k, x)| (k.clone(), json_from_value(x))).collect(),
        ),
    }
}

} // verus!
