//! A JSON document as the response readers see it: objects keep their
//! members in order, numbers keep their integer value (when they have one)
//! and their printed text.

use vstd::prelude::*;
use crate::numbers::{count_text_value, parse_count_text};
use crate::text::{chars_eq, chars_of};

verus! {

/// A JSON number.
#[derive(Debug)]
pub struct JsonNumber {
    /// The value when the number is an integer that fits in an `i64`.
    pub integer: Option<i64>,
    /// The number as printed.
    pub text: String,
}

/// One member of a JSON object.
#[derive(Debug)]
pub struct JsonEntry {
    pub key: String,
    pub value: JsonValue,
}

/// A JSON value.
#[derive(Debug)]
pub enum JsonValue {
    Null,
    Bool(bool),
    Number(JsonNumber),
    String(String),
    Array(Vec<JsonValue>),
    Object(Vec<JsonEntry>),
}

/// The value of the first member named `key`.
pub open spec fn find_member(entries: Seq<JsonEntry>, key: Seq<char>) -> Option<JsonValue>
    decreases entries.len(),
{
    if entries.len() == 0 {
        None
    } else if entries[0].key@ == key {
        Some(entries[0].value)
    } else {
        find_member(entries.drop_first(), key)
    }
}

/// The member `key` of an object; nothing for any other value.
pub open spec fn json_get(v: JsonValue, key: Seq<char>) -> Option<JsonValue> {
    match v {
        JsonValue::Object(entries) => find_member(entries@, key),
        _ => None,
    }
}

/// The member `key` of an optional value.
pub open spec fn json_get_opt(v: Option<JsonValue>, key: Seq<char>) -> Option<JsonValue> {
    match v {
        Some(x) => json_get(x, key),
        None => None,
    }
}

/// The text of a string value.
pub open spec fn json_str(v: Option<JsonValue>) -> Option<Seq<char>> {
    match v {
        Some(JsonValue::String(s)) => Some(s@),
        _ => None,
    }
}

/// The integer of a number value that has one.
pub open spec fn json_i64(v: Option<JsonValue>) -> Option<i64> {
    match v {
        Some(JsonValue::Number(n)) => n.integer,
        _ => None,
    }
}

/// The value behind an optional reference.
pub open spec fn deref_opt(v: Option<&JsonValue>) -> Option<JsonValue> {
    match v {
        Some(x) => Some(*x),
        None => None,
    }
}

/// The characters of an optional string.
pub open spec fn opt_text(v: Option<String>) -> Option<Seq<char>> {
    match v {
        Some(s) => Some(s@),
        None => None,
    }
}

/// Whether a borrowed result is the value a spec names.
pub open spec fn same_value(r: Option<&JsonValue>, v: Option<JsonValue>) -> bool {
    match r {
        Some(x) => v == Some(*x),
        None => v is None,
    }
}

/// A copy of `n`.
pub fn copy_number(n: &JsonNumber) -> (r: JsonNumber)
    ensures
        r.integer == n.integer,
        r.text@ == n.text@,
{
    JsonNumber { integer: n.integer, text: n.text.clone() }
}

impl JsonValue {
    /// The member `key`, when this is an object that has it.
    pub fn get<'a>(&'a self, key: &str) -> (r: Option<&'a JsonValue>)
        ensures
            same_value(r, json_get(*self, key@)),
    {
        match self {
            JsonValue::Object(entries) => {
                let wanted = chars_of(key);
                let mut k: usize = 0;
                assert(entries@.subrange(0, entries@.len() as int) =~= entries@);
                while k < entries.len()
                    invariant
                        k <= entries@.len(),
                        wanted@ == key@,
                        json_get(*self, key@) == find_member(entries@, key@),
                        find_member(entries@, key@) == find_member(entries@.subrange(
                            k as int,
                            entries@.len() as int,
                        ), key@),
                    decreases entries@.len() - k,
                {
                    let ghost rest = entries@.subrange(k as int, entries@.len() as int);
                    assert(rest.drop_first() =~= entries@.subrange(k + 1, entries@.len() as int));
                    assert(rest[0] == entries@[k as int]);
                    if chars_eq(&chars_of(entries[k].key.as_str()), &wanted) {
                        return Some(&entries[k].value);
                    }
                    k = k + 1;
                }
                None
            },
            _ => None,
        }
    }

    /// The text, when this is a string.
    pub fn as_str(&self) -> (r: Option<&str>)
        ensures
            match r {
                Some(s) => json_str(Some(*self)) == Some(s@),
                None => json_str(Some(*self)) is None,
            },
    {
        match self {
            JsonValue::String(s) => Some(s.as_str()),
            _ => None,
        }
    }

    /// The integer, when this is a number that has one.
    pub fn as_i64(&self) -> (r: Option<i64>)
        ensures
            r == json_i64(Some(*self)),
    {
        match self {
            JsonValue::Number(n) => n.integer,
            _ => None,
        }
    }
}

/// The member `key` of an optional value.
pub fn get_opt<'a>(v: Option<&'a JsonValue>, key: &str) -> (r: Option<&'a JsonValue>)
    ensures
        same_value(r, json_get_opt(deref_opt(v), key@)),
{
    match v {
        Some(x) => x.get(key),
        None => None,
    }
}

/// The text of an optional string value.
pub fn str_of<'a>(v: Option<&'a JsonValue>) -> (r: Option<&'a str>)
    ensures
        match r {
            Some(s) => json_str(deref_opt(v)) == Some(s@),
            None => json_str(deref_opt(v)) is None,
        },
{
    match v {
        Some(x) => x.as_str(),
        None => None,
    }
}

/// A scalar printed as text: strings as they are, numbers and booleans as
/// printed; nothing for null, arrays and objects.
pub open spec fn scalar_text(v: Option<JsonValue>) -> Option<Seq<char>> {
    match v {
        Some(JsonValue::String(s)) => Some(s@),
        Some(JsonValue::Number(n)) => Some(n.text@),
        Some(JsonValue::Bool(b)) => Some(
            if b {
                "true"@
            } else {
                "false"@
            },
        ),
        _ => None,
    }
}

pub fn scalar_string(value: Option<&JsonValue>) -> (r: Option<String>)
    ensures
        opt_text(r) == scalar_text(deref_opt(value)),
{
    match value {
        Some(JsonValue::String(text)) => Some(text.clone()),
        Some(JsonValue::Number(number)) => Some(number.text.clone()),
        Some(JsonValue::Bool(flag)) => Some(
            if *flag {
                String::from_str("true")
            } else {
                String::from_str("false")
            },
        ),
        _ => None,
    }
}

/// A count read from a number (its integer value) or from text (trimmed,
/// without thousands separators, parsed as an `i64`).
pub open spec fn count_value(v: Option<JsonValue>) -> Option<i64> {
    match v {
        Some(JsonValue::Number(n)) => n.integer,
        Some(JsonValue::String(s)) => count_text_value(s@),
        _ => None,
    }
}

pub fn value_i64(value: Option<&JsonValue>) -> (r: Option<i64>)
    ensures
        r == count_value(deref_opt(value)),
{
    match value {
        Some(JsonValue::Number(number)) => number.integer,
        Some(JsonValue::String(text)) => parse_count_text(text.as_str()),
        _ => None,
    }
}

/// A JSON document as `serde_json` holds it.
#[verifier::external_type_specification]
#[verifier::external_body]
pub struct ExSerdeJsonValue(serde_json::Value);

/// Names what `serde_json::from_str::<serde_json::Value>` reads from a
/// text: the document, taken into this model by `from_serde_value`, or the
/// text of serde's error.
pub uninterp spec fn spec_json_parse(text: Seq<char>) -> Result<JsonValue, Seq<char>>;

/// The document a text holds, when it is JSON.
pub open spec fn spec_parse_json(text: Seq<char>) -> Option<JsonValue> {
    match spec_json_parse(text) {
        Ok(v) => Some(v),
        Err(_) => None,
    }
}

/// Takes a `serde_json` value into this model, one value for one: objects
/// keep their members in the order `serde_json` yields them, numbers keep
/// `as_i64` and their printed text. Only `parse_json` uses it, and what the
/// two give together is named by `spec_json_parse`.
#[verifier::external_body]
fn from_serde_value(v: &serde_json::Value) -> JsonValue {
    match v {
        serde_json::Value::Null => JsonValue::Null,
        serde_json::Value::Bool(b) => JsonValue::Bool(*b),
        serde_json::Value::Number(n) => JsonValue::Number(JsonNumber { integer: n.as_i64(), text: n.to_string() }),
        serde_json::Value::String(t) => JsonValue::String(t.clone()),
        serde_json::Value::Array(items) => JsonValue::Array(items.iter().map(from_serde_value).collect()),
        serde_json::Value::Object(map) => JsonValue::Object(
            map.iter().map(|(k, x)| JsonEntry { key: k.clone(), value: from_serde_value(x) }).collect(),
        ),
    }
}

/// Wraps `serde_json::from_str::<serde_json::Value>`: the document the text
/// holds, or serde's error printed as text. The contract names the result.
#[verifier::external_body]
pub(crate) fn parse_json(text: &str) -> (r: Result<JsonValue, String>)
    ensures
        match r {
            Ok(v) => spec_json_parse(text@) == Ok::<JsonValue, Seq<char>>(v),
            Err(m) => spec_json_parse(text@) == Err::<JsonValue, Seq<char>>(m@),
        },
{
    match serde_json::from_str::<serde_json::Value>(text) {
        Ok(v) => Ok(from_serde_value(&v)),
        Err(e) => Err(e.to_string()),
    }
}

} // verus!
