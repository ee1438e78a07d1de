//! A JSON document as plain values: what a parsed soundpack config, control
//! request or shell config holds, with the accessors the decision logic
//! needs (`get`, `as_str`, `as_u64`, ...), matching `serde_json::Value`'s.
//!
//! Numbers keep what the logic reads of them: their `u64`/`i64` readings
//! (present only for integers in range), the IEEE-754 bits of their `f64`
//! reading, and that reading's `Display` text.

use vstd::prelude::*;
use crate::text::chars_of;
use crate::paths::chars_eq;

verus! {

/// A JSON number.
#[derive(Debug)]
pub struct JsonNumber {
    /// The value as `u64`, when it is a non-negative integer.
    pub as_u64: Option<u64>,
    /// The value as `i64`, when it is an integer in `i64` range.
    pub as_i64: Option<i64>,
    /// Bits of the value read as `f64`.
    pub f64_bits: u64,
    /// The `f64` reading as `{}` prints it.
    pub f64_text: String,
}

/// A JSON value. Object entries keep their document order and hold each key
/// once.
#[derive(Debug)]
pub enum Json {
    Null,
    Bool(bool),
    Number(JsonNumber),
    Str(String),
    Array(Vec<Json>),
    Object(Vec<(String, Json)>),
}

/// The value stored under `key` among `entries`, first match.
pub open spec fn entry_value(entries: Seq<(String, Json)>, key: Seq<char>) -> Option<Json>
    decreases entries.len(),
{
    if entries.len() == 0 {
        None
    } else if entries[0].0@ == key {
        Some(entries[0].1)
    } else {
        entry_value(entries.drop_first(), key)
    }
}

/// `Value::get(key)`: the member `key` of an object; `None` for anything
/// else.
pub open spec fn spec_get(v: Json, key: Seq<char>) -> Option<Json> {
    match v {
        Json::Object(entries) => entry_value(entries@, key),
        _ => None,
    }
}

/// `Value::as_str`.
pub open spec fn spec_as_str(v: Json) -> Option<Seq<char>> {
    match v {
        Json::Str(s) => Some(s@),
        _ => None,
    }
}

/// `Value::as_u64`.
pub open spec fn spec_as_u64(v: Json) -> Option<u64> {
    match v {
        Json::Number(n) => n.as_u64,
        _ => None,
    }
}

/// `Value::as_bool`.
pub open spec fn spec_as_bool(v: Json) -> Option<bool> {
    match v {
        Json::Bool(b) => Some(b),
        _ => None,
    }
}

/// `Value::as_f64`, as the bits of the `f64`.
pub open spec fn spec_as_f64_bits(v: Json) -> Option<u64> {
    match v {
        Json::Number(n) => Some(n.f64_bits),
        _ => None,
    }
}

/// The member `key` of an object.
pub fn get<'a>(v: &'a Json, key: &str) -> (r: Option<&'a Json>)
    ensures
        match spec_get(*v, key@) {
            Some(x) => r matches Some(y) && *y == x,
            None => r is None,
        },
{
    match v {
        Json::Object(entries) => {
            let k = chars_of(key);
            let mut i: usize = 0;
            assert(entries@.subrange(0, entries.len() as int) =~= entries@);
            while i < entries.len()
                invariant
                    i <= entries.len(),
                    k@ == key@,
                    spec_get(*v, key@) == entry_value(entries@, key@),
                    entry_value(entries@, key@) == entry_value(
                        entries@.subrange(i as int, entries.len() as int),
                        key@,
                    ),
                decreases entries.len() - i,
            {
                let ghost rest = entries@.subrange(i as int, entries.len() as int);
                assert(rest.drop_first() =~= entries@.subrange(i + 1, entries.len() as int));
                assert(rest[0] == entries@[i as int]);
                let name = chars_of(entries[i].0.as_str());
                if chars_eq(&name, &k) {
                    let e = &entries[i];
                    assert(entry_value(rest, key@) == Some(e.1));
                    assert(spec_get(*v, key@) == Some(e.1));
                    return Some(&e.1);
                }
                i = i + 1;
            }
            None
        },
        _ => None,
    }
}

/// The string, for a JSON string.
pub fn as_str(v: &Json) -> (r: Option<&String>)
    ensures
        match spec_as_str(*v) {
            Some(s) => r matches Some(x) && x@ == s,
            None => r is None,
        },
{
    match v {
        Json::Str(s) => Some(s),
        _ => None,
    }
}

/// The elements, for a JSON array.
pub fn as_array(v: &Json) -> (r: Option<&Vec<Json>>)
    ensures
        match *v {
            Json::Array(a) => r matches Some(x) && *x == a,
            _ => r is None,
        },
{
    match v {
        Json::Array(a) => Some(a),
        _ => None,
    }
}

/// The entries, for a JSON object.
pub fn as_object(v: &Json) -> (r: Option<&Vec<(String, Json)>>)
    ensures
        match *v {
            Json::Object(o) => r matches Some(x) && *x == o,
            _ => r is None,
        },
{
    match v {
        Json::Object(o) => Some(o),
        _ => None,
    }
}

/// The value as `u64`, for a non-negative integer.
pub fn as_u64(v: &Json) -> (r: Option<u64>)
    ensures
        r == spec_as_u64(*v),
{
    match v {
        Json::Number(n) => n.as_u64,
        _ => None,
    }
}

/// The value, for a JSON boolean.
pub fn as_bool(v: &Json) -> (r: Option<bool>)
    ensures
        r == spec_as_bool(*v),
{
    match v {
        Json::Bool(b) => Some(*b),
        _ => None,
    }
}

} // verus!
