//! The JSON values that the library reads: request bodies, configuration
//! entries and server messages, after the JSON text has been parsed.
use vstd::prelude::*;
use crate::text::str_eq;

verus! {

/// A JSON number as the library reads it: its value as an `i64` when it is
/// an integer that fits (`Value::as_i64`), and the floor and ceiling of its
/// value as a float, each saturated to the `i64` range.
#[derive(Debug, Clone, Copy, PartialEq, Eq, Structural)]
pub struct JsonNumber {
    pub int: Option<i64>,
    pub floor: i64,
    pub ceil: i64,
}

impl JsonNumber {
    /// The number `n`, written as an integer.
    pub fn from_i64(n: i64) -> (r: Self)
        ensures
            r.int == Some(n),
            r.floor == n,
            r.ceil == n,
    {
        JsonNumber { int: Some(n), floor: n, ceil: n }
    }
}

#[derive(Debug)]
pub enum JsonValue {
    Null,
    Bool(bool),
    Number(JsonNumber),
    Str(String),
    Array(Vec<JsonValue>),
    Object(Vec<(String, JsonValue)>),
}

/// The value of the first entry with key `k`.
pub open spec fn lookup(es: Seq<(String, JsonValue)>, k: Seq<char>) -> Option<JsonValue>
    decreases es.len(),
{
    if es.len() == 0 {
        None
    } else if es[0].0@ == k {
        Some(es[0].1)
    } else {
        lookup(es.drop_first(), k)
    }
}

/// `value[k]` for an object, nothing for any other value (`Value::get`).
pub open spec fn member(v: JsonValue, k: Seq<char>) -> Option<JsonValue> {
    match v {
        JsonValue::Object(es) => lookup(es@, k),
        _ => None,
    }
}

/// Entry of `es` with key `key`.
pub fn lookup_entry<'a>(es: &'a Vec<(String, JsonValue)>, key: &str) -> (r: Option<&'a JsonValue>)
    ensures
        match lookup(es@, key@) {
            Some(v) => r == Some(&v),
            None => r is None,
        },
{
    let mut i: usize = 0;
    assert(es@.subrange(0, es@.len() as int) =~= es@);
    while i < es.len()
        invariant
            i <= es@.len(),
            lookup(es@, key@) == lookup(es@.subrange(i as int, es@.len() as int), key@),
        decreases es@.len() - i,
    {
        let ghost rest = es@.subrange(i as int, es@.len() as int);
        assert(rest[0] == es@[i as int]);
        if str_eq(es[i].0.as_str(), key) {
            return Some(&es[i].1);
        }
        assert(rest.drop_first() =~= es@.subrange(i + 1, es@.len() as int));
        i = i + 1;
    }
    None
}

impl JsonValue {
    /// `self.get(key)`: the member `key` of an object.
    pub fn get(&self, key: &str) -> (r: Option<&JsonValue>)
        ensures
            match member(*self, key@) {
                Some(v) => r == Some(&v),
                None => r is None,
            },
    {
        match self {
            JsonValue::Object(es) => lookup_entry(es, key),
            _ => None,
        }
    }
}

} // verus!
