//! A JSON value as the tool and request logic reads it.
//!
//! Numbers are carried by the integer readings the logic makes of them, so
//! that no floating point enters the library: the reader of the raw text fills
//! them in.
use vstd::prelude::*;

verus! {

/// The integer readings of a JSON number.
#[derive(Debug, Clone, Copy, PartialEq, Eq, Default)]
pub struct JsonNumber {
    /// The number as an `i64` when it is written as an integer in range.
    pub int: Option<i64>,
    /// The number as an `i64` when it has no fractional part and lies in range.
    pub whole: Option<i64>,
    /// The number truncated toward zero, saturated to the `i64` range.
    pub truncated: i64,
    /// The floor of the number when it is positive, saturated to `i64`.
    pub floor_positive: Option<i64>,
}

/// A JSON value. An object keeps its entries in order, each key once.
#[derive(Debug)]
pub enum JsonValue {
    Null,
    Bool(bool),
    Number(JsonNumber),
    Str(String),
    Array(Vec<JsonValue>),
    Object(Vec<(String, JsonValue)>),
}

impl JsonNumber {
    /// The readings of an integer `n`.
    pub open spec fn of_int_spec(n: i64) -> JsonNumber {
        JsonNumber {
            int: Some(n),
            whole: Some(n),
            truncated: n,
            floor_positive: if n > 0 { Some(n) } else { None },
        }
    }

    /// The readings of the integer `n`.
    pub fn of_int(n: i64) -> (r: JsonNumber)
        ensures
            r == Self::of_int_spec(n),
    {
        JsonNumber { int: Some(n), whole: Some(n), truncated: n, floor_positive: if n > 0 { Some(n) } else { None } }
    }
}

/// The value stored under `key` in `entries`, the first such entry.
pub open spec fn entries_get(entries: Seq<(String, JsonValue)>, key: Seq<char>) -> Option<JsonValue>
    decreases entries.len(),
{
    if entries.len() == 0 {
        None
    } else if entries[0].0@ == key {
        Some(entries[0].1)
    } else {
        entries_get(entries.drop_first(), key)
    }
}

/// The value under `key` when `v` is an object (`Value::get`).
pub open spec fn get_spec(v: JsonValue, key: Seq<char>) -> Option<JsonValue> {
    match v {
        JsonValue::Object(entries) => entries_get(entries@, key),
        _ => None,
    }
}

/// The text of a string value (`Value::as_str`).
pub open spec fn as_str_spec(v: Option<JsonValue>) -> Option<Seq<char>> {
    match v {
        Some(JsonValue::Str(s)) => Some(s@),
        _ => None,
    }
}

/// The view of an optional string.
pub open spec fn opt_view(o: Option<String>) -> Option<Seq<char>> {
    match o {
        Some(s) => Some(s@),
        None => None,
    }
}

/// The views of a list of strings.
pub open spec fn strs_view(v: Seq<String>) -> Seq<Seq<char>> {
    v.map_values(|s: String| s@)
}

/// The value under `key`, when `v` is an object that has one.
pub fn get<'a>(v: &'a JsonValue, key: &str) -> (r: Option<&'a JsonValue>)
    ensures
        match r {
            Some(x) => get_spec(*v, key@) == Some(*x),
            None => get_spec(*v, key@) is None,
        },
{
    match v {
        JsonValue::Object(entries) => {
            let mut i: usize = 0;
            assert(entries@.skip(0) =~= entries@);
            while i < entries.len()
                invariant
                    i <= entries@.len(),
                    get_spec(*v, key@) == entries_get(entries@, key@),
                    entries_get(entries@, key@) == entries_get(entries@.skip(i as int), key@),
                decreases entries@.len() - i,
            {
                assert(entries@.skip(i as int).drop_first() =~= entries@.skip(i + 1));
                assert(entries@.skip(i as int)[0] == entries@[i as int]);
                let found = crate::text::str_eq(entries[i].0.as_str(), key);
                if found {
                    assert(entries@.skip(i as int)[0].0@ == key@);
                    return Some(&entries[i].1);
                }
                i += 1;
            }
            None
        },
        _ => None,
    }
}

/// The text of `v` when it is a string.
pub fn as_str(v: Option<&JsonValue>) -> (r: Option<&str>)
    ensures
        match v {
            Some(x) => match r {
                Some(s) => as_str_spec(Some(*x)) == Some(s@),
                None => as_str_spec(Some(*x)) is None,
            },
            None => r is None,
        },
{
    match v {
        Some(JsonValue::Str(s)) => Some(s.as_str()),
        _ => None,
    }
}

} // verus!
