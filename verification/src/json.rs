//! A JSON document, as the GitHub GraphQL API returns it, with the lookups the
//! response mapping uses.
use vstd::prelude::*;
use crate::text::str_eq;

verus! {

/// A JSON value. Numbers keep their text; objects keep their members in order.
#[derive(Debug)]
pub enum JsonValue {
    Null,
    Bool(bool),
    Number(String),
    Text(String),
    Array(Vec<JsonValue>),
    Object(Vec<(String, JsonValue)>),
}

/// The value of the first member named `key`.
pub open spec fn member(entries: Seq<(String, JsonValue)>, key: Seq<char>) -> Option<JsonValue>
    decreases entries.len(),
{
    if entries.len() == 0 {
        None
    } else if entries[0].0@ == key {
        Some(entries[0].1)
    } else {
        member(entries.drop_first(), key)
    }
}

/// `v[key]`: the member `key` of an object; nothing for a missing member, for
/// any other value, or when there is no value.
pub open spec fn get(v: Option<JsonValue>, key: Seq<char>) -> Option<JsonValue> {
    match v {
        Some(JsonValue::Object(entries)) => member(entries@, key),
        _ => None,
    }
}

/// The text of a string value.
pub open spec fn as_text(v: Option<JsonValue>) -> Option<Seq<char>> {
    match v {
        Some(JsonValue::Text(s)) => Some(s@),
        _ => None,
    }
}

/// The elements of an array value.
pub open spec fn as_array(v: Option<JsonValue>) -> Option<Seq<JsonValue>> {
    match v {
        Some(JsonValue::Array(items)) => Some(items@),
        _ => None,
    }
}

/// The value of a boolean.
pub open spec fn as_bool(v: Option<JsonValue>) -> Option<bool> {
    match v {
        Some(JsonValue::Bool(b)) => Some(b),
        _ => None,
    }
}

/// The text of a string value, or the empty text.
pub open spec fn text_or_empty(v: Option<JsonValue>) -> Seq<char> {
    match as_text(v) {
        Some(t) => t,
        None => Seq::empty(),
    }
}

/// An optional reference, as an optional value.
pub open spec fn deref(v: Option<&JsonValue>) -> Option<JsonValue> {
    match v {
        Some(x) => Some(*x),
        None => None,
    }
}

/// `v[key]`.
pub fn json_get<'a>(v: Option<&'a JsonValue>, key: &str) -> (r: Option<&'a JsonValue>)
    ensures
        deref(r) == get(deref(v), key@),
{
    match v {
        Some(JsonValue::Object(entries)) => {
            let mut i: usize = 0;
            assert(entries@.skip(0) =~= entries@);
            while i < entries.len()
                invariant
                    i <= entries.len(),
                    get(deref(v), key@) == member(entries@, key@),
                    member(entries@, key@) == member(entries@.skip(i as int), key@),
                decreases entries.len() - i,
            {
                let ghost rest = entries@.skip(i as int);
                assert(rest[0] == entries@[i as int]);
                assert(rest.len() > 0);
                if str_eq(entries[i].0.as_str(), key) {
                    assert(member(rest, key@) == Some(rest[0].1));
                    return Some(&entries[i].1);
                }
                assert(entries@.skip(i as int).drop_first() =~= entries@.skip(i + 1));
                i = i + 1;
            }
            None
        },
        _ => None,
    }
}

/// The text of a string value.
pub fn json_str<'a>(v: Option<&'a JsonValue>) -> (r: Option<&'a str>)
    ensures
        match r {
            Some(s) => as_text(deref(v)) == Some(s@),
            None => as_text(deref(v)) is None,
        },
{
    match v {
        Some(JsonValue::Text(s)) => Some(s.as_str()),
        _ => None,
    }
}

/// An owned copy of the text of a string value.
pub fn json_string(v: Option<&JsonValue>) -> (r: Option<String>)
    ensures
        match r {
            Some(s) => as_text(deref(v)) == Some(s@),
            None => as_text(deref(v)) is None,
        },
{
    match v {
        Some(JsonValue::Text(s)) => Some(s.clone()),
        _ => None,
    }
}

/// The text of a string value, or the empty text.
pub fn json_string_or_empty(v: Option<&JsonValue>) -> (r: String)
    ensures
        r@ == text_or_empty(deref(v)),
{
    match v {
        Some(JsonValue::Text(s)) => s.clone(),
        _ => {
            proof {
                reveal_strlit("");
            }
            crate::text::string_of("")
        },
    }
}

/// The elements of an array value.
pub fn json_array<'a>(v: Option<&'a JsonValue>) -> (r: Option<&'a Vec<JsonValue>>)
    ensures
        match r {
            Some(items) => as_array(deref(v)) == Some(items@),
            None => as_array(deref(v)) is None,
        },
{
    match v {
        Some(JsonValue::Array(items)) => Some(items),
        _ => None,
    }
}

/// The value of a boolean.
pub fn json_bool(v: Option<&JsonValue>) -> (r: Option<bool>)
    ensures
        r == as_bool(deref(v)),
{
    match v {
        Some(JsonValue::Bool(b)) => Some(*b),
        _ => None,
    }
}

} // verus!
