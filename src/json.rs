//! A plain model of JSON documents, and the parser the library relies on.

use vstd::prelude::*;
use crate::text::str_eq;

verus! {

/// A JSON value. Numbers keep their textual form. Objects are lists of entries; those
/// made by `parse_json` have their keys sorted, each key once.
#[derive(Debug)]
pub enum Json {
    Null,
    Bool(bool),
    Number(String),
    Str(String),
    Array(Vec<Json>),
    Object(Vec<(String, Json)>),
}

/// What the JSON parser makes of a text: `None` when it is not a JSON document.
pub uninterp spec fn json_parse(text: Seq<char>) -> Option<Json>;

/// serde_json's document type; it only passes from the parser to `json_of_value`.
#[verifier::external_type_specification]
#[verifier::external_body]
pub struct ExJsonValue(serde_json::Value);

/// Part of the parser wrapper below: turns a `serde_json::Value` into a `Json`,
/// variant for variant, a number by the text that `serde_json::Number` displays.
#[verifier::external_body]
fn json_of_value(v: serde_json::Value) -> Json {
    match v {
        serde_json::Value::Null => Json::Null,
        serde_json::Value::Bool(b) => Json::Bool(b),
        serde_json::Value::Number(n) => Json::Number(n.to_string()),
        serde_json::Value::String(s) => Json::Str(s),
        serde_json::Value::Array(a) => Json::Array(a.into_iter().map(json_of_value).collect()),
        serde_json::Value::Object(m) => Json::Object(
            m.into_iter().map(|(k, x)| (k, json_of_value(x))).collect(),
        ),
    }
}

/// Relies on `serde_json::from_str`: the document that `text` holds, if it is one;
/// what it yields depends on the text alone.
#[verifier::external_body]
pub fn parse_json(text: &str) -> (r: Option<Json>)
    ensures
        r == json_parse(text@),
{
    serde_json::from_str::<serde_json::Value>(text).ok().map(json_of_value)
}

/// The value under `key` in an object: the first entry with that key.
pub open spec fn field_of(entries: Seq<(String, Json)>, key: Seq<char>) -> Option<Json>
    decreases entries.len(),
{
    if entries.len() == 0 {
        None
    } else if entries[0].0@ == key {
        Some(entries[0].1)
    } else {
        field_of(entries.drop_first(), key)
    }
}

/// The value under `key` when `j` is an object.
pub open spec fn field(j: Json, key: Seq<char>) -> Option<Json> {
    match j {
        Json::Object(entries) => field_of(entries@, key),
        _ => None,
    }
}

/// The value under `key` of the value under `outer`.
pub open spec fn field2(j: Json, outer: Seq<char>, key: Seq<char>) -> Option<Json> {
    match field(j, outer) {
        Some(inner) => field(inner, key),
        None => None,
    }
}

/// The text when `j` is a JSON string.
pub open spec fn str_value(j: Option<Json>) -> Option<Seq<char>> {
    match j {
        Some(Json::Str(s)) => Some(s@),
        _ => None,
    }
}

/// Whether `j` is the JSON string `s`.
pub open spec fn is_str(j: Option<Json>, s: Seq<char>) -> bool {
    str_value(j) == Some(s)
}

impl Json {
    /// The value under `key`, when this is an object that has one.
    pub fn get(&self, key: &str) -> (r: Option<&Json>)
        ensures
            match r {
                Some(v) => field(*self, key@) == Some(*v),
                None => field(*self, key@) is None,
            },
    {
        match self {
            Json::Object(entries) => {
                let mut i: usize = 0;
                assert(entries@.skip(0) =~= entries@);
                while i < entries.len()
                    invariant
                        i <= entries@.len(),
                        field(*self, key@) == field_of(entries@.skip(i as int), key@),
                    decreases entries@.len() - i,
                {
                    assert(entries@.skip(i as int).drop_first() =~= entries@.skip(i + 1));
                    assert(entries@.skip(i as int)[0] == entries@[i as int]);
                    if str_eq(entries[i].0.as_str(), key) {
                        assert(field_of(entries@.skip(i as int), key@) == Some(entries@[i as int].1));
                        let r = &entries[i].1;
                        assert(*r == entries@[i as int].1);
                        return Some(r);
                    }
                    i = i + 1;
                }
                None
            },
            _ => None,
        }
    }

    /// The text, when this is a JSON string.
    pub fn as_str(&self) -> (r: Option<&String>)
        ensures
            match r {
                Some(s) => *self == Json::Str(*s),
                None => !(*self is Str),
            },
    {
        match self {
            Json::Str(s) => Some(s),
            _ => None,
        }
    }

    /// The items, when this is a JSON array.
    pub fn as_array(&self) -> (r: Option<&Vec<Json>>)
        ensures
            match r {
                Some(a) => *self == Json::Array(*a),
                None => !(*self is Array),
            },
    {
        match self {
            Json::Array(a) => Some(a),
            _ => None,
        }
    }
}

/// The text under `key` of `j`, when there is a string there.
pub fn get_str<'a>(j: &'a Json, key: &str) -> (r: Option<&'a String>)
    ensures
        match r {
            Some(s) => str_value(field(*j, key@)) == Some(s@),
            None => str_value(field(*j, key@)) is None,
        },
{
    match j.get(key) {
        Some(v) => v.as_str(),
        None => None,
    }
}

/// The value under `key`, moved out of `j`.
pub fn into_field(j: Json, key: &str) -> (r: Option<Json>)
    ensures
        r == field(j, key@),
{
    let ghost j0 = j;
    match j {
        Json::Object(mut entries) => {
            let ghost all = entries@;
            let mut i: usize = 0;
            assert(all.skip(0) =~= all);
            while i < entries.len()
                invariant
                    entries@ == all,
                    i <= all.len(),
                    j == j0,
                    field(j0, key@) == field_of(all.skip(i as int), key@),
                decreases all.len() - i,
            {
                assert(all.skip(i as int).drop_first() =~= all.skip(i + 1));
                assert(all.skip(i as int)[0] == all[i as int]);
                if str_eq(entries[i].0.as_str(), key) {
                    assert(field_of(all.skip(i as int), key@) == Some(all[i as int].1));
                    let e = entries.remove(i);
                    assert(e == all[i as int]);
                    return Some(e.1);
                }
                i = i + 1;
            }
            None
        },
        _ => None,
    }
}

} // verus!
