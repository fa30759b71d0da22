//! A JSON value tree held as plain values, with the parser and printer of serde_json behind it.
use vstd::prelude::*;

verus! {

#[verifier::external_type_specification]
#[verifier::external_body]
pub struct ExJsonValue(serde_json::Value);

/// A JSON value. Integers are held exactly; any other number keeps its JSON text.
#[derive(Debug)]
pub enum Json {
    Null,
    Bool(bool),
    Int(i128),
    Float(String),
    Str(String),
    Array(Vec<Json>),
    Object(Vec<(String, Json)>),
}

/// The tree that serde_json parses from a byte string, if the bytes are one JSON value.
pub uninterp spec fn parsed_json(b: Seq<u8>) -> Option<Json>;

/// The JSON text that serde_json prints for a tree.
pub uninterp spec fn printed_json(j: Json) -> Seq<char>;

/// Relies on serde_json::from_slice into serde_json::Value: it parses one JSON value
/// (surrounding whitespace allowed) and fails on anything else.
#[verifier::external_body]
pub fn parse_json(b: &[u8]) -> (r: Option<Json>)
    ensures
        r == parsed_json(b@),
{
    serde_json::from_slice::<serde_json::Value>(b).ok().map(json_from_value)
}

/// Carries a serde_json::Value over into the library's tree, variant by variant, for the
/// body of `parse_json`. An integer is kept exactly; any other number keeps its JSON text.
#[verifier::external_body]
fn json_from_value(v: serde_json::Value) -> Json {
    match v {
        serde_json::Value::Null => Json::Null,
        serde_json::Value::Bool(b) => Json::Bool(b),
        serde_json::Value::Number(n) => match n.as_i128() {
            Some(i) => Json::Int(i),
            None => Json::Float(n.to_string()),
        },
        serde_json::Value::String(s) => Json::Str(s),
        serde_json::Value::Array(a) => Json::Array(a.into_iter().map(json_from_value).collect()),
        serde_json::Value::Object(o) => Json::Object(
            o.into_iter().map(|(k, e)| (k, json_from_value(e))).collect(),
        ),
    }
}

/// Relies on serde_json::to_string on serde_json::Value, which prints compact JSON text.
#[verifier::external_body]
pub fn print_json(j: &Json) -> (r: String)
    ensures
        r@ == printed_json(*j),
{
    serde_json::to_string(&value_from_json(j)).unwrap_or_default()
}

/// Carries the library's tree over into a serde_json::Value, variant by variant, for the
/// body of `print_json`. An integer outside what serde_json's numbers hold, or a number text
/// that serde_json does not read, becomes `null`.
#[verifier::external_body]
fn value_from_json(j: &Json) -> serde_json::Value {
    match j {
        Json::Null => serde_json::Value::Null,
        Json::Bool(b) => serde_json::Value::Bool(*b),
        Json::Int(i) => serde_json::Number::from_i128(*i).map_or(serde_json::Value::Null, serde_json::Value::Number),
        Json::Float(s) => s.parse::<serde_json::Value>().unwrap_or(serde_json::Value::Null),
        Json::Str(s) => serde_json::Value::String(s.clone()),
        Json::Array(a) => serde_json::Value::Array(a.iter().map(value_from_json).collect()),
        Json::Object(o) => serde_json::Value::Object(
            o.iter().map(|(k, e)| (k.clone(), value_from_json(e))).collect(),
        ),
    }
}

/// The value of the first member of an object named `key`.
pub open spec fn member(entries: Seq<(String, Json)>, key: Seq<char>) -> Option<Json>
    decreases entries.len(),
{
    if entries.len() == 0 {
        None
    } else if entries[0].0@ == key {
        Some(entries[0].1)
    } else {
        member(entries.drop_first(), key)
    }
}

/// A keyed collection as the feed sends it: an object, or an empty array for no entries.
/// A non-empty array, or any other value, is not one.
pub open spec fn keyed_entries(j: Json) -> Option<Seq<(String, Json)>> {
    match j {
        Json::Object(e) => Some(e@),
        Json::Array(a) => if a@.len() == 0 {
            Some(Seq::empty())
        } else {
            None
        },
        _ => None,
    }
}

/// Looks up the first member named `key`.
pub fn member_of<'a>(entries: &'a Vec<(String, Json)>, key: &str) -> (r: Option<&'a Json>)
    ensures
        r is Some <==> member(entries@, key@) is Some,
        r is Some ==> member(entries@, key@) == Some(*r->0),
{
    let mut i: usize = 0;
    assert(entries@.subrange(0, entries@.len() as int) =~= entries@);
    while i < entries.len()
        invariant
            i <= entries@.len(),
            member(entries@, key@) == member(entries@.subrange(i as int, entries@.len() as int), key@),
        decreases entries.len() - i,
    {
        let ghost rest = entries@.subrange(i as int, entries@.len() as int);
        assert(rest[0] == entries@[i as int]);
        if crate::text::text_eq(entries[i].0.as_str(), key) {
            return Some(&entries[i].1);
        }
        assert(rest.drop_first() =~= entries@.subrange(i + 1, entries@.len() as int));
        i += 1;
    }
    None
}

/// Reads a keyed collection; `none` is an empty list, handed back for an empty array.
pub fn keyed<'a>(j: &'a Json, none: &'a Vec<(String, Json)>) -> (r: Option<&'a Vec<(String, Json)>>)
    requires
        none@.len() == 0,
    ensures
        r is Some <==> keyed_entries(*j) is Some,
        r is Some ==> keyed_entries(*j) == Some(r->0@),
{
    match j {
        Json::Object(e) => Some(e),
        Json::Array(a) => {
            if a.len() == 0 {
                assert(none@ =~= Seq::<(String, Json)>::empty());
                Some(none)
            } else {
                None
            }
        },
        _ => None,
    }
}

} // verus!
