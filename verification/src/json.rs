//! A JSON document tree as the protocol layer reads it.
//!
//! Numbers keep their integer value; a number with a fractional part or an
//! exponent is kept as `Float` without its value, since nothing in the
//! protocol reads one. Object members keep their order and, as in any JSON
//! document parsed into a map, each key occurs at most once.
use vstd::prelude::*;

use crate::text::{chars_eq, chars_of, owned};

verus! {

#[derive(Clone, Copy, Debug, PartialEq, Eq, Structural)]
pub enum JsonNumber {
    /// A non-negative integer.
    PosInt(u64),
    /// A negative integer.
    NegInt(i64),
    /// Any number that is not an integer.
    Float,
}

#[derive(Debug, PartialEq)]
pub enum JsonValue {
    Null,
    Bool(bool),
    Number(JsonNumber),
    String(String),
    Array(Vec<JsonValue>),
    Object(Vec<(String, JsonValue)>),
}

#[verifier::external_type_specification]
#[verifier::external_body]
pub struct ExSerdeJsonValue(serde_json::Value);

/// The document that `serde_json` parses from `text`, as a tree; `None` when
/// the text is not JSON.
pub uninterp spec fn json_document(text: Seq<char>) -> Option<JsonValue>;

/// `serde_json::from_str::<serde_json::Value>`: parses `text` as JSON. The
/// contract claims only that the result is a function of the text, named
/// `json_document`; what `serde_json` accepts and builds is its own.
#[verifier::external_body]
pub fn parse_json_document(text: &str) -> (r: Option<JsonValue>)
    ensures
        r == json_document(text@),
{
    serde_json::from_str::<serde_json::Value>(text).ok().map(json_tree)
}

/// A `serde_json` tree as this library's tree, node for node: an integer
/// that fits `u64` or else `i64` keeps its value, any other number becomes
/// `Float`, members keep the order the map yields them in.
#[verifier::external_body]
fn json_tree(value: serde_json::Value) -> JsonValue {
    match value {
        serde_json::Value::Null => JsonValue::Null,
        serde_json::Value::Bool(b) => JsonValue::Bool(b),
        serde_json::Value::Number(n) => JsonValue::Number(
            n.as_u64().map(JsonNumber::PosInt).or(n.as_i64().map(JsonNumber::NegInt)).unwrap_or(
                JsonNumber::Float,
            ),
        ),
        serde_json::Value::String(s) => JsonValue::String(s),
        serde_json::Value::Array(a) => JsonValue::Array(a.into_iter().map(json_tree).collect()),
        serde_json::Value::Object(m) => JsonValue::Object(m.into_iter().map(|(k, v)| (k, json_tree(v))).collect()),
    }
}

/// The value of the first member of `entries` named `key`.
pub open spec fn lookup(entries: Seq<(String, JsonValue)>, key: Seq<char>) -> Option<JsonValue>
    decreases entries.len(),
{
    if entries.len() == 0 {
        None
    } else if entries[0].0@ == key {
        Some(entries[0].1)
    } else {
        lookup(entries.drop_first(), key)
    }
}

/// The index of the first member of `entries` named `key`.
pub open spec fn lookup_index(entries: Seq<(String, JsonValue)>, key: Seq<char>) -> Option<int>
    decreases entries.len(),
{
    if entries.len() == 0 {
        None
    } else if entries[0].0@ == key {
        Some(0)
    } else {
        match lookup_index(entries.drop_first(), key) {
            Some(i) => Some(i + 1),
            None => None,
        }
    }
}

pub proof fn lemma_lookup_index(entries: Seq<(String, JsonValue)>, key: Seq<char>)
    ensures
        match lookup_index(entries, key) {
            Some(i) => 0 <= i < entries.len() && entries[i].0@ == key && lookup(entries, key)
                == Some(entries[i].1),
            None => lookup(entries, key) is None,
        },
    decreases entries.len(),
{
    if entries.len() > 0 && entries[0].0@ != key {
        lemma_lookup_index(entries.drop_first(), key);
    }
}

/// The member of an object named `key` (`Value::get` on an object).
pub open spec fn member(v: JsonValue, key: Seq<char>) -> Option<JsonValue> {
    match v {
        JsonValue::Object(entries) => lookup(entries@, key),
        _ => None,
    }
}

/// The text of a string value (`Value::as_str`).
pub open spec fn as_text(v: Option<JsonValue>) -> Option<Seq<char>> {
    match v {
        Some(JsonValue::String(s)) => Some(s@),
        _ => None,
    }
}

/// Index of the first member named `key`.
pub fn find_member(entries: &Vec<(String, JsonValue)>, key: &str) -> (r: Option<usize>)
    ensures
        r is None <==> lookup_index(entries@, key@) is None,
        r matches Some(i) ==> lookup_index(entries@, key@) == Some(i as int),
{
    let k = chars_of(key);
    let mut i: usize = 0;
    assert(entries@.skip(0) =~= entries@);
    while i < entries.len()
        invariant
            i <= entries@.len(),
            k@ == key@,
            lookup_index(entries@, key@) == (match lookup_index(entries@.skip(i as int), key@) {
                Some(j) => Some(j + i),
                None => None::<int>,
            }),
        decreases entries.len() - i,
    {
        let name = chars_of(entries[i].0.as_str());
        let ghost rest = entries@.skip(i as int);
        assert(rest[0] == entries@[i as int]);
        if chars_eq(&name, &k) {
            return Some(i);
        }
        assert(rest.drop_first() =~= entries@.skip(i + 1));
        i += 1;
    }
    assert(entries@.skip(i as int) =~= Seq::<(String, JsonValue)>::empty());
    None
}

/// The member of `entries` named `key`, if any.
pub fn get_member<'a>(entries: &'a Vec<(String, JsonValue)>, key: &str) -> (r: Option<
    &'a JsonValue,
>)
    ensures
        r is None <==> lookup(entries@, key@) is None,
        r matches Some(x) ==> lookup(entries@, key@) == Some(*x),
{
    proof {
        lemma_lookup_index(entries@, key@);
    }
    match find_member(entries, key) {
        Some(i) => {
            Some(&entries[i].1)
        },
        None => None,
    }
}

/// `Value::get(key)`.
pub fn value_member<'a>(v: &'a JsonValue, key: &str) -> (r: Option<&'a JsonValue>)
    ensures
        r is None <==> member(*v, key@) is None,
        r matches Some(x) ==> member(*v, key@) == Some(*x),
{
    match v {
        JsonValue::Object(entries) => get_member(entries, key),
        _ => None,
    }
}

/// A string value with the text of `s`.
pub fn json_text(s: &str) -> (r: JsonValue)
    ensures
        r matches JsonValue::String(t) && t@ == s@,
{
    JsonValue::String(owned(s))
}

/// `Value::from(i64)`.
pub open spec fn from_i64(n: i64) -> JsonNumber {
    if n < 0 {
        JsonNumber::NegInt(n)
    } else {
        JsonNumber::PosInt(n as u64)
    }
}

pub fn number_from_i64(n: i64) -> (r: JsonNumber)
    ensures
        r == from_i64(n),
{
    if n < 0 {
        JsonNumber::NegInt(n)
    } else {
        JsonNumber::PosInt(n as u64)
    }
}

/// The member of `entries` named `key`, taken out of them.
pub fn take_member(entries: Vec<(String, JsonValue)>, key: &str) -> (r: Option<JsonValue>)
    ensures
        r == lookup(entries@, key@),
{
    proof {
        lemma_lookup_index(entries@, key@);
    }
    let mut entries = entries;
    let ghost before = entries@;
    match find_member(&entries, key) {
        Some(i) => {
            let (_, value) = entries.swap_remove(i);
            assert(value == before[i as int].1);
            Some(value)
        },
        None => None,
    }
}

} // verus!
