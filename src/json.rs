//! A parsed JSON document, as plain values, and typed lookups of an object's members.
use vstd::prelude::*;
use crate::text::text_eq;

verus! {

/// A JSON value. Numbers are kept as the integer they are, when they are one that fits
/// 64 bits; any other number is `Real`, whose value no schema here reads.
pub enum Json {
    Null,
    Bool(bool),
    UInt(u64),
    NegInt(i64),
    Real,
    Str(String),
    Arr(Vec<Json>),
    Obj(Vec<(String, Json)>),
}

#[verifier::external_type_specification]
#[verifier::external_body]
pub struct ExJsonValue(serde_json::Value);

/// The document that a JSON text holds, or `None` where it holds none.
pub uninterp spec fn parsed_json(text: Seq<char>) -> Option<Json>;

/// Relies on `serde_json::from_str::<serde_json::Value>`: the one JSON value of `text`, with
/// only whitespace around it; the result depends on the text alone.
#[verifier::external_body]
pub(crate) fn parse_json(text: &str) -> (r: Option<Json>)
    ensures
        r == parsed_json(text@),
{
    serde_json::from_str::<serde_json::Value>(text).ok().map(json_from_value)
}

/// Relies on `serde_json::Value`'s variants and `serde_json::Number::{as_u64, as_i64}`:
/// carries a parsed value over, variant for variant.
#[verifier::external_body]
fn json_from_value(v: serde_json::Value) -> Json {
    match v {
        serde_json::Value::Null => Json::Null,
        serde_json::Value::Bool(b) => Json::Bool(b),
        serde_json::Value::Number(n) => match (n.as_u64(), n.as_i64()) {
            (Some(u), _) => Json::UInt(u),
            (None, Some(i)) => Json::NegInt(i),
            _ => Json::Real,
        },
        serde_json::Value::String(s) => Json::Str(s),
        serde_json::Value::Array(a) => Json::Arr(a.into_iter().map(json_from_value).collect()),
        serde_json::Value::Object(m) => Json::Obj(
            m.into_iter().map(|(k, v)| (k, json_from_value(v))).collect(),
        ),
    }
}

impl Json {
    /// Parses a JSON text; `None` where it is not exactly one JSON value.
    pub fn parse(text: &str) -> (r: Option<Json>)
        ensures
            r == parsed_json(text@),
    {
        parse_json(text)
    }
}

/// The value of the first member named `key` at index `i` or later.
pub open spec fn member_from(ms: Seq<(String, Json)>, key: Seq<char>, i: int) -> Option<Json>
    decreases ms.len() - i,
{
    if i < 0 || i >= ms.len() {
        None
    } else if ms[i].0@ == key {
        Some(ms[i].1)
    } else {
        member_from(ms, key, i + 1)
    }
}

/// The value of the first member named `key`.
pub open spec fn member(ms: Seq<(String, Json)>, key: Seq<char>) -> Option<Json> {
    member_from(ms, key, 0)
}

/// The member `key` when it is a string.
pub open spec fn text_member(ms: Seq<(String, Json)>, key: Seq<char>) -> Option<Seq<char>> {
    match member(ms, key) {
        Some(Json::Str(s)) => Some(s@),
        _ => None,
    }
}

/// The member `key` when it is an integer that fits 32 bits, unsigned.
pub open spec fn u32_member(ms: Seq<(String, Json)>, key: Seq<char>) -> Option<u32> {
    match member(ms, key) {
        Some(Json::UInt(n)) => if n <= u32::MAX {
            Some(n as u32)
        } else {
            None
        },
        _ => None,
    }
}

/// The member `key` when it is an integer that fits 32 bits, signed.
pub open spec fn i32_member(ms: Seq<(String, Json)>, key: Seq<char>) -> Option<i32> {
    match member(ms, key) {
        Some(Json::UInt(n)) => if n <= i32::MAX {
            Some(n as i32)
        } else {
            None
        },
        Some(Json::NegInt(n)) => if n >= i32::MIN {
            Some(n as i32)
        } else {
            None
        },
        _ => None,
    }
}

/// Appending a member under another name leaves every lookup of `key` as it was.
pub proof fn lemma_member_push(ms: Seq<(String, Json)>, x: (String, Json), key: Seq<char>, i: int)
    requires
        x.0@ != key,
        0 <= i <= ms.len(),
    ensures
        member_from(ms.push(x), key, i) == member_from(ms, key, i),
    decreases ms.len() - i,
{
    if i < ms.len() {
        assert(ms.push(x)[i] == ms[i]);
        lemma_member_push(ms, x, key, i + 1);
    } else {
        assert(ms.push(x)[i] == x);
        assert(member_from(ms.push(x), key, i + 1) is None);
    }
}

/// Finds the first member named `key`.
pub fn find_member<'a>(ms: &'a Vec<(String, Json)>, key: &str) -> (r: Option<&'a Json>)
    ensures
        match r {
            Some(v) => member(ms@, key@) == Some(*v),
            None => member(ms@, key@) is None,
        },
{
    let mut i: usize = 0;
    while i < ms.len()
        invariant
            i <= ms.len(),
            member_from(ms@, key@, i as int) == member(ms@, key@),
        decreases ms.len() - i,
    {
        if text_eq(ms[i].0.as_str(), key) {
            return Some(&ms[i].1);
        }
        i = i + 1;
    }
    None
}

/// The member `key` when it is a string.
pub fn get_text(ms: &Vec<(String, Json)>, key: &str) -> (r: Option<String>)
    ensures
        match r {
            Some(t) => text_member(ms@, key@) == Some(t@),
            None => text_member(ms@, key@) is None,
        },
{
    match find_member(ms, key) {
        Some(Json::Str(s)) => Some(s.clone()),
        _ => None,
    }
}

/// The member `key` when it is an unsigned 32-bit integer.
pub fn get_u32(ms: &Vec<(String, Json)>, key: &str) -> (r: Option<u32>)
    ensures
        r == u32_member(ms@, key@),
{
    match find_member(ms, key) {
        Some(Json::UInt(n)) => if *n <= u32::MAX as u64 {
            Some(*n as u32)
        } else {
            None
        },
        _ => None,
    }
}

/// The member `key` when it is a signed 32-bit integer.
pub fn get_i32(ms: &Vec<(String, Json)>, key: &str) -> (r: Option<i32>)
    ensures
        r == i32_member(ms@, key@),
{
    match find_member(ms, key) {
        Some(Json::UInt(n)) => if *n <= i32::MAX as u64 {
            Some(*n as i32)
        } else {
            None
        },
        Some(Json::NegInt(n)) => if *n >= i32::MIN as i64 {
            Some(*n as i32)
        } else {
            None
        },
        _ => None,
    }
}

} // verus!
