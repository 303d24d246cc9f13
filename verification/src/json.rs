//! A JSON document as the protocol handlers read it. Received text is
//! parsed by serde_json and converted into this form; the accessors mirror
//! serde_json's `Value::get`, `as_str`, `as_u64`, `as_array` and
//! `as_object`.

use vstd::prelude::*;
use crate::text::str_eq;

verus! {

/// A parsed JSON value.
pub enum JsonValue {
    Null,
    Bool(bool),
    /// A number representable as `u64`.
    UInt(u64),
    /// Any other number (negative or fractional).
    OtherNumber,
    Str(String),
    Array(Vec<JsonValue>),
    /// Members of an object; keys are unique.
    Object(Vec<(String, JsonValue)>),
}

/// Value of the first member named `key`.
pub open spec fn members_get(members: Seq<(String, JsonValue)>, key: Seq<char>) -> Option<JsonValue>
    decreases members.len(),
{
    if members.len() == 0 {
        None
    } else if members[0].0@ == key {
        Some(members[0].1)
    } else {
        members_get(members.drop_first(), key)
    }
}

/// The member `key` of an object; `None` for other values or a missing key.
pub open spec fn json_get(v: JsonValue, key: Seq<char>) -> Option<JsonValue> {
    match v {
        JsonValue::Object(m) => members_get(m@, key),
        _ => None,
    }
}

/// The text of a string value.
pub open spec fn json_as_str(v: Option<JsonValue>) -> Option<Seq<char>> {
    match v {
        Some(JsonValue::Str(s)) => Some(s@),
        _ => None,
    }
}

/// The value of a number representable as `u64`.
pub open spec fn json_as_u64(v: Option<JsonValue>) -> Option<u64> {
    match v {
        Some(JsonValue::UInt(n)) => Some(n),
        _ => None,
    }
}

/// The text of string member `key` of `v`.
pub open spec fn str_field(v: JsonValue, key: Seq<char>) -> Option<Seq<char>> {
    json_as_str(json_get(v, key))
}

/// The `u64` member `key` of `v`.
pub open spec fn u64_field(v: JsonValue, key: Seq<char>) -> Option<u64> {
    json_as_u64(json_get(v, key))
}

impl JsonValue {
    /// The member `key` of an object.
    pub fn get(&self, key: &str) -> (r: Option<&JsonValue>)
        ensures
            r matches Some(x) ==> json_get(*self, key@) == Some(*x),
            r is None ==> json_get(*self, key@) is None,
    {
        match self {
            JsonValue::Object(members) => {
                let n = members.len();
                assert(members@.skip(0) =~= members@);
                for i in 0..n
                    invariant
                        n == members@.len(),
                        json_get(*self, key@) == members_get(members@, key@),
                        members_get(members@, key@) == members_get(members@.skip(i as int), key@),
                {
                    assert(members@.skip(i as int).drop_first() =~= members@.skip(i + 1));
                    assert(members@.skip(i as int)[0] == members@[i as int]);
                    if str_eq(members[i].0.as_str(), key) {
                        assert(members@.skip(i as int)[0].0@ == key@);
                        assert(members_get(members@.skip(i as int), key@) == Some(members@[i as int].1));
                        return Some(&members[i].1);
                    }
                }
                None
            },
            _ => None,
        }
    }

    /// The text of a string value.
    pub fn as_str(&self) -> (r: Option<&str>)
        ensures
            r matches Some(s) ==> json_as_str(Some(*self)) == Some(s@),
            r is None ==> json_as_str(Some(*self)) is None,
    {
        match self {
            JsonValue::Str(s) => Some(s.as_str()),
            _ => None,
        }
    }

    /// The value of a number representable as `u64`.
    pub fn as_u64(&self) -> (r: Option<u64>)
        ensures
            r == json_as_u64(Some(*self)),
    {
        match self {
            JsonValue::UInt(n) => Some(*n),
            _ => None,
        }
    }

    /// The elements of an array.
    pub fn as_array(&self) -> (r: Option<&Vec<JsonValue>>)
        ensures
            r matches Some(a) ==> *self == JsonValue::Array(*a),
            r is None ==> !(*self is Array),
    {
        match self {
            JsonValue::Array(a) => Some(a),
            _ => None,
        }
    }

    /// Whether the value is an object.
    pub fn is_object(&self) -> (r: bool)
        ensures
            r == (*self is Object),
    {
        match self {
            JsonValue::Object(_) => true,
            _ => false,
        }
    }
}

/// String member `key` of an optional value (absent when `v` is `None`).
pub fn get_str<'a>(v: &'a JsonValue, key: &str) -> (r: Option<&'a str>)
    ensures
        r matches Some(s) ==> str_field(*v, key@) == Some(s@),
        r is None ==> str_field(*v, key@) is None,
{
    match v.get(key) {
        Some(x) => x.as_str(),
        None => None,
    }
}

/// `u64` member `key`.
pub fn get_u64(v: &JsonValue, key: &str) -> (r: Option<u64>)
    ensures
        r == u64_field(*v, key@),
{
    match v.get(key) {
        Some(x) => x.as_u64(),
        None => None,
    }
}

/// serde_json's parsed document.
#[verifier::external_type_specification]
#[verifier::external_body]
pub struct ExSerdeValue(serde_json::Value);

/// Name for the document serde_json reads from a text, converted into a
/// [`JsonValue`]; `None` when the text is not JSON.
pub uninterp spec fn parsed_json(text: Seq<char>) -> Option<JsonValue>;

/// serde_json's `from_str` into a `serde_json::Value`, converted variant
/// for variant (numbers representable as `u64` keep their value, other
/// numbers become `OtherNumber`); `None` when serde_json refuses the text.
#[verifier::external_body]
pub(crate) fn parse_json(text: &str) -> (r: Option<JsonValue>)
    ensures
        r == parsed_json(text@),
{
    match serde_json::from_str::<serde_json::Value>(text) {
        Ok(v) => Some(from_serde(&v)),
        Err(_) => None,
    }
}

/// The conversion `parse_json` applies to serde_json's document, one
/// variant for one variant, members in serde_json's order.
#[verifier::external_body]
fn from_serde(v: &serde_json::Value) -> JsonValue {
    match v {
        serde_json::Value::Null => JsonValue::Null,
        serde_json::Value::Bool(b) => JsonValue::Bool(*b),
        serde_json::Value::Number(n) => match n.as_u64() {
            Some(u) => JsonValue::UInt(u),
            None => JsonValue::OtherNumber,
        },
        serde_json::Value::String(s) => JsonValue::Str(s.clone()),
        serde_json::Value::Array(a) => JsonValue::Array(a.iter().map(from_serde).collect()),
        serde_json::Value::Object(m) => JsonValue::Object(m.iter().map(|(k, x)| (k.clone(), from_serde(x))).collect()),
    }
}

} // verus!
