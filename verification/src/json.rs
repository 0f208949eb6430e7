//! Untrusted JSON from providers, as a value the verified logic can read.
//!
//! Parsing is serde_json's; what the logic then reads out of the document
//! goes through the accessors here, each with an exact contract.
use vstd::prelude::*;

verus! {

/// A JSON number, as far as the logic reads numbers: a non-negative integer,
/// a negative integer, or a number with a fraction or exponent.
#[derive(Debug, Clone, Copy, PartialEq, Eq, Structural)]
pub enum JsonNumber {
    Unsigned(u64),
    Negative(i64),
    Fractional,
}

/// A JSON document. An object keeps its members in key order, each key
/// once.
#[derive(Debug)]
pub enum JsonValue {
    Null,
    Bool(bool),
    Number(JsonNumber),
    String(String),
    Array(Vec<JsonValue>),
    Object(Vec<(String, JsonValue)>),
}

/// What serde_json parses `bytes` into, if they are a JSON document.
pub uninterp spec fn json_document(bytes: Seq<u8>) -> Option<JsonValue>;

#[verifier::external_type_specification]
#[verifier::external_body]
pub struct ExSerdeJsonValue(serde_json::Value);

/// Converts a serde_json value into a [`JsonValue`], variant for variant.
#[verifier::external_body]
fn from_serde(value: &serde_json::Value) -> JsonValue {
    match value {
        serde_json::Value::Null => JsonValue::Null,
        serde_json::Value::Bool(b) => JsonValue::Bool(*b),
        serde_json::Value::Number(n) => JsonValue::Number(match (n.as_u64(), n.as_i64()) {
            (Some(u), _) => JsonNumber::Unsigned(u),
            (None, Some(i)) => JsonNumber::Negative(i),
            _ => JsonNumber::Fractional,
        }),
        serde_json::Value::String(s) => JsonValue::String(s.clone()),
        serde_json::Value::Array(items) => JsonValue::Array(items.iter().map(from_serde).collect()),
        serde_json::Value::Object(map) => JsonValue::Object(
            map.iter().map(|(k, v)| (k.clone(), from_serde(v))).collect(),
        ),
    }
}

/// `serde_json::from_slice::<serde_json::Value>`: the document `bytes` hold,
/// or `None` when they are not JSON. The result is named
/// [`json_document`]; nothing else is claimed of it.
#[verifier::external_body]
pub fn parse_json(bytes: &[u8]) -> (value: Option<JsonValue>)
    ensures
        value == json_document(bytes@),
{
    match serde_json::from_slice::<serde_json::Value>(bytes) {
        Ok(v) => Some(from_serde(&v)),
        Err(_) => None,
    }
}

/// The value of the first member named `key` in `members`.
pub open spec fn member(members: Seq<(String, JsonValue)>, key: Seq<char>) -> Option<JsonValue>
    decreases members.len(),
{
    if members.len() == 0 {
        None
    } else if members[0].0@ == key {
        Some(members[0].1)
    } else {
        member(members.drop_first(), key)
    }
}

/// The member `key` of an object; nothing for any other value.
pub open spec fn field(value: JsonValue, key: Seq<char>) -> Option<JsonValue> {
    match value {
        JsonValue::Object(members) => member(members@, key),
        _ => None,
    }
}

/// The member `key` of an optional object.
pub open spec fn field_of(value: Option<JsonValue>, key: Seq<char>) -> Option<JsonValue> {
    match value {
        Some(v) => field(v, key),
        None => None,
    }
}

pub open spec fn bool_of(value: Option<JsonValue>) -> Option<bool> {
    match value {
        Some(JsonValue::Bool(b)) => Some(b),
        _ => None,
    }
}

pub open spec fn text_of(value: Option<JsonValue>) -> Option<Seq<char>> {
    match value {
        Some(JsonValue::String(s)) => Some(s@),
        _ => None,
    }
}

pub open spec fn unsigned_of(value: Option<JsonValue>) -> Option<u64> {
    match value {
        Some(JsonValue::Number(JsonNumber::Unsigned(n))) => Some(n),
        _ => None,
    }
}

pub open spec fn is_object(value: Option<JsonValue>) -> bool {
    value matches Some(JsonValue::Object(_))
}

impl JsonValue {
    /// The member `key`, when this is an object that has one.
    pub fn get(&self, key: &str) -> (found: Option<&JsonValue>)
        ensures
            match found {
                Some(v) => field(*self, key@) == Some(*v),
                None => field(*self, key@) is None,
            },
    {
        match self {
            JsonValue::Object(members) => {
                let mut i: usize = 0;
                assert(members@.subrange(0, members@.len() as int) =~= members@);
                while i < members.len()
                    invariant
                        i <= members@.len(),
                        field(*self, key@) == member(members@, key@),
                        member(members@, key@) == member(members@.subrange(i as int, members@.len() as int), key@),
                    decreases members@.len() - i,
                {
                    let ghost rest = members@.subrange(i as int, members@.len() as int);
                    assert(rest.drop_first() =~= members@.subrange(i + 1, members@.len() as int));
                    if crate::text::same_text(members[i].0.as_str(), key) {
                        assert(rest[0] == members@[i as int]);
                        assert(rest.len() > 0);
                        assert(rest[0].0@ == key@);
                        assert(member(rest, key@) == Some(rest[0].1));

                        return Some(&members[i].1);
                    }
                    i = i + 1;
                }
                None
            },
            _ => None,
        }
    }

    /// The elements, when this is an array.
    pub fn as_array(&self) -> (items: Option<&Vec<JsonValue>>)
        ensures
            match *self {
                JsonValue::Array(v) => items == Some(&v),
                _ => items is None,
            },
    {
        match self {
            JsonValue::Array(items) => Some(items),
            _ => None,
        }
    }

    /// The members, when this is an object.
    pub fn as_object(&self) -> (members: Option<&Vec<(String, JsonValue)>>)
        ensures
            match *self {
                JsonValue::Object(m) => members == Some(&m),
                _ => members is None,
            },
    {
        match self {
            JsonValue::Object(members) => Some(members),
            _ => None,
        }
    }

    /// The boolean, when this is one.
    pub fn as_bool(&self) -> (b: Option<bool>)
        ensures
            b == bool_of(Some(*self)),
    {
        match self {
            JsonValue::Bool(b) => Some(*b),
            _ => None,
        }
    }

    /// The text, when this is a string.
    pub fn as_str(&self) -> (text: Option<&str>)
        ensures
            match text {
                Some(t) => text_of(Some(*self)) == Some(t@),
                None => text_of(Some(*self)) is None,
            },
    {
        match self {
            JsonValue::String(s) => Some(s.as_str()),
            _ => None,
        }
    }

    /// The number, when this is a non-negative integer that fits in `u64`.
    pub fn as_u64(&self) -> (n: Option<u64>)
        ensures
            n == unsigned_of(Some(*self)),
    {
        match self {
            JsonValue::Number(JsonNumber::Unsigned(n)) => Some(*n),
            _ => None,
        }
    }
}

} // verus!
