use vstd::prelude::*;
use crate::janus_id::{JanusId, U63};
use crate::protocol::{member, JsonNumber, JsonValue};

verus! {

/// The identifier a JSON value stands for: a string, or an unsigned
/// integer of at most 63 bits.
pub open spec fn janus_id_of(v: JsonValue) -> Option<JanusId> {
    match v {
        JsonValue::String(s) => Some(JanusId::String(s)),
        JsonValue::Number(JsonNumber::PosInt(n)) => if n <= U63::MAX {
            Some(JanusId::Uint(U63::spec_new(n)))
        } else {
            None
        },
        _ => None,
    }
}

/// A required identifier member.
pub open spec fn id_field(v: Option<JsonValue>) -> Option<JanusId> {
    match v {
        Some(x) => janus_id_of(x),
        None => None,
    }
}

/// A required boolean member.
pub open spec fn bool_field(v: Option<JsonValue>) -> Option<bool> {
    match v {
        Some(JsonValue::Bool(b)) => Some(b),
        _ => None,
    }
}

/// A required string member.
pub open spec fn string_field(v: Option<JsonValue>) -> Option<String> {
    match v {
        Some(JsonValue::String(s)) => Some(s),
        _ => None,
    }
}

/// An optional string member: absent or null gives `Some(None)`, a
/// string `Some(Some(s))`, anything else fails.
pub open spec fn opt_string_field(v: Option<JsonValue>) -> Option<Option<String>> {
    match v {
        None => Some(None),
        Some(JsonValue::Null) => Some(None),
        Some(JsonValue::String(s)) => Some(Some(s)),
        _ => None,
    }
}

/// An optional boolean member.
pub open spec fn opt_bool_field(v: Option<JsonValue>) -> Option<Option<bool>> {
    match v {
        None => Some(None),
        Some(JsonValue::Null) => Some(None),
        Some(JsonValue::Bool(b)) => Some(Some(b)),
        _ => None,
    }
}

/// An optional unsigned integer member.
pub open spec fn opt_u64_field(v: Option<JsonValue>) -> Option<Option<u64>> {
    match v {
        None => Some(None),
        Some(JsonValue::Null) => Some(None),
        Some(JsonValue::Number(JsonNumber::PosInt(n))) => Some(Some(n)),
        _ => None,
    }
}

/// Reads an identifier.
pub fn decode_janus_id(v: &JsonValue) -> (r: Option<JanusId>)
    ensures
        r == janus_id_of(*v),
{
    match v {
        JsonValue::String(s) => Some(JanusId::String(s.clone())),
        JsonValue::Number(JsonNumber::PosInt(n)) => match U63::from_u64(*n) {
            Some(u) => Some(JanusId::Uint(u)),
            None => None,
        },
        _ => None,
    }
}

/// Reads the identifier member `key` of `obj`.
pub fn get_id(obj: &JsonValue, key: &str) -> (r: Option<JanusId>)
    ensures
        r == id_field(member(*obj, key@)),
{
    match obj.get(key) {
        Some(v) => decode_janus_id(v),
        None => None,
    }
}

/// Reads the boolean member `key` of `obj`.
pub fn get_bool(obj: &JsonValue, key: &str) -> (r: Option<bool>)
    ensures
        r == bool_field(member(*obj, key@)),
{
    match obj.get(key) {
        Some(JsonValue::Bool(b)) => Some(*b),
        _ => None,
    }
}

/// Reads the string member `key` of `obj`.
pub fn get_string(obj: &JsonValue, key: &str) -> (r: Option<String>)
    ensures
        r == string_field(member(*obj, key@)),
{
    match obj.get(key) {
        Some(JsonValue::String(s)) => Some(s.clone()),
        _ => None,
    }
}

/// Reads the optional string member `key` of `obj`.
pub fn get_opt_string(obj: &JsonValue, key: &str) -> (r: Option<Option<String>>)
    ensures
        r == opt_string_field(member(*obj, key@)),
{
    match obj.get(key) {
        None => Some(None),
        Some(JsonValue::Null) => Some(None),
        Some(JsonValue::String(s)) => Some(Some(s.clone())),
        _ => None,
    }
}

/// Reads the optional boolean member `key` of `obj`.
pub fn get_opt_bool(obj: &JsonValue, key: &str) -> (r: Option<Option<bool>>)
    ensures
        r == opt_bool_field(member(*obj, key@)),
{
    match obj.get(key) {
        None => Some(None),
        Some(JsonValue::Null) => Some(None),
        Some(JsonValue::Bool(b)) => Some(Some(*b)),
        _ => None,
    }
}

/// Reads the optional unsigned integer member `key` of `obj`.
pub fn get_opt_u64(obj: &JsonValue, key: &str) -> (r: Option<Option<u64>>)
    ensures
        r == opt_u64_field(member(*obj, key@)),
{
    match obj.get(key) {
        None => Some(None),
        Some(JsonValue::Null) => Some(None),
        Some(JsonValue::Number(JsonNumber::PosInt(n))) => Some(Some(*n)),
        _ => None,
    }
}

} // verus!
