//! A JSON document as plain values, and the lookups that the Actuator and
//! Initializr readers make on it.
//!
//! A document is decoded by serde_json, behind one trusted wrapper, and
//! converted into this form.  Numbers, arrays and objects carry the compact
//! text that the JSON encoder writes for them, since some readers show a
//! value as that text.

use vstd::prelude::*;

use crate::text::str_eq;

verus! {

/// A JSON value.
#[derive(Debug)]
pub enum JsonValue {
    Null,
    Bool(bool),
    /// A number: its value when it is an integer that fits in `i64`, and
    /// its compact text.
    Number(Option<i64>, String),
    Str(String),
    /// The items of an array, and the array's compact text.
    Array(Vec<JsonValue>, String),
    /// The members of an object, in the order they are held here (a
    /// reader that builds the value may have sorted them by name), and the
    /// object's compact text.
    Object(Vec<(String, JsonValue)>, String),
}

/// The value of the first member named `key`, searching from `i` on.
pub open spec fn lookup_from(members: Seq<(String, JsonValue)>, key: Seq<char>, i: int) -> Option<
    JsonValue,
>
    decreases members.len() - i,
{
    if i < 0 || i >= members.len() {
        None
    } else if members[i].0@ == key {
        Some(members[i].1)
    } else {
        lookup_from(members, key, i + 1)
    }
}

/// The member named `key` of an object (`Value::get` with a string key);
/// `None` for other values.
pub open spec fn json_get(v: JsonValue, key: Seq<char>) -> Option<JsonValue> {
    match v {
        JsonValue::Object(members, _) => lookup_from(members@, key, 0),
        _ => None,
    }
}

/// `json_get` through an optional value.
pub open spec fn opt_get(v: Option<JsonValue>, key: Seq<char>) -> Option<JsonValue> {
    match v {
        Some(x) => json_get(x, key),
        None => None,
    }
}

/// The contents of a string value.
pub open spec fn json_str(v: JsonValue) -> Option<Seq<char>> {
    match v {
        JsonValue::Str(s) => Some(s@),
        _ => None,
    }
}

/// `json_str` through an optional value.
pub open spec fn opt_str(v: Option<JsonValue>) -> Option<Seq<char>> {
    match v {
        Some(x) => json_str(x),
        None => None,
    }
}

/// The string at `key`, or `default` when it is missing or not a string.
pub open spec fn str_or(v: Option<JsonValue>, default: Seq<char>) -> Seq<char> {
    match opt_str(v) {
        Some(s) => s,
        None => default,
    }
}

/// The integer value of a number that fits in `i64`.
pub open spec fn json_i64(v: Option<JsonValue>) -> Option<i64> {
    match v {
        Some(JsonValue::Number(n, _)) => n,
        _ => None,
    }
}

/// The value of a boolean.
pub open spec fn json_bool(v: Option<JsonValue>) -> Option<bool> {
    match v {
        Some(JsonValue::Bool(b)) => Some(b),
        _ => None,
    }
}

/// The items of an array.
pub open spec fn json_array(v: Option<JsonValue>) -> Option<Seq<JsonValue>> {
    match v {
        Some(JsonValue::Array(items, _)) => Some(items@),
        _ => None,
    }
}

/// The members of an object.
pub open spec fn json_object(v: Option<JsonValue>) -> Option<Seq<(String, JsonValue)>> {
    match v {
        Some(JsonValue::Object(members, _)) => Some(members@),
        _ => None,
    }
}

/// The text the JSON encoder writes for a value, with strings unquoted:
/// what an environment property value is shown as.
pub open spec fn display_text(v: JsonValue) -> Seq<char> {
    match v {
        JsonValue::Null => "null"@,
        JsonValue::Bool(b) => if b {
            "true"@
        } else {
            "false"@
        },
        JsonValue::Number(_, t) => t@,
        JsonValue::Str(s) => s@,
        JsonValue::Array(_, t) => t@,
        JsonValue::Object(_, t) => t@,
    }
}

impl JsonValue {
    /// The member named `key` of an object.
    pub fn get(&self, key: &str) -> (r: Option<&JsonValue>)
        ensures
            r matches Some(x) ==> json_get(*self, key@) == Some(*x),
            r is None ==> json_get(*self, key@) is None,
    {
        match self {
            JsonValue::Object(members, _) => {
                let mut i: usize = 0;
                while i < members.len()
                    invariant
                        i <= members.len(),
                        json_get(*self, key@) == lookup_from(members@, key@, 0),
                        lookup_from(members@, key@, 0) == lookup_from(members@, key@, i as int),
                    decreases members.len() - i,
                {
                    if str_eq(members[i].0.as_str(), key) {
                        proof {
                            assert(members@[i as int].0@ == key@);
                            assert(lookup_from(members@, key@, i as int) == Some(
                                members@[i as int].1,
                            ));
                        }
                        return Some(&members[i].1);
                    }
                    i += 1;
                }
                None
            },
            _ => None,
        }
    }

    /// The contents of a string value.
    pub fn as_str(&self) -> (r: Option<&String>)
        ensures
            r matches Some(s) ==> json_str(*self) == Some(s@),
            r is None ==> json_str(*self) is None,
    {
        match self {
            JsonValue::Str(s) => Some(s),
            _ => None,
        }
    }

    /// The items of an array.
    pub fn as_array(&self) -> (r: Option<&Vec<JsonValue>>)
        ensures
            r matches Some(a) ==> json_array(Some(*self)) == Some(a@),
            r is None ==> json_array(Some(*self)) is None,
    {
        match self {
            JsonValue::Array(a, _) => Some(a),
            _ => None,
        }
    }

    /// The members of an object.
    pub fn as_object(&self) -> (r: Option<&Vec<(String, JsonValue)>>)
        ensures
            r matches Some(m) ==> json_object(Some(*self)) == Some(m@),
            r is None ==> json_object(Some(*self)) is None,
    {
        match self {
            JsonValue::Object(m, _) => Some(m),
            _ => None,
        }
    }

    /// The value of an integer number that fits in `i64`.
    pub fn as_i64(&self) -> (r: Option<i64>)
        ensures
            r == json_i64(Some(*self)),
    {
        match self {
            JsonValue::Number(n, _) => *n,
            _ => None,
        }
    }

    /// The value of a boolean.
    pub fn as_bool(&self) -> (r: Option<bool>)
        ensures
            r == json_bool(Some(*self)),
    {
        match self {
            JsonValue::Bool(b) => Some(*b),
            _ => None,
        }
    }
}

/// The string at `key` of `v`, or `default`.
pub fn get_str_or(v: &JsonValue, key: &str, default: &str) -> (r: String)
    ensures
        r@ == str_or(json_get(*v, key@), default@),
{
    match v.get(key) {
        Some(x) => match x.as_str() {
            Some(s) => s.clone(),
            None => crate::text::owned(default),
        },
        None => crate::text::owned(default),
    }
}

/// The string at `key` of `v`, if it is one.
pub fn get_opt_str(v: &JsonValue, key: &str) -> (r: Option<String>)
    ensures
        r matches Some(s) ==> opt_str(json_get(*v, key@)) == Some(s@),
        r is None ==> opt_str(json_get(*v, key@)) is None,
{
    match v.get(key) {
        Some(x) => match x.as_str() {
            Some(s) => Some(s.clone()),
            None => None,
        },
        None => None,
    }
}

/// The text of a value as the JSON encoder writes it, with strings
/// unquoted.
pub fn to_display_text(v: &JsonValue) -> (r: String)
    ensures
        r@ == display_text(*v),
{
    match v {
        JsonValue::Null => crate::text::owned("null"),
        JsonValue::Bool(b) => if *b {
            crate::text::owned("true")
        } else {
            crate::text::owned("false")
        },
        JsonValue::Number(_, t) => t.clone(),
        JsonValue::Str(s) => s.clone(),
        JsonValue::Array(_, t) => t.clone(),
        JsonValue::Object(_, t) => t.clone(),
    }
}

// ---------------------------------------------------------------------------
// Decoding
// ---------------------------------------------------------------------------

#[verifier::external_type_specification]
#[verifier::external_body]
pub struct ExSerdeJsonValue(serde_json::Value);

/// What serde_json decodes from a text, as a JSON value of this module:
/// `None` when the text is not one JSON document.  Each number keeps its
/// value when it is an integer that fits in `i64`; objects hold their
/// members sorted by name; numbers, arrays and objects carry serde_json's
/// compact text of them.
pub uninterp spec fn parsed_json(text: Seq<char>) -> Option<JsonValue>;

/// Converts a serde_json value one for one: each variant to the variant of
/// the same name, with serde_json's compact text for numbers, arrays and
/// objects.  Only `parse_json` calls it.
#[verifier::external_body]
fn json_value_of(v: &serde_json::Value) -> JsonValue {
    match v {
        serde_json::Value::Null => JsonValue::Null,
        serde_json::Value::Bool(b) => JsonValue::Bool(*b),
        serde_json::Value::Number(n) => JsonValue::Number(n.as_i64(), n.to_string()),
        serde_json::Value::String(t) => JsonValue::Str(t.clone()),
        serde_json::Value::Array(items) => JsonValue::Array(items.iter().map(json_value_of).collect(), v.to_string()),
        serde_json::Value::Object(members) => JsonValue::Object(
            members.iter().map(|(k, m)| (k.clone(), json_value_of(m))).collect(),
            v.to_string(),
        ),
    }
}

/// Calls `serde_json::from_str` for a `serde_json::Value` and converts what
/// it decodes; the result, `None` on a decoding error, is named
/// `parsed_json`.
#[verifier::external_body]
pub(crate) fn parse_json(text: &str) -> (r: Option<JsonValue>)
    ensures
        r == parsed_json(text@),
{
    serde_json::from_str::<serde_json::Value>(text).ok().map(|v| json_value_of(&v))
}

} // verus!
