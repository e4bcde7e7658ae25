//! The JSON values the client reads from API responses and sends in request
//! bodies.
use vstd::prelude::*;
use crate::text::str_eq;

verus! {

/// A JSON number: its integer value where it is one that fits in `i64`, and
/// its text.
pub struct JsonNumber {
    pub int: Option<i64>,
    pub text: String,
}

/// A JSON value. Object members are held in order, each name once.
pub enum JsonValue {
    Null,
    Bool(bool),
    Number(JsonNumber),
    Str(String),
    Array(Vec<JsonValue>),
    Object(Vec<(String, JsonValue)>),
}

/// Position of the first member of `members` named `key`, if any.
pub open spec fn member_index(members: Seq<(String, JsonValue)>, key: Seq<char>) -> Option<int>
    decreases members.len(),
{
    if members.len() == 0 {
        None
    } else if members[0].0@ == key {
        Some(0)
    } else {
        match member_index(members.drop_first(), key) {
            Some(i) => Some(i + 1),
            None => None,
        }
    }
}

/// The member named `key` of an object; nothing for other values.
pub open spec fn json_get(v: JsonValue, key: Seq<char>) -> Option<JsonValue> {
    match v {
        JsonValue::Object(members) => match member_index(members@, key) {
            Some(i) => Some(members@[i].1),
            None => None,
        },
        _ => None,
    }
}

/// The integer of a number that fits in `i64`.
pub open spec fn json_as_i64(v: Option<JsonValue>) -> Option<i64> {
    match v {
        Some(JsonValue::Number(n)) => n.int,
        _ => None,
    }
}

/// The text of a string value.
pub open spec fn json_as_str(v: Option<JsonValue>) -> Option<Seq<char>> {
    match v {
        Some(JsonValue::Str(s)) => Some(s@),
        _ => None,
    }
}

/// The value of a boolean.
pub open spec fn json_as_bool(v: Option<JsonValue>) -> Option<bool> {
    match v {
        Some(JsonValue::Bool(b)) => Some(b),
        _ => None,
    }
}

/// The member named `key` of `v`, where `v` is an object that has one.
pub fn get<'a>(v: &'a JsonValue, key: &str) -> (r: Option<&'a JsonValue>)
    ensures
        match r {
            Some(x) => json_get(*v, key@) == Some(*x),
            None => json_get(*v, key@) is None,
        },
{
    match v {
        JsonValue::Object(members) => {
            let mut i: usize = 0;
            while i < members.len()
                invariant
                    i <= members@.len(),
                    *v == JsonValue::Object(*members),
                    forall|k: int| 0 <= k < i ==> (#[trigger] members@[k]).0@ != key@,
                decreases members@.len() - i,
            {
                if str_eq(members[i].0.as_str(), key) {
                    proof {
                        lemma_member_index_first(members@, key@, i as int);
                    }
                    return Some(&members[i].1);
                }
                i = i + 1;
            }
            proof {
                lemma_member_index_none(members@, key@);
            }
            None
        },
        _ => None,
    }
}

/// The first position holding `key` is what `member_index` returns.
proof fn lemma_member_index_first(members: Seq<(String, JsonValue)>, key: Seq<char>, i: int)
    requires
        0 <= i < members.len(),
        members[i].0@ == key,
        forall|k: int| 0 <= k < i ==> (#[trigger] members[k]).0@ != key,
    ensures
        member_index(members, key) == Some(i),
    decreases i,
{
    if i > 0 {
        let t = members.drop_first();
        assert forall|k: int| 0 <= k < i - 1 implies (#[trigger] t[k]).0@ != key by {
            assert(t[k] == members[k + 1]);
        }
        assert(t[i - 1] == members[i]);
        lemma_member_index_first(t, key, i - 1);
    }
}

/// No member named `key` means no position.
proof fn lemma_member_index_none(members: Seq<(String, JsonValue)>, key: Seq<char>)
    requires
        forall|k: int| 0 <= k < members.len() ==> (#[trigger] members[k]).0@ != key,
    ensures
        member_index(members, key) is None,
    decreases members.len(),
{
    if members.len() > 0 {
        let t = members.drop_first();
        assert forall|k: int| 0 <= k < t.len() implies (#[trigger] t[k]).0@ != key by {
            assert(t[k] == members[k + 1]);
        }
        lemma_member_index_none(t, key);
    }
}

/// The integer of `v`, where it is a number that fits in `i64`.
pub fn as_i64(v: Option<&JsonValue>) -> (r: Option<i64>)
    ensures
        r == json_as_i64(match v {
            Some(x) => Some(*x),
            None => None,
        }),
{
    match v {
        Some(JsonValue::Number(n)) => n.int,
        _ => None,
    }
}

/// The text of `v`, where it is a string.
pub fn as_str(v: Option<&JsonValue>) -> (r: Option<String>)
    ensures
        match r {
            Some(s) => json_as_str(match v {
                Some(x) => Some(*x),
                None => None,
            }) == Some(s@),
            None => json_as_str(match v {
                Some(x) => Some(*x),
                None => None,
            }) is None,
        },
{
    match v {
        Some(JsonValue::Str(s)) => Some(s.clone()),
        _ => None,
    }
}

/// The value of `v`, where it is a boolean.
pub fn as_bool(v: Option<&JsonValue>) -> (r: Option<bool>)
    ensures
        r == json_as_bool(match v {
            Some(x) => Some(*x),
            None => None,
        }),
{
    match v {
        Some(JsonValue::Bool(b)) => Some(*b),
        _ => None,
    }
}


/// The JSON value type of `serde_json`.
#[verifier::external_type_specification]
#[verifier::external_body]
pub struct ExSerdeValue(serde_json::Value);

/// The value `serde_json` reads from a JSON text, if the text is JSON.
pub uninterp spec fn json_parse(text: Seq<char>) -> Option<JsonValue>;

/// The compact JSON text `serde_json` writes for a value.
pub uninterp spec fn json_text(v: JsonValue) -> Seq<char>;

/// A `serde_json` value held as the library's value, member for member;
/// a number keeps `as_i64` and its text.
#[verifier::external_body]
fn from_serde_value(v: serde_json::Value) -> JsonValue {
    match v {
        serde_json::Value::Null => JsonValue::Null,
        serde_json::Value::Bool(b) => JsonValue::Bool(b),
        serde_json::Value::Number(n) => JsonValue::Number(JsonNumber { int: n.as_i64(), text: n.to_string() }),
        serde_json::Value::String(s) => JsonValue::Str(s),
        serde_json::Value::Array(a) => JsonValue::Array(a.into_iter().map(from_serde_value).collect()),
        serde_json::Value::Object(m) => JsonValue::Object(m.into_iter().map(|(k, x)| (k, from_serde_value(x))).collect()),
    }
}

/// The library's value as a `serde_json` value, member for member; a number
/// is read back from its text.
#[verifier::external_body]
fn to_serde_value(v: JsonValue) -> serde_json::Value {
    match v {
        JsonValue::Null => serde_json::Value::Null,
        JsonValue::Bool(b) => serde_json::Value::Bool(b),
        JsonValue::Number(n) => serde_json::from_str::<serde_json::Number>(&n.text).map(serde_json::Value::Number).unwrap_or(serde_json::Value::Null),
        JsonValue::Str(s) => serde_json::Value::String(s),
        JsonValue::Array(a) => serde_json::Value::Array(a.into_iter().map(to_serde_value).collect()),
        JsonValue::Object(m) => serde_json::Value::Object(m.into_iter().map(|(k, x)| (k, to_serde_value(x))).collect()),
    }
}

/// Reads a JSON text (`serde_json::from_str::<Value>`); nothing where the
/// text is not JSON. The value depends on the text alone.
#[verifier::external_body]
pub(crate) fn parse_json(text: &str) -> (r: Option<JsonValue>)
    ensures
        r == json_parse(text@),
{
    serde_json::from_str::<serde_json::Value>(text).ok().map(from_serde_value)
}

/// Writes a value as compact JSON text (`serde_json::Value`'s `to_string`).
/// The text depends on the value alone.
#[verifier::external_body]
pub(crate) fn write_json(v: JsonValue) -> (r: String)
    ensures
        r@ == json_text(v),
{
    to_serde_value(v).to_string()
}

} // verus!
