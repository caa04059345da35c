//! JSON values as the `aws` CLI prints them, held as plain values so that
//! the item and table logic can be verified over them. Text is turned into
//! values, and values back into pretty text, by `serde_json`.

use serde_json::Value;
use vstd::prelude::*;

verus! {

/// A JSON number. A float keeps the decimal text that `serde_json` prints for it.
#[derive(Debug)]
pub enum JsonNumber {
    PosInt(u64),
    NegInt(i64),
    Float(String),
}

/// A JSON value. An object keeps its members in the order `serde_json`
/// walks them; a lookup by key finds the first member with that key.
#[derive(Debug)]
pub enum Json {
    Null,
    Bool(bool),
    Number(JsonNumber),
    String(String),
    Array(Vec<Json>),
    Object(Vec<(String, Json)>),
}

/// The value of the first member named `key`, if any.
pub open spec fn member(entries: Seq<(String, Json)>, key: Seq<char>) -> Option<Json>
    decreases entries.len(),
{
    if entries.len() == 0 {
        None
    } else if entries[0].0@ == key {
        Some(entries[0].1)
    } else {
        member(entries.drop_first(), key)
    }
}

/// Indexing a JSON value by a key: the member of an object, nothing for
/// any other value (`serde_json::Value::get` with a string index).
pub open spec fn field(j: Json, key: Seq<char>) -> Option<Json> {
    match j {
        Json::Object(entries) => member(entries@, key),
        _ => None,
    }
}

/// `field` through an optional value.
pub open spec fn field_of(j: Option<Json>, key: Seq<char>) -> Option<Json> {
    match j {
        Some(v) => field(v, key),
        None => None,
    }
}

/// The text of a JSON string (`Value::as_str`).
pub open spec fn text_of(j: Option<Json>) -> Option<Seq<char>> {
    match j {
        Some(Json::String(s)) => Some(s@),
        _ => None,
    }
}

/// The boolean of a JSON boolean (`Value::as_bool`).
pub open spec fn bool_of(j: Option<Json>) -> Option<bool> {
    match j {
        Some(Json::Bool(b)) => Some(b),
        _ => None,
    }
}

/// A non-negative integer that fits in `u64` (`Value::as_u64`).
pub open spec fn u64_of(j: Option<Json>) -> Option<u64> {
    match j {
        Some(Json::Number(JsonNumber::PosInt(n))) => Some(n),
        _ => None,
    }
}

/// The elements of a JSON array (`Value::as_array`).
pub open spec fn array_of(j: Option<Json>) -> Option<Seq<Json>> {
    match j {
        Some(Json::Array(items)) => Some(items@),
        _ => None,
    }
}

/// What `serde_json::from_slice` makes of `bytes`: the value, or the
/// text of the error it reports.
pub uninterp spec fn json_from_slice(bytes: Seq<u8>) -> Result<Json, Seq<char>>;

/// What `serde_json::to_string_pretty` prints for the value.
pub uninterp spec fn json_pretty(j: Json) -> Seq<char>;

/// `serde_json`'s own JSON value, carried only between the two conversions below.
#[verifier::external_type_specification]
#[verifier::external_body]
pub struct SerdeValue(serde_json::Value);

/// The `serde_json` value for `j`, one variant for one variant.
#[verifier::external_body]
fn to_serde(j: &Json) -> Value {
    match j {
        Json::Null => Value::Null,
        Json::Bool(b) => Value::Bool(*b),
        Json::Number(JsonNumber::PosInt(n)) => Value::from(*n),
        Json::Number(JsonNumber::NegInt(n)) => Value::from(*n),
        Json::Number(JsonNumber::Float(t)) => serde_json::from_str(t).unwrap_or_default(),
        Json::String(s) => Value::String(s.clone()),
        Json::Array(items) => Value::Array(items.iter().map(to_serde).collect()),
        Json::Object(entries) => Value::Object(entries.iter().map(|(k, v)| (k.clone(), to_serde(v))).collect()),
    }
}

/// The value for a `serde_json` value, one variant for one variant.
#[verifier::external_body]
fn from_serde(v: Value) -> Json {
    match v {
        Value::Null => Json::Null,
        Value::Bool(b) => Json::Bool(b),
        Value::Number(n) => Json::Number(match (n.as_u64(), n.as_i64()) {
            (Some(u), _) => JsonNumber::PosInt(u),
            (None, Some(i)) => JsonNumber::NegInt(i),
            (None, None) => JsonNumber::Float(n.to_string()),
        }),
        Value::String(s) => Json::String(s),
        Value::Array(items) => Json::Array(items.into_iter().map(from_serde).collect()),
        Value::Object(entries) => Json::Object(entries.into_iter().map(|(k, v)| (k, from_serde(v))).collect()),
    }
}

/// Parses JSON text with `serde_json::from_slice`. The contract claims
/// that the outcome is a function of the bytes alone, named
/// `json_from_slice`: the value on success, else the error's display text.
#[verifier::external_body]
pub fn parse_json(bytes: &[u8]) -> (r: Result<Json, String>)
    ensures
        match (r, json_from_slice(bytes@)) {
            (Ok(j), Ok(k)) => j == k,
            (Err(e), Err(m)) => e@ == m,
            _ => false,
        },
{
    match serde_json::from_slice::<Value>(bytes) {
        Ok(v) => Ok(from_serde(v)),
        Err(e) => Err(e.to_string()),
    }
}

/// Pretty-prints `j` with `serde_json::to_string_pretty` (an empty string
/// should it fail). The contract claims that the text is a function of the
/// value alone, named `json_pretty`.
#[verifier::external_body]
pub fn pretty_json(j: &Json) -> (r: String)
    ensures
        r@ == json_pretty(*j),
{
    serde_json::to_string_pretty(&to_serde(j)).unwrap_or_default()
}

/// The position of the first member named `key`.
pub fn find_member(entries: &Vec<(String, Json)>, key: &str) -> (r: Option<usize>)
    ensures
        r matches Some(i) ==> i < entries@.len() && member(entries@, key@) == Some(entries@[i as int].1)
            && entries@[i as int].0@ == key@,
        r is None ==> member(entries@, key@) is None,
{
    let k = key.to_owned();
    let mut i: usize = 0;
    assert(entries@.subrange(0, entries@.len() as int) =~= entries@);
    while i < entries.len()
        invariant
            i <= entries@.len(),
            k@ == key@,
            member(entries@, key@) == member(entries@.subrange(i as int, entries@.len() as int), key@),
        decreases entries.len() - i,
    {
        let ghost rest = entries@.subrange(i as int, entries@.len() as int);
        assert(rest.drop_first() =~= entries@.subrange(i + 1, entries@.len() as int));
        assert(rest[0] == entries@[i as int]);
        if entries[i].0 == k {
            return Some(i);
        }
        i = i + 1;
    }
    None
}

impl Json {
    /// The member named `key` of an object; `None` for a missing key or a
    /// value that is not an object.
    pub fn get(&self, key: &str) -> (r: Option<&Json>)
        ensures
            r matches Some(v) ==> field(*self, key@) == Some(*v),
            r is None ==> field(*self, key@) is None,
    {
        match self {
            Json::Object(entries) => match find_member(entries, key) {
                Some(i) => Some(&entries[i].1),
                None => None,
            },
            _ => None,
        }
    }

    /// The text of a string value.
    pub fn as_str(&self) -> (r: Option<&str>)
        ensures
            r matches Some(s) ==> text_of(Some(*self)) == Some(s@),
            r is None ==> text_of(Some(*self)) is None,
    {
        match self {
            Json::String(s) => Some(s.as_str()),
            _ => None,
        }
    }

    /// The boolean of a boolean value.
    pub fn as_bool(&self) -> (r: Option<bool>)
        ensures
            r == bool_of(Some(*self)),
    {
        match self {
            Json::Bool(b) => Some(*b),
            _ => None,
        }
    }

    /// A non-negative integer that fits in `u64`.
    pub fn as_u64(&self) -> (r: Option<u64>)
        ensures
            r == u64_of(Some(*self)),
    {
        match self {
            Json::Number(JsonNumber::PosInt(n)) => Some(*n),
            _ => None,
        }
    }
}

} // verus!
