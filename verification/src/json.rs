//! A plain model of JSON documents, and the few lookups the transcript readers make.
//!
//! Documents are decoded from bytes by `serde_json`; the model is what the
//! library's readers walk.
use vstd::prelude::*;
use serde_json::Value;

verus! {

/// A JSON integer as the readers use it: as a signed and as an unsigned 64-bit
/// integer, where it is one.
#[derive(Debug, Clone, Copy, PartialEq, Eq, Structural)]
pub struct JsonNumber {
    pub signed: Option<i64>,
    pub unsigned: Option<u64>,
}

/// A decoded JSON value. Object members keep the order they were decoded in.
#[derive(Debug, PartialEq, Eq)]
pub enum JsonValue {
    Null,
    Bool(bool),
    Number(JsonNumber),
    /// A number that is not a 64-bit integer, in the text `serde_json` writes for it.
    Fractional(String),
    String(String),
    Array(Vec<JsonValue>),
    Object(Vec<(String, JsonValue)>),
}

/// `serde_json`'s document type, which the decoder produces.
#[verifier::external_type_specification]
#[verifier::external_body]
pub struct ExSerdeJsonValue(serde_json::Value);

/// What `serde_json::from_slice::<serde_json::Value>` makes of a byte string,
/// in the library's model: the document, or the message of the error it reports.
pub uninterp spec fn json_parse_result(bytes: Seq<u8>) -> Result<JsonValue, Seq<char>>;

/// A `serde_json::Value` in the library's model, variant for variant: integers
/// through `as_i64` and `as_u64`, other numbers by their text, object members in
/// the map's order.
#[verifier::external_body]
fn json_of_value(value: Value) -> JsonValue {
    match value {
        Value::Null => JsonValue::Null,
        Value::Bool(b) => JsonValue::Bool(b),
        Value::Number(n) if n.is_f64() => JsonValue::Fractional(n.to_string()),
        Value::Number(n) => JsonValue::Number(JsonNumber { signed: n.as_i64(), unsigned: n.as_u64() }),
        Value::String(text) => JsonValue::String(text),
        Value::Array(items) => JsonValue::Array(items.into_iter().map(json_of_value).collect()),
        Value::Object(map) => JsonValue::Object(map.into_iter().map(|(k, v)| (k, json_of_value(v))).collect()),
    }
}

/// The library's model as a `serde_json::Value`, variant for variant: an
/// integer from its signed or else unsigned form, other numbers read back from
/// their text by std's correctly rounded parser (so `serde_json`'s own text
/// gives back the same number), object members collected into `serde_json`'s map.
#[verifier::external_body]
fn value_of_json(value: &JsonValue) -> Value {
    match value {
        JsonValue::Null => Value::Null,
        JsonValue::Bool(b) => Value::Bool(*b),
        JsonValue::Number(n) => n.signed.map(Value::from).or(n.unsigned.map(Value::from)).unwrap_or(Value::Null),
        JsonValue::Fractional(text) => text.parse().ok().and_then(serde_json::Number::from_f64).map_or(Value::Null, Value::Number),
        JsonValue::String(text) => Value::String(text.clone()),
        JsonValue::Array(items) => Value::Array(items.iter().map(value_of_json).collect()),
        JsonValue::Object(members) => Value::Object(members.iter().map(|(k, v)| (k.clone(), value_of_json(v))).collect()),
    }
}

/// What `serde_json::to_vec` writes for a document of the library's model.
pub uninterp spec fn json_text(value: JsonValue) -> Seq<u8>;

/// Serializes a document with `serde_json::to_vec` (which cannot fail on a
/// `serde_json::Value`): the bytes are `json_text` of the document.
#[verifier::external_body]
pub fn encode_json(value: &JsonValue) -> (r: Vec<u8>)
    ensures
        r@ == json_text(*value),
{
    serde_json::to_vec(&value_of_json(value)).unwrap_or_default()
}

/// Serializes a document with `serde_json::to_string`: the bytes
/// `serde_json::to_vec` writes, read as the UTF-8 text they are.
#[verifier::external_body]
pub fn encode_json_string(value: &JsonValue) -> (r: String)
    ensures
        r@ == vstd::utf8::decode_utf8(json_text(*value)),
{
    serde_json::to_string(&value_of_json(value)).unwrap_or_default()
}

/// A text column that holds JSON: the document when the text parses, else the
/// text as a JSON string; no text is `null`.
pub fn json_text_column(value: Option<String>) -> (r: JsonValue)
    ensures
        r == match value {
            None => JsonValue::Null,
            Some(t) => match json_parse_result(vstd::utf8::encode_utf8(t@)) {
                Ok(v) => v,
                Err(_) => JsonValue::String(t),
            },
        },
{
    match value {
        None => JsonValue::Null,
        Some(text) => match decode_json(text.as_str().as_bytes()) {
            Ok(v) => v,
            Err(_) => JsonValue::String(text),
        },
    }
}

/// Decodes a JSON document with `serde_json::from_slice::<serde_json::Value>`:
/// the result is `json_parse_result` of the bytes, the decoder's error given
/// by its message.
#[verifier::external_body]
pub fn decode_json(bytes: &[u8]) -> (r: Result<JsonValue, String>)
    ensures
        match r {
            Ok(v) => json_parse_result(bytes@) == Ok::<JsonValue, Seq<char>>(v),
            Err(m) => json_parse_result(bytes@) == Err::<JsonValue, Seq<char>>(m@),
        },
{
    serde_json::from_slice::<serde_json::Value>(bytes).map(json_of_value).map_err(|error| error.to_string())
}

// Building documents

/// The members of an object, in order; none for any other value.
pub open spec fn obj_members(v: JsonValue) -> Seq<(String, JsonValue)> {
    match v {
        JsonValue::Object(ms) => ms@,
        _ => Seq::empty(),
    }
}

/// `v` is the JSON string `t`.
pub open spec fn text_is(v: JsonValue, t: Seq<char>) -> bool {
    v matches JsonValue::String(s) && s@ == t
}

/// `v` is the JSON string `t`, or `null` for no text.
pub open spec fn opt_text_is(v: JsonValue, t: Option<Seq<char>>) -> bool {
    match t {
        Some(t) => text_is(v, t),
        None => v == JsonValue::Null,
    }
}

/// The JSON integer `n`, as `serde_json` converts an `i64`.
pub open spec fn int_json(n: i64) -> JsonValue {
    JsonValue::Number(
        JsonNumber {
            signed: Some(n),
            unsigned: if n >= 0 {
                Some(n as u64)
            } else {
                None
            },
        },
    )
}

/// The JSON integer `n`, or `null` for none.
pub open spec fn opt_int_json(n: Option<i64>) -> JsonValue {
    match n {
        Some(n) => int_json(n),
        None => JsonValue::Null,
    }
}

/// `v` is what `json_text_column` makes of a text column.
pub open spec fn column_is(v: JsonValue, t: Option<Seq<char>>) -> bool {
    match t {
        None => v == JsonValue::Null,
        Some(t) => match json_parse_result(vstd::utf8::encode_utf8(t)) {
            Ok(d) => v == d,
            Err(_) => text_is(v, t),
        },
    }
}

/// The JSON string `s`.
pub fn text_value(s: &str) -> (r: JsonValue)
    ensures
        text_is(r, s@),
{
    JsonValue::String(crate::text::owned(s))
}

/// The JSON string held by `o`, or `null`.
pub fn opt_text_value(o: &Option<String>) -> (r: JsonValue)
    ensures
        opt_text_is(r, crate::text::opt_view(*o)),
{
    match o {
        Some(s) => JsonValue::String(crate::text::owned(s.as_str())),
        None => JsonValue::Null,
    }
}

/// The JSON integer `n`.
pub fn int_value(n: i64) -> (r: JsonValue)
    ensures
        r == int_json(n),
{
    JsonValue::Number(
        JsonNumber {
            signed: Some(n),
            unsigned: if n >= 0 {
                Some(n as u64)
            } else {
                None
            },
        },
    )
}

/// The JSON integer held by `n`, or `null`.
pub fn opt_int_value(n: Option<i64>) -> (r: JsonValue)
    ensures
        r == opt_int_json(n),
{
    match n {
        Some(n) => int_value(n),
        None => JsonValue::Null,
    }
}

/// `json_text_column` of a copy of `o`.
pub fn column_value(o: &Option<String>) -> (r: JsonValue)
    ensures
        column_is(r, crate::text::opt_view(*o)),
{
    match o {
        Some(s) => json_text_column(Some(crate::text::owned(s.as_str()))),
        None => JsonValue::Null,
    }
}

/// Appends the member `key: v` to an object's members.
pub fn push_member(members: &mut Vec<(String, JsonValue)>, key: &str, v: JsonValue)
    ensures
        final(members)@.len() == old(members)@.len() + 1,
        forall|i: int| 0 <= i < old(members)@.len() ==> final(members)@[i] == old(members)@[i],
        final(members)@.last().0@ == key@,
        final(members)@.last().1 == v,
{
    members.push((crate::text::owned(key), v));
}

/// The value of the first member named `key`.
pub open spec fn member(entries: Seq<(String, JsonValue)>, key: Seq<char>) -> Option<JsonValue>
    decreases entries.len(),
{
    if entries.len() == 0 {
        None
    } else if entries[0].0@ == key {
        Some(entries[0].1)
    } else {
        member(entries.drop_first(), key)
    }
}

/// `value[key]` for an object, `None` for anything else.
pub open spec fn json_get(value: JsonValue, key: Seq<char>) -> Option<JsonValue> {
    match value {
        JsonValue::Object(entries) => member(entries@, key),
        _ => None,
    }
}

/// `json_get` on an optional value.
pub open spec fn json_get_opt(value: Option<JsonValue>, key: Seq<char>) -> Option<JsonValue> {
    match value {
        Some(v) => json_get(v, key),
        None => None,
    }
}

/// The text of a string value.
pub open spec fn json_str(value: Option<JsonValue>) -> Option<Seq<char>> {
    match value {
        Some(JsonValue::String(s)) => Some(s@),
        _ => None,
    }
}

/// The number of a numeric value, as an unsigned integer.
pub open spec fn json_u64(value: Option<JsonValue>) -> Option<u64> {
    match value {
        Some(JsonValue::Number(n)) => n.unsigned,
        _ => None,
    }
}

/// The number of a numeric value, as a signed integer.
pub open spec fn json_i64(value: Option<JsonValue>) -> Option<i64> {
    match value {
        Some(JsonValue::Number(n)) => n.signed,
        _ => None,
    }
}

/// The elements of an array value.
pub open spec fn json_array(value: Option<JsonValue>) -> Option<Seq<JsonValue>> {
    match value {
        Some(JsonValue::Array(items)) => Some(items@),
        _ => None,
    }
}

fn member_from<'a>(entries: &'a Vec<(String, JsonValue)>, key: &str, start: usize) -> (r: Option<
    &'a JsonValue,
>)
    requires
        start <= entries.len(),
    ensures
        match r {
            Some(v) => member(entries@.skip(start as int), key@) == Some(*v),
            None => member(entries@.skip(start as int), key@) is None,
        },
    decreases entries.len() - start,
{
    if start == entries.len() {
        return None;
    }
    let ghost rest = entries@.skip(start as int);
    assert(rest.drop_first() =~= entries@.skip(start + 1));
    if crate::text::str_eq(entries[start].0.as_str(), key) {
        Some(&entries[start].1)
    } else {
        member_from(entries, key, start + 1)
    }
}

impl JsonValue {
    /// `self[key]` when `self` is an object holding `key`.
    pub fn get<'a>(&'a self, key: &str) -> (r: Option<&'a JsonValue>)
        ensures
            match r {
                Some(v) => json_get(*self, key@) == Some(*v),
                None => json_get(*self, key@) is None,
            },
    {
        match self {
            JsonValue::Object(entries) => {
                assert(entries@.skip(0) =~= entries@);
                member_from(entries, key, 0)
            },
            _ => None,
        }
    }

    /// The text of a string value.
    pub fn as_str(&self) -> (r: Option<&str>)
        ensures
            match r {
                Some(s) => json_str(Some(*self)) == Some(s@),
                None => json_str(Some(*self)) is None,
            },
    {
        match self {
            JsonValue::String(s) => Some(s.as_str()),
            _ => None,
        }
    }

    /// The elements of an array value.
    pub fn as_array(&self) -> (r: Option<&Vec<JsonValue>>)
        ensures
            match r {
                Some(items) => json_array(Some(*self)) == Some(items@),
                None => json_array(Some(*self)) is None,
            },
    {
        match self {
            JsonValue::Array(items) => Some(items),
            _ => None,
        }
    }

    /// The value as an unsigned integer.
    pub fn as_u64(&self) -> (r: Option<u64>)
        ensures
            r == json_u64(Some(*self)),
    {
        match self {
            JsonValue::Number(n) => n.unsigned,
            _ => None,
        }
    }

    /// The value as a signed integer.
    pub fn as_i64(&self) -> (r: Option<i64>)
        ensures
            r == json_i64(Some(*self)),
    {
        match self {
            JsonValue::Number(n) => n.signed,
            _ => None,
        }
    }
}

/// `value[key]` as text, on an optional value.
pub fn get_str<'a>(value: Option<&'a JsonValue>, key: &str) -> (r: Option<&'a str>)
    ensures
        match r {
            Some(s) => json_str(json_get_opt(opt_deref(value), key@)) == Some(s@),
            None => json_str(json_get_opt(opt_deref(value), key@)) is None,
        },
{
    match value {
        Some(v) => match v.get(key) {
            Some(field) => field.as_str(),
            None => None,
        },
        None => None,
    }
}

/// `value[key]` on an optional value.
pub fn get_opt<'a>(value: Option<&'a JsonValue>, key: &str) -> (r: Option<&'a JsonValue>)
    ensures
        opt_deref(r) == json_get_opt(opt_deref(value), key@),
{
    match value {
        Some(v) => v.get(key),
        None => None,
    }
}

/// An optional reference seen as an optional value.
pub open spec fn opt_deref(r: Option<&JsonValue>) -> Option<JsonValue> {
    match r {
        Some(v) => Some(*v),
        None => None,
    }
}

/// Copies an optional string.
pub fn copy_opt_string(s: &Option<String>) -> (r: Option<String>)
    ensures
        r == *s,
{
    match s {
        Some(t) => Some(t.clone()),
        None => None,
    }
}

/// An owned copy of optional text.
pub fn owned_opt(s: Option<&str>) -> (r: Option<String>)
    ensures
        match s {
            Some(t) => r is Some && r->0@ == t@,
            None => r is None,
        },
{
    match s {
        Some(t) => Some(crate::text::owned(t)),
        None => None,
    }
}

} // verus!
