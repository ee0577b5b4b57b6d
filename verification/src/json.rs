//! Trusted view of serde_json. The engine parses incoming text with
//! serde_json and reads the parsed value only through the accessors below;
//! everything the protocol says about the shape of a message is stated and
//! checked over the model `JsonData`.

use vstd::prelude::*;

verus! {

#[verifier::external_type_specification]
#[verifier::external_body]
pub struct ExValue(serde_json::Value);

/// The shape of a parsed JSON value, as far as the protocol reads it: numbers
/// carry their canonical rendering, strings their characters, objects their
/// members. The protocol never looks inside an array, so arrays carry no
/// further structure here.
pub enum JsonData {
    Null,
    Bool(bool),
    Num(Seq<char>),
    Str(Seq<char>),
    Arr,
    Obj(Map<Seq<char>, JsonData>),
}

/// The model of a parsed `serde_json::Value`.
pub uninterp spec fn json_model(v: serde_json::Value) -> JsonData;

/// What parsing a text as JSON yields: `None` on text that is not one valid
/// JSON value, the value's model otherwise.
pub uninterp spec fn json_of(s: Seq<char>) -> Option<JsonData>;

/// Relies on `serde_json::from_str::<Value>`: it succeeds exactly on text that
/// is one valid JSON value, and the value is a function of the text alone.
#[verifier::external_body]
pub(crate) fn parse_json(s: &str) -> (r: Option<serde_json::Value>)
    ensures
        match r {
            Some(v) => json_of(s@) == Some(json_model(v)),
            None => json_of(s@) is None,
        },
{
    serde_json::from_str::<serde_json::Value>(s).ok()
}

/// Relies on `serde_json::Value::is_object`: true exactly on a JSON object.
#[verifier::external_body]
pub(crate) fn json_is_object(v: &serde_json::Value) -> (r: bool)
    ensures
        r == (json_model(*v) matches JsonData::Obj(_)),
{
    v.is_object()
}

/// Relies on `serde_json::Value::get` with a string index: on an object it
/// looks the key up; on every other value it returns `None`.
#[verifier::external_body]
pub(crate) fn json_get<'a>(v: &'a serde_json::Value, key: &str) -> (r: Option<
    &'a serde_json::Value,
>)
    ensures
        match json_model(*v) {
            JsonData::Obj(m) => match r {
                Some(u) => m.contains_key(key@) && json_model(*u) == m[key@],
                None => !m.contains_key(key@),
            },
            _ => r is None,
        },
{
    v.get(key)
}

/// Relies on `serde_json::Value::as_str`: `Some` exactly on a JSON string,
/// with its contents.
#[verifier::external_body]
pub(crate) fn json_string(v: &serde_json::Value) -> (r: Option<String>)
    ensures
        match json_model(*v) {
            JsonData::Str(t) => r matches Some(s) && s@ == t,
            _ => r is None,
        },
{
    v.as_str().map(|s| s.to_string())
}

/// Relies on the `Display` rendering of `serde_json::Number`: the canonical
/// text of a JSON number is a function of the number alone.
#[verifier::external_body]
pub(crate) fn json_number_text(v: &serde_json::Value) -> (r: Option<String>)
    ensures
        match json_model(*v) {
            JsonData::Num(t) => r matches Some(s) && s@ == t,
            _ => r is None,
        },
{
    match v {
        serde_json::Value::Number(n) => Some(n.to_string()),
        _ => None,
    }
}

} // verus!
