//! Mathematical model of JSON documents, and trusted access to
//! `serde_json::Value` through that model.
//!
//! The wire format spoken by a backend service is newline-delimited JSON.
//! Parsing a text into a JSON tree is done by `serde_json`; everything the
//! library then reads out of the tree (field lookups, type tests) is verified
//! against the [`Json`] model below.

use vstd::prelude::*;

verus! {

/// A JSON document, as a mathematical value.
///
/// Numbers mirror how `serde_json` stores them: non-negative integers as
/// `u64`, negative integers as `i64`, and any other number as a float whose
/// value the library never reads (and so does not model).
pub enum Json {
    Null,
    Bool(bool),
    /// A non-negative integer.
    UInt(u64),
    /// A negative integer.
    NInt(i64),
    /// A number that is not an integer; its value is not modeled.
    FloatNum,
    Str(Seq<char>),
    Arr(Seq<Json>),
    Obj(Map<Seq<char>, Json>),
}

impl Json {
    /// The boolean this document is, if it is one.
    pub open spec fn spec_bool(self) -> Option<bool> {
        match self {
            Json::Bool(b) => Some(b),
            _ => None,
        }
    }

    /// The string this document is, if it is one.
    pub open spec fn spec_str(self) -> Option<Seq<char>> {
        match self {
            Json::Str(s) => Some(s),
            _ => None,
        }
    }

    /// The `u64` this document is, if it is a non-negative integer.
    pub open spec fn spec_u64(self) -> Option<u64> {
        match self {
            Json::UInt(n) => Some(n),
            _ => None,
        }
    }

    /// The `i64` this document is, if it is an integer in `i64`'s range.
    pub open spec fn spec_i64(self) -> Option<i64> {
        match self {
            Json::UInt(n) => if n <= i64::MAX as u64 {
                Some(n as i64)
            } else {
                None
            },
            Json::NInt(n) => Some(n),
            _ => None,
        }
    }

    /// The elements of this document, if it is an array.
    pub open spec fn spec_arr(self) -> Option<Seq<Json>> {
        match self {
            Json::Arr(a) => Some(a),
            _ => None,
        }
    }

    /// The field under `key`, if this document is an object that has it.
    pub open spec fn obj_get(self, key: Seq<char>) -> Option<Json> {
        match self {
            Json::Obj(m) => if m.contains_key(key) {
                Some(m[key])
            } else {
                None
            },
            _ => None,
        }
    }
}

/// `serde_json::Value`, the parsed-JSON tree the library reads through
/// the trusted accessors below.
#[verifier::external_type_specification]
#[verifier::external_body]
pub struct ExValue(serde_json::Value);

/// The JSON document a `serde_json::Value` holds.
pub uninterp spec fn json_model(v: serde_json::Value) -> Json;

/// What parsing a text as JSON yields: `None` on malformed input. Parsing
/// is a function of the text alone.
pub uninterp spec fn json_parse(s: Seq<char>) -> Option<Json>;

/// Relies on `serde_json::from_str::<Value>`: deterministic parse of the
/// whole text, `Err` on malformed input.
#[verifier::external_body]
pub(crate) fn json_from_str(s: &str) -> (r: Option<serde_json::Value>)
    ensures
        r matches Some(v) ==> json_parse(s@) == Some(json_model(v)),
        r is None ==> json_parse(s@) is None,
{
    serde_json::from_str::<serde_json::Value>(s).ok()
}

/// Relies on `serde_json::Value::get` with a string index: on an object it
/// looks the key up; on any other document it returns `None`.
#[verifier::external_body]
pub(crate) fn json_get<'a>(v: &'a serde_json::Value, key: &str) -> (r: Option<
    &'a serde_json::Value,
>)
    ensures
        r matches Some(f) ==> json_model(*v).obj_get(key@) == Some(json_model(*f)),
        r is None ==> json_model(*v).obj_get(key@) is None,
{
    v.get(key)
}

/// Relies on `serde_json::Value::as_bool`: `Some` exactly on a boolean.
#[verifier::external_body]
pub(crate) fn json_as_bool(v: &serde_json::Value) -> (r: Option<bool>)
    ensures
        r == json_model(*v).spec_bool(),
{
    v.as_bool()
}

/// Relies on `serde_json::Value::as_str`: `Some` exactly on a string.
#[verifier::external_body]
pub(crate) fn json_as_str<'a>(v: &'a serde_json::Value) -> (r: Option<&'a str>)
    ensures
        r matches Some(s) ==> json_model(*v).spec_str() == Some(s@),
        r is None ==> json_model(*v).spec_str() is None,
{
    v.as_str()
}

/// Relies on `serde_json::Value::as_u64`: `Some` exactly on a non-negative
/// integer (stored as `u64`).
#[verifier::external_body]
pub(crate) fn json_as_u64(v: &serde_json::Value) -> (r: Option<u64>)
    ensures
        r == json_model(*v).spec_u64(),
{
    v.as_u64()
}

/// Relies on `serde_json::Value::as_i64`: `Some` exactly on an integer
/// within `i64`'s range.
#[verifier::external_body]
pub(crate) fn json_as_i64(v: &serde_json::Value) -> (r: Option<i64>)
    ensures
        r == json_model(*v).spec_i64(),
{
    v.as_i64()
}

/// Relies on `serde_json::Value::as_array`: `Some` exactly on an array,
/// handing back its elements in order.
#[verifier::external_body]
pub(crate) fn json_as_array<'a>(v: &'a serde_json::Value) -> (r: Option<
    &'a Vec<serde_json::Value>,
>)
    ensures
        r matches Some(a) ==> {
            &&& json_model(*v) matches Json::Arr(elts)
            &&& a@.len() == elts.len()
            &&& forall|i: int| 0 <= i < elts.len() ==> json_model(#[trigger] a@[i]) == elts[i]
        },
        r is None ==> !(json_model(*v) is Arr),
{
    v.as_array()
}

/// Relies on `serde_json::Value::is_null`: true exactly on `null`.
#[verifier::external_body]
pub(crate) fn json_is_null(v: &serde_json::Value) -> (r: bool)
    ensures
        r == (json_model(*v) is Null),
{
    v.is_null()
}

} // verus!
