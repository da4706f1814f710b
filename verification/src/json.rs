//! Reading of JSON text.
use vstd::prelude::*;

verus! {

#[verifier::external_type_specification]
#[verifier::external_body]
pub struct ExValue(serde_json::Value);

#[verifier::external_type_specification]
#[verifier::external_body]
pub struct ExJsonError(serde_json::Error);

/// The value that a text holds, where it is JSON.
pub uninterp spec fn json_read(text: Seq<char>) -> Option<serde_json::Value>;

/// The member of an object under a key; none of what is not an object.
pub uninterp spec fn json_get(v: serde_json::Value, key: Seq<char>) -> Option<serde_json::Value>;

/// A value as a whole number that is not negative and fits 64 bits.
pub uninterp spec fn json_u64(v: serde_json::Value) -> Option<u64>;

/// Whether a value is an object.
pub uninterp spec fn json_object(v: serde_json::Value) -> bool;

/// `serde_json::from_str` into a value: what the text holds, or an error where it is not
/// JSON.
#[verifier::external_body]
pub(crate) fn read(text: &str) -> (r: Result<serde_json::Value, serde_json::Error>)
    ensures
        match r {
            Ok(v) => json_read(text@) == Some(v),
            Err(_) => json_read(text@) is None,
        },
{
    serde_json::from_str(text)
}

/// `Value::get` with a key. Only an object has members.
#[verifier::external_body]
pub(crate) fn member<'a>(v: &'a serde_json::Value, key: &str) -> (r: Option<&'a serde_json::Value>)
    ensures
        match r {
            Some(x) => json_get(*v, key@) == Some(*x),
            None => json_get(*v, key@) is None,
        },
        r is Some ==> json_object(*v),
{
    v.get(key)
}

/// `Value::as_u64`: the number, where the value is one that is whole and not negative and
/// fits. An object is no number.
#[verifier::external_body]
pub(crate) fn as_u64(v: &serde_json::Value) -> (r: Option<u64>)
    ensures
        r == json_u64(*v),
        r is Some ==> !json_object(*v),
{
    v.as_u64()
}

/// `Value::is_object`.
#[verifier::external_body]
pub(crate) fn is_object(v: &serde_json::Value) -> (r: bool)
    ensures
        r == json_object(*v),
{
    v.is_object()
}

/// The number under a key, where there is one.
pub open spec fn number_at(v: serde_json::Value, key: Seq<char>) -> Option<u64> {
    match json_get(v, key) {
        Some(x) => json_u64(x),
        None => None,
    }
}

/// The number under a key of an object.
pub fn number(v: &serde_json::Value, key: &str) -> (r: Option<u64>)
    ensures
        r == number_at(*v, key@),
{
    match member(v, key) {
        Some(x) => as_u64(x),
        None => None,
    }
}

} // verus!
