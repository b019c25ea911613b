//! JSON values carried through the library unexamined.
use vstd::prelude::*;

verus! {

/// A JSON value (`serde_json::Value`), held as it is.
#[verifier::external_type_specification]
#[verifier::external_body]
pub struct ExJsonValue(serde_json::Value);

/// A copy of a JSON value (`serde_json::Value::clone`): a value equal to
/// the original.
#[verifier::external_body]
pub(crate) fn clone_json(v: &serde_json::Value) -> (r: serde_json::Value)
    ensures
        r == *v,
{
    v.clone()
}

/// The JSON value that a text parses to (`serde_json::from_str`), or none
/// when it is not JSON.
pub uninterp spec fn json_value_of(text: Seq<char>) -> Option<serde_json::Value>;

/// A text parsed as JSON, or `null` when it is not JSON.
pub open spec fn json_or_null(text: Seq<char>) -> serde_json::Value {
    match json_value_of(text) {
        Some(v) => v,
        None => json_value_of("null"@)->0,
    }
}

/// A JSON text parsed (`serde_json::from_str`): the value it parses to, or
/// none when it does not parse.
#[verifier::external_body]
pub(crate) fn parse_json(text: &str) -> (r: Option<serde_json::Value>)
    ensures
        r == json_value_of(text@),
{
    serde_json::from_str(text).ok()
}

/// A JSON text parsed, or `null` when it does not parse.
pub(crate) fn parse_json_or_null(text: &str) -> (r: serde_json::Value)
    ensures
        r == json_or_null(text@),
{
    match parse_json(text) {
        Some(v) => v,
        None => json_null(),
    }
}

/// JSON `null` (`serde_json::Value::Null`): what the text `null` parses to.
#[verifier::external_body]
pub(crate) fn json_null() -> (r: serde_json::Value)
    ensures
        json_value_of("null"@) == Some(r),
{
    serde_json::Value::Null
}

} // verus!
