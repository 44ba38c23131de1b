//! The JSON parser this crate relies on, and the few operations used on a
//! parsed document. Nothing here is proved: each contract restates what
//! `serde_json` does.

use vstd::prelude::*;

verus! {

#[verifier::external_type_specification]
#[verifier::external_body]
pub struct ExJsonValue(serde_json::Value);

#[verifier::external_type_specification]
#[verifier::external_body]
pub struct ExJsonError(serde_json::Error);

/// The document that `serde_json::from_str` reads from `text`, if `text` is
/// exactly one JSON document surrounded by optional whitespace.
pub uninterp spec fn json_document(text: Seq<char>) -> Option<serde_json::Value>;

/// The member stored under `key` when `value` is a JSON object that has one.
pub uninterp spec fn json_member(value: serde_json::Value, key: Seq<char>) -> Option<
    serde_json::Value,
>;

/// The characters of `value` when it is a JSON string.
pub uninterp spec fn json_text(value: serde_json::Value) -> Option<Seq<char>>;

/// The number held by `value` when it is a JSON integer in the range of `u64`.
pub uninterp spec fn json_unsigned(value: serde_json::Value) -> Option<u64>;

/// Calls `serde_json::from_str` for a `serde_json::Value`. The parser's
/// answer depends on the text alone, so it is given the name
/// [`json_document`]; a rejected text comes back with the parser's error.
#[verifier::external_body]
pub(crate) fn parse_document(text: &str) -> (r: Result<serde_json::Value, serde_json::Error>)
    ensures
        match r {
            Ok(value) => json_document(text@) == Some(value),
            Err(_) => json_document(text@).is_none(),
        },
{
    serde_json::from_str(text)
}

/// Calls `serde_json::Value::get` with a string key: the member of that name
/// if the value is an object holding one, nothing otherwise.
#[verifier::external_body]
pub(crate) fn member<'a>(value: &'a serde_json::Value, key: &str) -> (r: Option<
    &'a serde_json::Value,
>)
    ensures
        match r {
            Some(found) => json_member(*value, key@) == Some(*found),
            None => json_member(*value, key@).is_none(),
        },
{
    value.get(key)
}

/// Calls `serde_json::Value::as_str`: the string's characters if the value
/// is a JSON string, nothing otherwise.
#[verifier::external_body]
pub(crate) fn text_of<'a>(value: &'a serde_json::Value) -> (r: Option<&'a str>)
    ensures
        match r {
            Some(s) => json_text(*value) == Some(s@),
            None => json_text(*value).is_none(),
        },
{
    value.as_str()
}

/// Calls `serde_json::Value::as_u64`: the number if the value is an integer
/// that fits `u64`, nothing otherwise.
#[verifier::external_body]
pub(crate) fn unsigned_of(value: &serde_json::Value) -> (r: Option<u64>)
    ensures
        r == json_unsigned(*value),
{
    value.as_u64()
}

/// Renders a `serde_json::Error` through its `Display` impl. The wording is
/// the parser's own and nothing is claimed about it.
#[verifier::external_body]
pub(crate) fn error_message(error: &serde_json::Error) -> (r: String) {
    format!("{}", error)
}

} // verus!
