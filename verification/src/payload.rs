//! The payload of a job: a JSON document that is read by key.

use crate::text::text_view;
use vstd::prelude::*;

verus! {

/// Declares `serde_json::Value` as a type whose inside is not read.
#[verifier::external_type_specification]
#[verifier::external_body]
pub struct ExJsonValue(serde_json::Value);

/// The JSON document that a text denotes, if the text is one.
pub uninterp spec fn json_document(text: Seq<char>) -> Option<serde_json::Value>;

/// The member that a JSON object holds under a key; none for a key that the
/// object lacks and for a value that is no object.
pub uninterp spec fn json_member(value: serde_json::Value, key: Seq<char>) -> Option<
    serde_json::Value,
>;

/// The number that a JSON value holds, if it is an integer that fits in 64
/// bits without sign.
pub uninterp spec fn json_u64(value: serde_json::Value) -> Option<u64>;

/// The text that a JSON value holds, if it is a string.
pub uninterp spec fn json_text(value: serde_json::Value) -> Option<Seq<char>>;

/// Whether a JSON value is `null`.
pub uninterp spec fn json_is_null(value: serde_json::Value) -> bool;

/// The elements that a JSON value holds, if it is an array.
pub uninterp spec fn json_items(value: serde_json::Value) -> Option<Seq<serde_json::Value>>;

/// A JSON value that holds no member under any key.
pub open spec fn has_no_member(value: serde_json::Value) -> bool {
    forall|key: Seq<char>| (#[trigger] json_member(value, key)) is None
}

/// Calls `serde_json::from_str` for a `Value` and drops the error: the
/// document that the text denotes, named [`json_document`].
#[verifier::external_body]
pub(crate) fn parse_document(text: &str) -> (document: Option<serde_json::Value>)
    ensures
        document == json_document(text@),
{
    serde_json::from_str::<serde_json::Value>(text).ok()
}

/// Builds `Value::Object` over an empty `Map`: `Value::get` finds nothing in
/// it.
#[verifier::external_body]
pub(crate) fn empty_object() -> (value: serde_json::Value)
    ensures
        has_no_member(value),
{
    serde_json::Value::Object(serde_json::Map::new())
}

/// Calls `Value::get` with a string key; the result is named
/// [`json_member`].
#[verifier::external_body]
pub(crate) fn member<'a>(value: &'a serde_json::Value, key: &str) -> (found: Option<
    &'a serde_json::Value,
>)
    ensures
        match found {
            Some(inner) => json_member(*value, key@) == Some(*inner),
            None => json_member(*value, key@) is None,
        },
{
    value.get(key)
}

/// Calls `Value::as_u64`; the result is named [`json_u64`].
#[verifier::external_body]
pub(crate) fn as_u64(value: &serde_json::Value) -> (number: Option<u64>)
    ensures
        number == json_u64(*value),
{
    value.as_u64()
}

/// Calls `Value::as_str`; the result is named [`json_text`].
#[verifier::external_body]
pub(crate) fn as_text<'a>(value: &'a serde_json::Value) -> (text: Option<&'a str>)
    ensures
        match text {
            Some(inner) => json_text(*value) == Some(inner@),
            None => json_text(*value) is None,
        },
{
    value.as_str()
}

/// Calls `Value::is_null`; the result is named [`json_is_null`].
#[verifier::external_body]
pub(crate) fn is_null(value: &serde_json::Value) -> (null: bool)
    ensures
        null == json_is_null(*value),
{
    value.is_null()
}

/// Calls `Value::as_array`; the result is named [`json_items`].
#[verifier::external_body]
pub(crate) fn as_items<'a>(value: &'a serde_json::Value) -> (items: Option<
    &'a Vec<serde_json::Value>,
>)
    ensures
        match items {
            Some(inner) => json_items(*value) == Some(inner@),
            None => json_items(*value) is None,
        },
{
    value.as_array()
}

/// The document that a stored payload text denotes; the empty object where
/// the text is no JSON document.
pub open spec fn is_payload_of(payload: serde_json::Value, text: Seq<char>) -> bool {
    match json_document(text) {
        Some(document) => payload == document,
        None => has_no_member(payload),
    }
}

/// Reads a stored payload text; a text that is no JSON document counts as
/// the empty object.
pub fn parse_payload(text: &str) -> (payload: serde_json::Value)
    ensures
        is_payload_of(payload, text@),
{
    match parse_document(text) {
        Some(document) => document,
        None => empty_object(),
    }
}

/// The number stored under `key`: none where the key is missing or holds
/// anything but an integer that fits in 64 bits without sign.
pub open spec fn payload_u64(payload: serde_json::Value, key: Seq<char>) -> Option<u64> {
    match json_member(payload, key) {
        Some(inner) => json_u64(inner),
        None => None,
    }
}

/// The text stored under `key`: none where the key is missing or holds
/// anything but a string.
pub open spec fn payload_text(payload: serde_json::Value, key: Seq<char>) -> Option<Seq<char>> {
    match json_member(payload, key) {
        Some(inner) => json_text(inner),
        None => None,
    }
}

/// The number stored under `key`, if there is one.
pub fn extract_optional_u64(payload: &serde_json::Value, key: &str) -> (number: Option<u64>)
    ensures
        number == payload_u64(*payload, key@),
{
    match member(payload, key) {
        Some(inner) => as_u64(inner),
        None => None,
    }
}

/// The text stored under `key`, if there is one.
pub fn extract_optional_string(payload: &serde_json::Value, key: &str) -> (text: Option<String>)
    ensures
        text_view(text) == payload_text(*payload, key@),
{
    match member(payload, key) {
        Some(inner) => match as_text(inner) {
            Some(text) => Some(text.to_owned()),
            None => None,
        },
        None => None,
    }
}

} // verus!
