//! JSON values, as `serde_json` reads and writes them.
//!
//! A value is opaque to the verifier. What it holds has a name,
//! [`json_contents`], and each operation that the library calls has a name for
//! its result, so that the contracts of the callers can say exactly which
//! value went where. Nothing here is proved: every item states what the
//! library relies on.

use vstd::prelude::*;

verus! {

#[verifier::external_type_specification]
#[verifier::external_body]
pub struct ExJsonValue(serde_json::Value);

/// What a JSON value holds.
pub uninterp spec fn json_contents(value: serde_json::Value) -> Seq<char>;

/// What `serde_json::from_str` makes of a text: the contents of the value it
/// reads, or `None` where it reports an error.
pub uninterp spec fn json_parse(text: Seq<char>) -> Option<Seq<char>>;

/// What `Value::get` finds under a string key: the contents of the member, or
/// `None`.
pub uninterp spec fn json_member(contents: Seq<char>, key: Seq<char>) -> Option<Seq<char>>;

/// What `Value::as_u64` returns for a value with these contents.
pub uninterp spec fn json_as_u64(contents: Seq<char>) -> Option<u64>;

/// What `Value::as_str` returns for a value with these contents.
pub uninterp spec fn json_as_str(contents: Seq<char>) -> Option<Seq<char>>;

/// What `serde_json::to_string` writes for a value with these contents, or
/// `None` where it reports an error.
pub uninterp spec fn json_text(contents: Seq<char>) -> Option<Seq<char>>;

/// What `serde_json::to_string` writes for a string: its JSON string literal,
/// or `None` where it reports an error.
pub uninterp spec fn json_string_text(s: Seq<char>) -> Option<Seq<char>>;

/// Calls `serde_json::from_str` for a `Value`. The result is the value that
/// [`json_parse`] names; an error of any kind comes back as `None`.
#[verifier::external_body]
pub(crate) fn parse_value(text: &str) -> (parsed: Option<serde_json::Value>)
    ensures
        match parsed {
            Some(value) => json_parse(text@) == Some(json_contents(value)),
            None => json_parse(text@) is None,
        },
{
    serde_json::from_str::<serde_json::Value>(text).ok()
}

/// Calls `Value::get` with a string key and hands back a copy of the member
/// found: the one that [`json_member`] names.
#[verifier::external_body]
pub(crate) fn member(value: &serde_json::Value, key: &str) -> (found: Option<serde_json::Value>)
    ensures
        match found {
            Some(inner) => json_member(json_contents(*value), key@) == Some(json_contents(inner)),
            None => json_member(json_contents(*value), key@) is None,
        },
{
    value.get(key).cloned()
}

/// Calls `Value::as_u64`: the number that [`json_as_u64`] names.
#[verifier::external_body]
pub(crate) fn as_u64(value: &serde_json::Value) -> (number: Option<u64>)
    ensures
        number == json_as_u64(json_contents(*value)),
{
    value.as_u64()
}

/// Calls `Value::as_str` and copies the string: the one that [`json_as_str`]
/// names.
#[verifier::external_body]
pub(crate) fn as_string(value: &serde_json::Value) -> (string: Option<String>)
    ensures
        match string {
            Some(s) => json_as_str(json_contents(*value)) == Some(s@),
            None => json_as_str(json_contents(*value)) is None,
        },
{
    value.as_str().map(String::from)
}

/// Calls `serde_json::to_string` on a value: the text that [`json_text`]
/// names.
#[verifier::external_body]
pub(crate) fn value_text(value: &serde_json::Value) -> (text: Option<String>)
    ensures
        match text {
            Some(t) => json_text(json_contents(*value)) == Some(t@),
            None => json_text(json_contents(*value)) is None,
        },
{
    serde_json::to_string(value).ok()
}

/// Calls `serde_json::to_string` on a string: the literal that
/// [`json_string_text`] names.
#[verifier::external_body]
pub(crate) fn string_text(s: &str) -> (text: Option<String>)
    ensures
        match text {
            Some(t) => json_string_text(s@) == Some(t@),
            None => json_string_text(s@) is None,
        },
{
    serde_json::to_string(s).ok()
}

} // verus!
