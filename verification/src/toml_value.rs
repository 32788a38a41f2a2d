//! TOML values, as the `toml` crate reads them.
//!
//! A value is opaque to the verifier. What it holds has a name,
//! [`toml_contents`], and so has the result of each operation that the
//! library calls. Nothing here is proved: every item states what the library
//! relies on.

use vstd::prelude::*;

verus! {

#[verifier::external_type_specification]
#[verifier::external_body]
pub struct ExTomlValue(toml::Value);

/// What a TOML value holds.
pub uninterp spec fn toml_contents(value: toml::Value) -> Seq<char>;

/// What `toml::from_str` makes of a document: the contents of the value it
/// reads, or `None` where it reports an error.
pub uninterp spec fn toml_parse(text: Seq<char>) -> Option<Seq<char>>;

/// What `Value::get` finds under a string key: the contents of the member, or
/// `None`.
pub uninterp spec fn toml_member(contents: Seq<char>, key: Seq<char>) -> Option<Seq<char>>;

/// What `Value::as_str` returns for a value with these contents.
pub uninterp spec fn toml_as_str(contents: Seq<char>) -> Option<Seq<char>>;

/// Calls `toml::from_str` for a `Value`. The result is the value that
/// [`toml_parse`] names; an error of any kind comes back as `None`.
#[verifier::external_body]
pub(crate) fn parse_document(text: &str) -> (parsed: Option<toml::Value>)
    ensures
        match parsed {
            Some(value) => toml_parse(text@) == Some(toml_contents(value)),
            None => toml_parse(text@) is None,
        },
{
    toml::from_str::<toml::Value>(text).ok()
}

/// Calls `Value::get` with a string key and hands back a copy of the member
/// found: the one that [`toml_member`] names.
#[verifier::external_body]
pub(crate) fn member(value: &toml::Value, key: &str) -> (found: Option<toml::Value>)
    ensures
        match found {
            Some(inner) => toml_member(toml_contents(*value), key@) == Some(toml_contents(inner)),
            None => toml_member(toml_contents(*value), key@) is None,
        },
{
    value.get(key).cloned()
}

/// Calls `Value::as_str` and copies the string: the one that [`toml_as_str`]
/// names.
#[verifier::external_body]
pub(crate) fn as_string(value: &toml::Value) -> (string: Option<String>)
    ensures
        match string {
            Some(s) => toml_as_str(toml_contents(*value)) == Some(s@),
            None => toml_as_str(toml_contents(*value)) is None,
        },
{
    value.as_str().map(String::from)
}

} // verus!
