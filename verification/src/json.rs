//! Reading one member of a JSON document, delegated to `serde_json`.
//!
//! What the parser makes of a text is not modelled here: its answers have
//! names, and the contracts of the rest of the crate speak of those names.

use crate::pattern::option_chars;
use serde_json::Value;
use vstd::prelude::*;

verus! {

/// `serde_json::Error`: why a text was refused as JSON.
#[verifier::external_type_specification]
#[verifier::external_body]
pub struct ExJsonError(serde_json::Error);

/// Whether `text` is one JSON value: whether `serde_json::from_str` returns
/// `Ok` when asked for a `Value`.
pub uninterp spec fn json_parses(text: Seq<char>) -> bool;

/// For a text that parses: the string that the value holds under `key`, as
/// `Value::get` and `Value::as_str` return it. `None` where the value is no
/// object, has no such member, or the member is no string.
pub uninterp spec fn json_string_member(text: Seq<char>, key: Seq<char>) -> Option<Seq<char>>;

/// What a document holds under a key.
#[derive(Debug, Clone, PartialEq, Eq)]
pub enum Member {
    /// The text is not JSON.
    Malformed,
    /// The document has no string under the key.
    Missing,
    /// The string under the key.
    Found(String),
}

/// What the document `text` holds under `key`.
pub open spec fn member_of(text: Seq<char>, key: Seq<char>) -> Option<Option<Seq<char>>> {
    if json_parses(text) {
        Some(json_string_member(text, key))
    } else {
        None
    }
}

impl Member {
    /// `None` for a text that is not JSON, else the string under the key, if
    /// there is one.
    pub open spec fn view(&self) -> Option<Option<Seq<char>>> {
        match self {
            Member::Malformed => None,
            Member::Missing => Some(None),
            Member::Found(s) => Some(Some(s@)),
        }
    }
}

/// Parses `text` with `serde_json::from_str` and reads the member `key` with
/// `Value::get` and `Value::as_str`. The contract claims that the call fails
/// exactly for the texts that the parser refuses, and otherwise returns the
/// string that the parsed value holds under `key`, if it holds one.
#[verifier::external_body]
fn read_string_member(text: &str, key: &str) -> (out: Result<Option<String>, serde_json::Error>)
    ensures
        out is Ok <==> json_parses(text@),
        out matches Ok(found) ==> option_chars(found) == json_string_member(text@, key@),
{
    match serde_json::from_str::<Value>(text) {
        Ok(value) => Ok(value.get(key).and_then(|member| member.as_str()).map(String::from)),
        Err(e) => Err(e),
    }
}

/// Reads the string that the JSON document `text` holds under `key`.
pub fn string_member(text: &str, key: &str) -> (out: Member)
    ensures
        out@ == member_of(text@, key@),
{
    match read_string_member(text, key) {
        Ok(Some(found)) => Member::Found(found),
        Ok(None) => Member::Missing,
        Err(_) => Member::Malformed,
    }
}

} // verus!
