//! Reading values out of JSON text and writing a string as JSON. Nothing in
//! this file is proved: each function states what `serde_json` does, and
//! claims only that the outcome depends on the texts that are handed in.

use vstd::prelude::*;

verus! {

/// The string that stands in the JSON document `text` at the place that the
/// JSON pointer names; `None` if the text is no JSON document, the pointer
/// leads nowhere, or what stands there is no string.
pub uninterp spec fn json_string_at(text: Seq<char>, pointer: Seq<char>) -> Option<Seq<char>>;

/// The truth value that stands in the JSON document `text` at the place
/// that the JSON pointer names; `None` if there is none.
pub uninterp spec fn json_bool_at(text: Seq<char>, pointer: Seq<char>) -> Option<bool>;

/// The non-negative whole number that stands in the JSON document `text` at
/// the place that the JSON pointer names; `None` if there is none.
pub uninterp spec fn json_number_at(text: Seq<char>, pointer: Seq<char>) -> Option<u64>;

/// `text` as a JSON string: in double quotes, with what JSON cannot hold
/// as it stands written as escapes.
pub uninterp spec fn json_quoted(text: Seq<char>) -> Seq<char>;

/// Parses `text` with `serde_json::from_str`, follows the pointer with
/// `Value::pointer` and reads the string there with `Value::as_str`.
#[verifier::external_body]
pub(crate) fn string_at(text: &str, pointer: &str) -> (res: Option<String>)
    ensures
        match res {
            Some(found) => json_string_at(text@, pointer@) == Some(found@),
            None => json_string_at(text@, pointer@) is None,
        },
{
    let value: serde_json::Value = serde_json::from_str(text).ok()?;
    value.pointer(pointer)?.as_str().map(str::to_string)
}

/// Parses `text` with `serde_json::from_str`, follows the pointer with
/// `Value::pointer` and reads the truth value there with `Value::as_bool`.
#[verifier::external_body]
pub(crate) fn bool_at(text: &str, pointer: &str) -> (res: Option<bool>)
    ensures
        res == json_bool_at(text@, pointer@),
{
    let value: serde_json::Value = serde_json::from_str(text).ok()?;
    value.pointer(pointer)?.as_bool()
}

/// Parses `text` with `serde_json::from_str`, follows the pointer with
/// `Value::pointer` and reads the number there with `Value::as_u64`.
#[verifier::external_body]
pub(crate) fn number_at(text: &str, pointer: &str) -> (res: Option<u64>)
    ensures
        res == json_number_at(text@, pointer@),
{
    let value: serde_json::Value = serde_json::from_str(text).ok()?;
    value.pointer(pointer)?.as_u64()
}

/// Writes `text` as a JSON string, as `serde_json::Value::String` prints itself.
#[verifier::external_body]
pub(crate) fn quoted(text: &str) -> (res: String)
    ensures
        res@ == json_quoted(text@),
{
    serde_json::Value::String(text.to_string()).to_string()
}

} // verus!
