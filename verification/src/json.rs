//! Reading JSON values with `serde_json`.

use vstd::prelude::*;

verus! {

/// A JSON value of `serde_json`.
#[verifier::external_type_specification]
#[verifier::external_body]
pub struct ExJsonValue(serde_json::Value);

/// Why `serde_json` could not read a text.
#[verifier::external_type_specification]
#[verifier::external_body]
pub struct ExJsonError(serde_json::Error);

/// What `serde_json::from_str` makes of a text when it is asked for a value of
/// any kind.
pub uninterp spec fn json_parsed(text: Seq<char>) -> Result<serde_json::Value, serde_json::Error>;

/// The message that a `serde_json` error shows.
pub uninterp spec fn json_error_text(error: serde_json::Error) -> Seq<char>;

/// The members of a JSON object; a value that is no object has none.
pub uninterp spec fn json_members(value: serde_json::Value) -> Map<Seq<char>, serde_json::Value>;

/// The text of a JSON string; other values have none.
pub uninterp spec fn json_text(value: serde_json::Value) -> Option<Seq<char>>;

/// Calls `serde_json::from_str` for a `serde_json::Value`. What it returns is a
/// function of the text alone.
#[verifier::external_body]
pub(crate) fn parse_json(text: &str) -> (parsed: Result<serde_json::Value, serde_json::Error>)
    ensures
        parsed == json_parsed(text@),
{
    serde_json::from_str::<serde_json::Value>(text)
}

/// Calls `to_string` of `serde_json::Error`, which shows the error's message.
#[verifier::external_body]
pub(crate) fn json_error_message(error: &serde_json::Error) -> (message: String)
    ensures
        message@ == json_error_text(*error),
{
    error.to_string()
}

/// Calls `serde_json::Value::get` with a text, which finds the member of that
/// name in an object, and nothing in a value that is no object.
#[verifier::external_body]
pub(crate) fn json_member<'a>(value: &'a serde_json::Value, name: &str) -> (member: Option<
    &'a serde_json::Value,
>)
    ensures
        match member {
            Some(found) => json_members(*value).contains_key(name@) && json_members(*value)[name@]
                == *found,
            None => !json_members(*value).contains_key(name@),
        },
{
    value.get(name)
}

/// `serde_json::Value::as_str` gives the text of a string, and nothing of any
/// other value.
pub assume_specification[ serde_json::Value::as_str ](value: &serde_json::Value) -> (text: Option<
    &str,
>)
    ensures
        match text {
            Some(t) => json_text(*value) == Some(t@),
            None => json_text(*value) is None,
        },
;

/// Calls `from_iter` of `serde_json::Value` on one name and text, which makes an
/// object with that one member, a string.
#[verifier::external_body]
pub(crate) fn json_object(name: &str, text: String) -> (object: serde_json::Value)
    ensures
        forall|other: Seq<char>| #[trigger]
            json_members(object).contains_key(other) <==> other == name@,
        json_text(json_members(object)[name@]) == Some(text@),
{
    serde_json::Value::from_iter([(name.to_owned(), text)])
}

/// Calls `from` of `serde_json::Value` on a text, which makes a string.
#[verifier::external_body]
pub(crate) fn json_string(text: String) -> (string: serde_json::Value)
    ensures
        json_text(string) == Some(text@),
{
    serde_json::Value::from(text)
}

} // verus!
