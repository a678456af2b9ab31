//! Parsing of the one-line JSON responses the player sends back.
//!
//! A response line either is a well-formed JSON document — then it is
//! handed on unchanged — or it is malformed, and a fixed `error` object
//! takes its place: a semantic error value, never a failure.  What a
//! well-formed document holds is read through serde_json behind trusted
//! wrappers; the names below stand for what those reads return.

use vstd::prelude::*;

verus! {

/// Whether `serde_json::from_str::<Value>` accepts the line as one
/// well-formed JSON document; a function of the characters alone.
pub uninterp spec fn json_parses(s: Seq<char>) -> bool;

/// The `data` member of the JSON document in `s`, where `s` parses as an
/// object whose `data` member is a JSON boolean; nothing otherwise.
pub uninterp spec fn json_data_bool(s: Seq<char>) -> Option<bool>;

/// The `data` member of the JSON document in `s`, where `s` parses as an
/// object whose `data` member is a JSON string; nothing otherwise.
pub uninterp spec fn json_data_str(s: Seq<char>) -> Option<Seq<char>>;

/// Relies on `serde_json::from_str::<serde_json::Value>`: it returns
/// `Ok` exactly when the input is one well-formed JSON document, and
/// its outcome depends on the characters of the input alone.
#[verifier::external_body]
fn json_is_valid(line: &str) -> (r: bool)
    ensures
        r == json_parses(line@),
{
    serde_json::from_str::<serde_json::Value>(line).is_ok()
}

/// Relies on `serde_json::from_str`, `Value::get` and `Value::as_bool`:
/// the chain yields the `data` member of the parsed document where that
/// member is a JSON boolean, and nothing otherwise; the outcome depends
/// on the characters of the input alone.
#[verifier::external_body]
pub(crate) fn read_data_bool(line: &str) -> (r: Option<bool>)
    ensures
        r == json_data_bool(line@),
{
    serde_json::from_str::<serde_json::Value>(line)
        .ok()
        .and_then(|v| v.get("data").and_then(|d| d.as_bool()))
}

/// Relies on `serde_json::from_str`, `Value::get` and `Value::as_str`:
/// the chain yields the `data` member of the parsed document where that
/// member is a JSON string, and nothing otherwise; the outcome depends
/// on the characters of the input alone.
#[verifier::external_body]
fn read_data_str(line: &str) -> (r: Option<String>)
    ensures
        match r {
            Some(p) => json_data_str(line@) == Some(p@),
            None => json_data_str(line@) is None,
        },
{
    serde_json::from_str::<serde_json::Value>(line)
        .ok()
        .and_then(|v| v.get("data").and_then(|d| d.as_str().map(|s| s.to_string())))
}

/// The value a malformed response line is replaced with.
pub open spec fn malformed_reply() -> Seq<char> {
    "{\"error\":\"Invalid response from MPV\"}"@
}

/// Normalizes one response line read from the player: a well-formed JSON
/// line passes through unchanged, and anything else becomes the fixed
/// `error` object given by [`malformed_reply`].
pub fn parse_response(line: &str) -> (r: String)
    ensures
        json_parses(line@) ==> r@ == line@,
        !json_parses(line@) ==> r@ == malformed_reply(),
{
    if json_is_valid(line) {
        line.to_owned()
    } else {
        String::from_str("{\"error\":\"Invalid response from MPV\"}")
    }
}

/// The currently playing path carried in a `get_property path` response:
/// exactly the `data` string of the line, where the line holds one.
pub fn current_track(line: &str) -> (r: Option<String>)
    ensures
        match r {
            Some(p) => json_data_str(line@) == Some(p@),
            None => json_data_str(line@) is None,
        },
{
    read_data_str(line)
}

} // verus!
