//! The JSON texts that the logic checks or reformats, through `serde_json`.
//!
//! Each function here reads a text as a `serde_json::Value` with `serde_json::from_str`
//! and, when it parses, hands that value to the one `serde_json` function it is named for.
//! What `serde_json` makes of a text depends on the text alone, so each result is named by
//! a spec function of the text.

use vstd::prelude::*;

verus! {

/// The name for whether `serde_json::from_str::<serde_json::Value>` accepts a text
/// (one JSON value, surrounded by whitespace at most).
pub uninterp spec fn json_valid(s: Seq<char>) -> bool;

/// The name for the text that `serde_json::to_string_pretty` gives of the value that a
/// JSON text parses to (two-space indentation).
pub uninterp spec fn json_pretty_text(s: Seq<char>) -> Seq<char>;

/// The name for the text that `serde_json::to_string` gives of the value that a JSON text
/// parses to (no whitespace).
pub uninterp spec fn json_compact_text(s: Seq<char>) -> Seq<char>;

/// The name for the message of the `serde_json::Error` (its `Display`) with which
/// `serde_json::from_str::<serde_json::Value>` refuses a text.
pub uninterp spec fn json_error_message(s: Seq<char>) -> Seq<char>;

/// The name for what `serde_json::Value::get` finds under a key of the value that a JSON
/// text parses to, when that is a JSON string: the string; otherwise none.
pub uninterp spec fn json_string_member(s: Seq<char>, key: Seq<char>) -> Option<Seq<char>>;

/// Calls `serde_json::from_str::<serde_json::Value>` and, on success,
/// `serde_json::to_string_pretty` on the value. The result is there exactly when the text
/// parses: serializing a `Value` never fails (its errors come only from the writer, which
/// for a `Vec` accepts everything, and from map keys that are not strings, which a `Value`
/// does not have).
#[verifier::external_body]
pub(crate) fn json_pretty(s: &str) -> (r: Option<String>)
    ensures
        r is Some <==> json_valid(s@),
        r matches Some(t) ==> t@ == json_pretty_text(s@),
{
    match serde_json::from_str::<serde_json::Value>(s) {
        Ok(v) => serde_json::to_string_pretty(&v).ok(),
        Err(_) => None,
    }
}

/// Calls `serde_json::from_str::<serde_json::Value>` and, on success, `serde_json::to_string`
/// on the value. The result is there exactly when the text parses (see `json_pretty`).
#[verifier::external_body]
pub(crate) fn json_compact(s: &str) -> (r: Option<String>)
    ensures
        r is Some <==> json_valid(s@),
        r matches Some(t) ==> t@ == json_compact_text(s@),
{
    match serde_json::from_str::<serde_json::Value>(s) {
        Ok(v) => serde_json::to_string(&v).ok(),
        Err(_) => None,
    }
}

/// Calls `serde_json::from_str::<serde_json::Value>` and, when it refuses the text, gives
/// the error's message (its `Display`, through `to_string`); none when the text parses.
#[verifier::external_body]
pub(crate) fn json_parse_error(s: &str) -> (r: Option<String>)
    ensures
        r is None <==> json_valid(s@),
        r matches Some(m) ==> m@ == json_error_message(s@),
{
    match serde_json::from_str::<serde_json::Value>(s) {
        Ok(_) => None,
        Err(e) => Some(e.to_string()),
    }
}

/// Calls `serde_json::from_str::<serde_json::Value>` and, on success,
/// `serde_json::Value::get` for a key, keeping the entry when it is a JSON string. The outer
/// option is there exactly when the text parses.
#[verifier::external_body]
pub(crate) fn json_string_field(s: &str, key: &str) -> (r: Option<Option<String>>)
    ensures
        r is Some <==> json_valid(s@),
        r matches Some(f) ==> match f {
            Some(t) => json_string_member(s@, key@) == Some(t@),
            None => json_string_member(s@, key@) is None,
        },
{
    match serde_json::from_str::<serde_json::Value>(s) {
        Ok(v) => match v.get(key) {
            Some(serde_json::Value::String(t)) => Some(Some(t.clone())),
            _ => Some(None),
        },
        Err(_) => None,
    }
}

} // verus!
