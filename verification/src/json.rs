//! JSON documents as texts: what can be read out of them and how a text is
//! written into them.

use vstd::prelude::*;

verus! {

/// Whether the JSON parser accepts the document.
pub uninterp spec fn json_accepts(document: Seq<char>) -> bool;

/// The string that stands in the document at the place that the JSON pointer
/// names, if a string stands there.
pub uninterp spec fn json_str_at(document: Seq<char>, pointer: Seq<char>) -> Option<Seq<char>>;

/// The unsigned 64-bit number that stands in the document at the place that the
/// JSON pointer names, if such a number stands there.
pub uninterp spec fn json_u64_at(document: Seq<char>, pointer: Seq<char>) -> Option<u64>;

/// The truth value that stands in the document at the place that the JSON
/// pointer names, if one stands there.
pub uninterp spec fn json_bool_at(document: Seq<char>, pointer: Seq<char>) -> Option<bool>;

/// A hexadecimal digit, in lower case.
pub open spec fn low_hex(n: int) -> char {
    if n < 10 {
        ('0' as int + n) as char
    } else {
        ('a' as int + n - 10) as char
    }
}

/// How a character is written inside a JSON string.
pub open spec fn escaped(c: char) -> Seq<char> {
    if c == '"' || c == '\\' {
        seq!['\\', c]
    } else if c == '\u{8}' {
        seq!['\\', 'b']
    } else if c == '\t' {
        seq!['\\', 't']
    } else if c == '\n' {
        seq!['\\', 'n']
    } else if c == '\u{c}' {
        seq!['\\', 'f']
    } else if c == '\r' {
        seq!['\\', 'r']
    } else if c <= '\u{1f}' {
        seq!['\\', 'u', '0', '0', low_hex(c as int / 16), low_hex(c as int % 16)]
    } else {
        seq![c]
    }
}

/// The JSON string that stands for a text, quotes and escapes included.
pub open spec fn json_quoted(text: Seq<char>) -> Seq<char> {
    seq!['"'] + text.map_values(|c: char| escaped(c)).flatten() + seq!['"']
}

/// The text of an optional string.
pub open spec fn opt_text(o: Option<String>) -> Option<Seq<char>> {
    match o {
        Some(s) => Some(s@),
        None => None,
    }
}

/// Calls `serde_json::from_str` for a `serde_json::Value`. Claimed: the result
/// says whether the document was accepted.
#[verifier::external_body]
pub(crate) fn accepts(document: &str) -> (r: bool)
    ensures
        r == json_accepts(document@),
{
    serde_json::from_str::<serde_json::Value>(document).is_ok()
}

/// Calls `serde_json::from_str`, `Value::pointer` and `Value::as_str`. Claimed:
/// the result is the string at the pointer; a document that is not accepted
/// holds none.
#[verifier::external_body]
pub(crate) fn str_at(document: &str, pointer: &str) -> (r: Option<String>)
    ensures
        opt_text(r) == json_str_at(document@, pointer@),
        r is Some ==> json_accepts(document@),
{
    let value = serde_json::from_str::<serde_json::Value>(document).ok()?;
    value.pointer(pointer)?.as_str().map(|s| s.to_string())
}

/// Calls `serde_json::from_str`, `Value::pointer` and `Value::as_u64`. Claimed:
/// the result is the number at the pointer; a document that is not accepted
/// holds none.
#[verifier::external_body]
pub(crate) fn u64_at(document: &str, pointer: &str) -> (r: Option<u64>)
    ensures
        r == json_u64_at(document@, pointer@),
        r is Some ==> json_accepts(document@),
{
    let value = serde_json::from_str::<serde_json::Value>(document).ok()?;
    value.pointer(pointer)?.as_u64()
}

/// Calls `serde_json::from_str`, `Value::pointer` and `Value::as_bool`.
/// Claimed: the result is the truth value at the pointer; a document that is
/// not accepted holds none.
#[verifier::external_body]
pub(crate) fn bool_at(document: &str, pointer: &str) -> (r: Option<bool>)
    ensures
        r == json_bool_at(document@, pointer@),
        r is Some ==> json_accepts(document@),
{
    let value = serde_json::from_str::<serde_json::Value>(document).ok()?;
    value.pointer(pointer)?.as_bool()
}

/// Calls `serde_json::to_string` on a string, which cannot fail. Claimed: the
/// result is the text between quotes, where quotes, backslashes and control
/// characters below the blank are escaped and nothing else is.
#[verifier::external_body]
pub(crate) fn quote(text: &str) -> (out: String)
    ensures
        out@ == json_quoted(text@),
{
    serde_json::to_string(text).expect("a string can be written as JSON")
}

} // verus!
