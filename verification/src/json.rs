//! The JSON text of a list of strings, as `serde_json` writes it.

use vstd::prelude::*;
use crate::hex::hex_digit;
use crate::text::texts;

verus! {

/// How one character of a string is written inside a JSON string literal:
/// quote and backslash are escaped, the control characters that have a short
/// escape use it, the other control characters below 0x20 become `\u00xx` with
/// lower-case hexadecimal digits, and every other character stands for itself.
pub open spec fn json_escaped_char(c: char) -> Seq<char> {
    if c == '"' {
        seq!['\\', '"']
    } else if c == '\\' {
        seq!['\\', '\\']
    } else if c == '\u{8}' {
        seq!['\\', 'b']
    } else if c == '\t' {
        seq!['\\', 't']
    } else if c == '\n' {
        seq!['\\', 'n']
    } else if c == '\u{c}' {
        seq!['\\', 'f']
    } else if c == '\r' {
        seq!['\\', 'r']
    } else if (c as nat) < 0x20 {
        seq!['\\', 'u', '0', '0', hex_digit(c as nat / 16), hex_digit(c as nat % 16)]
    } else {
        seq![c]
    }
}

/// The escaped characters of a string, without the surrounding quotes.
pub open spec fn json_escaped(s: Seq<char>) -> Seq<char>
    decreases s.len(),
{
    if s.len() == 0 {
        seq![]
    } else {
        json_escaped(s.drop_last()) + json_escaped_char(s.last())
    }
}

/// A JSON string literal.
pub open spec fn json_string(s: Seq<char>) -> Seq<char> {
    seq!['"'] + json_escaped(s) + seq!['"']
}

/// The string literals of the items, separated by commas.
pub open spec fn json_items(items: Seq<Seq<char>>) -> Seq<char>
    decreases items.len(),
{
    if items.len() == 0 {
        seq![]
    } else if items.len() == 1 {
        json_string(items[0])
    } else {
        json_items(items.drop_last()) + seq![','] + json_string(items.last())
    }
}

/// A compact JSON array of strings: `["a","b"]`, and `[]` for no items.
pub open spec fn json_array(items: Seq<Seq<char>>) -> Seq<char> {
    seq!['['] + json_items(items) + seq![']']
}

/// Converts the list with `serde_json::Value::from` and writes it with the
/// compact `Display` of `serde_json::Value`. The contract states the text that
/// serde_json's compact formatter writes for an array of strings (its escape
/// table for bytes below 0x20, `"` and `\`).
#[verifier::external_body]
pub(crate) fn json_string_array(items: Vec<String>) -> (r: String)
    ensures
        r@ == json_array(texts(items@)),
{
    serde_json::Value::from(items).to_string()
}

} // verus!
