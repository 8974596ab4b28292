//! The JSON text that `serde_json` writes for a list of strings with its
//! compact formatter: `[`, the quoted strings joined by `,`, and `]`.

use vstd::prelude::*;

use crate::digest::spec_hex_digit;

verus! {

/// How one character is written inside a JSON string: `"` and `\` get a
/// backslash; backspace, tab, line feed, form feed and carriage return get
/// their short escapes; the other characters below U+0020 become `\u00XX`
/// with lowercase hex digits; every other character is written as it is.
pub open spec fn spec_json_escape(c: char) -> Seq<char> {
    let v = c as u32;
    if c == '"' {
        seq!['\\', '"']
    } else if c == '\\' {
        seq!['\\', '\\']
    } else if v == 0x08 {
        seq!['\\', 'b']
    } else if v == 0x09 {
        seq!['\\', 't']
    } else if v == 0x0a {
        seq!['\\', 'n']
    } else if v == 0x0c {
        seq!['\\', 'f']
    } else if v == 0x0d {
        seq!['\\', 'r']
    } else if v < 0x20 {
        seq![
            '\\',
            'u',
            '0',
            '0',
            if v < 0x10 {
                '0'
            } else {
                '1'
            },
            spec_hex_digit((v % 16) as u8),
        ]
    } else {
        seq![c]
    }
}

/// The escaped characters of a string, in order.
pub open spec fn spec_json_escaped(s: Seq<char>) -> Seq<char>
    decreases s.len(),
{
    if s.len() == 0 {
        Seq::empty()
    } else {
        spec_json_escaped(s.drop_last()) + spec_json_escape(s.last())
    }
}

/// A JSON string: the escaped characters between double quotes.
pub open spec fn spec_json_string(s: Seq<char>) -> Seq<char> {
    seq!['"'] + spec_json_escaped(s) + seq!['"']
}

/// The JSON strings of `items` joined by `,`.
pub open spec fn spec_json_elements(items: Seq<Seq<char>>) -> Seq<char>
    decreases items.len(),
{
    if items.len() == 0 {
        Seq::empty()
    } else if items.len() == 1 {
        spec_json_string(items[0])
    } else {
        spec_json_elements(items.drop_last()) + seq![','] + spec_json_string(items.last())
    }
}

/// A JSON array of strings, without whitespace.
pub open spec fn spec_json_list(items: Seq<Seq<char>>) -> Seq<char> {
    seq!['['] + spec_json_elements(items) + seq![']']
}

} // verus!
