//! The calls into `serde_json` and the std text decoding that the payload
//! builders rest on. These are the trusted items of the crate: Verus takes
//! their contracts as given.

use vstd::prelude::*;
use vstd::utf8::{decode_utf8, valid_utf8};

use crate::labels::{distinct_names, pairs_map};
use crate::text::join_commas;

verus! {

/// A hexadecimal digit in lower case (for `d < 16`).
pub open spec fn hex_digit_lower(d: nat) -> char {
    if d < 10 {
        (d + 48) as char
    } else {
        (d + 87) as char
    }
}

/// How `serde_json` writes one character inside a string: `"` and `\` are
/// escaped with a backslash, backspace, tab, line feed, form feed and
/// carriage return as `\b`, `\t`, `\n`, `\f`, `\r`, the other control
/// characters below U+0020 as `\u00` and two lower-case hex digits; every
/// other character is written as it is.
pub open spec fn json_escape_char(c: char) -> Seq<char> {
    let u = c as u32;
    if c == '"' {
        seq!['\\', '"']
    } else if c == '\\' {
        seq!['\\', '\\']
    } else if u == 8 {
        seq!['\\', 'b']
    } else if u == 9 {
        seq!['\\', 't']
    } else if u == 10 {
        seq!['\\', 'n']
    } else if u == 12 {
        seq!['\\', 'f']
    } else if u == 13 {
        seq!['\\', 'r']
    } else if u < 32 {
        seq![
            '\\',
            'u',
            '0',
            '0',
            hex_digit_lower((u / 16) as nat),
            hex_digit_lower((u % 16) as nat),
        ]
    } else {
        seq![c]
    }
}

/// The characters of `s`, each written as `json_escape_char` says.
pub open spec fn json_escape(s: Seq<char>) -> Seq<char>
    decreases s.len(),
{
    if s.len() == 0 {
        Seq::empty()
    } else {
        json_escape_char(s[0]) + json_escape(s.drop_first())
    }
}

/// The JSON text that `serde_json::to_string` gives for the string `s`: its
/// escaped characters between double quotes.
pub open spec fn json_string_literal(s: Seq<char>) -> Seq<char> {
    seq!['"'] + json_escape(s) + seq!['"']
}

/// `a` sorts before `b` in the order of `String`'s `Ord`: byte-wise on the
/// UTF-8 encoding, which is the order of the characters' code points.
pub open spec fn chars_less(a: Seq<char>, b: Seq<char>) -> bool
    decreases a.len(),
{
    if a.len() == 0 {
        b.len() > 0
    } else if b.len() == 0 {
        false
    } else if a[0] != b[0] {
        (a[0] as u32) < (b[0] as u32)
    } else {
        chars_less(a.drop_first(), b.drop_first())
    }
}

/// The keys of `m` in increasing order.
pub open spec fn keys_in_order(m: Map<Seq<char>, Seq<char>>) -> Seq<Seq<char>> {
    choose|ks: Seq<Seq<char>>|
        ks.to_set() == m.dom() && forall|i: int, j: int|
            0 <= i < j < ks.len() ==> chars_less(#[trigger] ks[i], #[trigger] ks[j])
}

/// The JSON text that `serde_json::to_string` gives for a
/// `serde_json::Map` whose entries are the map `m`, every value a JSON
/// string: the members `"key":"value"` in increasing key order (the map is
/// a `BTreeMap`), separated by commas, between braces.
pub open spec fn json_string_map_text(m: Map<Seq<char>, Seq<char>>) -> Seq<char> {
    seq!['{'] + join_commas(
        keys_in_order(m).map_values(
            |k: Seq<char>| json_string_literal(k) + seq![':'] + json_string_literal(m[k]),
        ),
    ) + seq!['}']
}

/// The text `String::from_utf8_lossy` gives for `bytes`.
pub uninterp spec fn lossy_utf8(bytes: Seq<u8>) -> Seq<char>;

/// Calls `serde_json::to_string` on a string slice. Its contract claims that
/// the result is `s` escaped and quoted as `json_string_literal` states,
/// which is what serde_json's `format_escaped_str` writes with its `ESCAPE`
/// table and lower-case `HEX_DIGITS`. The call cannot fail on a `&str` (serde_json's `Serializer` writes the escaped
/// text into a `Vec<u8>`, which never refuses a write); the error arm is
/// there for the type only.
#[verifier::external_body]
pub(crate) fn json_quote(s: &str) -> (r: String)
    ensures
        r@ == json_string_literal(s@),
{
    match serde_json::to_string(s) {
        Ok(t) => t,
        Err(_) => String::new(),
    }
}

/// Collects the pairs into a `serde_json::Map` of string values and calls
/// `serde_json::to_string` on it. Its contract claims, for pairs whose names
/// are distinct, that the result is the text `json_string_map_text` states
/// for the map they form; the order of the pairs does not enter, since the
/// map (a `BTreeMap` without the `preserve_order` feature) keeps its keys
/// sorted. Nothing is claimed when a name occurs twice. Serialising a map with
/// string keys and string values cannot fail; the error arm is there for the
/// type only.
#[verifier::external_body]
pub(crate) fn json_string_object(pairs: &Vec<(String, String)>) -> (r: String)
    ensures
        distinct_names(pairs.deep_view()) ==> r@ == json_string_map_text(
            pairs_map(pairs.deep_view()),
        ),
{
    let map: serde_json::Map<String, serde_json::Value> = pairs.iter().map(
        |p| (p.0.clone(), serde_json::Value::String(p.1.clone())),
    ).collect();
    match serde_json::to_string(&map) {
        Ok(t) => t,
        Err(_) => String::new(),
    }
}

/// Calls `String::from_utf8_lossy` and takes the owned text. Its contract
/// claims that the result is a function of the bytes alone, named
/// `lossy_utf8`, and, as std documents, that valid UTF-8 is decoded
/// unchanged.
#[verifier::external_body]
pub(crate) fn utf8_lossy(bytes: &[u8]) -> (r: String)
    ensures
        r@ == lossy_utf8(bytes@),
        valid_utf8(bytes@) ==> r@ == decode_utf8(bytes@),
{
    String::from_utf8_lossy(bytes).into_owned()
}

} // verus!
