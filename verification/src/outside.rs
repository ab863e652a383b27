//! What the library takes from the standard library and from `serde_json` on trust.
//!
//! Nothing in this file is proved. Each item says what the rest of the library relies on.
use vstd::prelude::*;
use vstd::string::*;
use vstd::utf8::*;

use crate::json::{json_array, json_object, json_string, names_ascend};
use crate::text::decimal;

verus! {

/// `String::push` appends one character.
pub assume_specification[ String::push ](s: &mut String, c: char)
    ensures
        final(s)@ == old(s)@.push(c),
;

/// The text that `String::from_utf8_lossy` reads out of `bytes`.
pub uninterp spec fn lossy_utf8(bytes: Seq<u8>) -> Seq<char>;

/// Every ASCII character of `text` is one of `bytes`.
pub open spec fn ascii_from(text: Seq<char>, bytes: Seq<u8>) -> bool {
    forall|i: int|
        0 <= i < text.len() && (#[trigger] text[i] as int) < 128 ==> bytes.contains(text[i] as u8)
}

/// `String::from_utf8_lossy`: the text is a function of the bytes, and where these are valid
/// UTF-8 it is what they encode. What is not valid is replaced by U+FFFD, so the text holds no
/// ASCII character that is not among the bytes; and as an ASCII byte is valid wherever it stands,
/// one at the end stands for itself, after what the bytes before it stand for. How many
/// replacement characters stand for what is not valid is left unsaid.
#[verifier::external_body]
pub(crate) fn utf8_lossy(bytes: &[u8]) -> (text: String)
    ensures
        text@ == lossy_utf8(bytes@),
        valid_utf8(bytes@) ==> text@ == decode_utf8(bytes@),
        ascii_from(text@, bytes@),
        bytes@.len() > 0 && bytes@.last() < 128 ==> text@.len() > 0 && text@.last()
            == bytes@.last() as char && ascii_from(text@.drop_last(), bytes@.drop_last()),
{
    String::from_utf8_lossy(bytes).into_owned()
}

/// How the formatting `{:?}` shows `text`.
pub uninterp spec fn debug_form(text: Seq<char>) -> Seq<char>;

/// The formatting `{:?}` of a string: a function of the text. Which characters it escapes is
/// left unsaid.
#[verifier::external_body]
pub(crate) fn debug_text(text: &str) -> (shown: String)
    ensures
        shown@ == debug_form(text@),
{
    format!("{:?}", text)
}

/// The text that `str::to_uppercase` gives for `text`.
pub uninterp spec fn unicode_upper(text: Seq<char>) -> Seq<char>;

/// `text` with its ASCII letters in upper case.
pub open spec fn ascii_upper(text: Seq<char>) -> Seq<char> {
    text.map_values(
        |c: char|
            if 'a' <= c <= 'z' {
                (c as int - 32) as char
            } else {
                c
            },
    )
}

/// `str::to_uppercase`: a function of the text; in text that is all ASCII the letters are
/// replaced one by one. What becomes of other letters is left unsaid.
#[verifier::external_body]
pub(crate) fn to_upper(text: &str) -> (upper: String)
    ensures
        upper@ == unicode_upper(text@),
        is_ascii_chars(text@) ==> upper@ == ascii_upper(text@),
{
    text.to_uppercase()
}

/// A JSON value of `serde_json`.
#[verifier::external_type_specification]
#[verifier::external_body]
pub struct ExJsonValue(serde_json::Value);

/// How `serde_json` writes what `value` holds.
pub uninterp spec fn json_text(value: serde_json::Value) -> Seq<char>;

/// `serde_json::Value::from` of a string: written as a JSON string, with the quotation mark, the
/// backslash and the characters below the space escaped.
#[verifier::external_body]
pub(crate) fn json_from_str(text: &str) -> (value: serde_json::Value)
    ensures
        json_text(value) == json_string(text@),
{
    serde_json::Value::from(text)
}

/// `serde_json::Value::from` of an unsigned integer: written in decimal notation.
#[verifier::external_body]
pub(crate) fn json_from_u64(n: u64) -> (value: serde_json::Value)
    ensures
        json_text(value) == decimal(n as nat),
{
    serde_json::Value::from(n)
}

/// `serde_json::Value::from` of a vector of values: written as an array of them.
#[verifier::external_body]
pub(crate) fn json_from_vec(items: Vec<serde_json::Value>) -> (value: serde_json::Value)
    ensures
        json_text(value) == json_array(items@.map_values(|v: serde_json::Value| json_text(v))),
{
    serde_json::Value::from(items)
}

/// `serde_json::Value::from_iter` of names and values: written as an object with its members in
/// the order of their names, which is the order in which they are given.
#[verifier::external_body]
pub(crate) fn json_from_members(members: Vec<(String, serde_json::Value)>) -> (value:
    serde_json::Value)
    requires
        names_ascend(members@),
    ensures
        json_text(value) == json_object(
            members@.map_values(|m: (String, serde_json::Value)| (m.0@, json_text(m.1))),
        ),
{
    serde_json::Value::from_iter(members)
}

/// `serde_json::Value::to_string`: the value in JSON, without white space.
#[verifier::external_body]
pub(crate) fn json_to_string(value: &serde_json::Value) -> (text: String)
    ensures
        text@ == json_text(*value),
{
    value.to_string()
}

} // verus!
