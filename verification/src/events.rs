//! The small JSON texts that the streamed answers send as events: an error,
//! the end of a scan, a message.
use vstd::prelude::*;
use crate::numbers::{push_signed_decimal, signed_decimal};
use crate::text::{chars_of, string_of};

verus! {

/// The lowercase hexadecimal digit of `n` (below 16).
pub open spec fn lower_hex_digit(n: int) -> char {
    seq!['0', '1', '2', '3', '4', '5', '6', '7', '8', '9', 'a', 'b', 'c', 'd', 'e', 'f'][n]
}

/// How a character stands inside a JSON string literal: a quote and a
/// backslash get a backslash before them; backspace, tab, line feed, form feed
/// and carriage return become `\b`, `\t`, `\n`, `\f`, `\r`; any other
/// character below 0x20 becomes `\u00` and its two lowercase hex digits; every
/// other character stands as it is.
pub open spec fn json_escaped_char(c: char) -> Seq<char> {
    let n = c as u32 as int;
    if c == '"' {
        seq!['\\', '"']
    } else if c == '\\' {
        seq!['\\', '\\']
    } else if n == 0x08 {
        seq!['\\', 'b']
    } else if n == 0x09 {
        seq!['\\', 't']
    } else if n == 0x0a {
        seq!['\\', 'n']
    } else if n == 0x0c {
        seq!['\\', 'f']
    } else if n == 0x0d {
        seq!['\\', 'r']
    } else if n < 0x20 {
        seq!['\\', 'u', '0', '0', lower_hex_digit(n / 16), lower_hex_digit(n % 16)]
    } else {
        seq![c]
    }
}

/// The characters of a text, each as it stands inside a JSON string literal.
pub open spec fn json_escaped(s: Seq<char>) -> Seq<char>
    decreases s.len(),
{
    if s.len() == 0 {
        Seq::empty()
    } else {
        json_escaped(s.drop_last()) + json_escaped_char(s.last())
    }
}

/// The JSON string literal for a text: the escaped text in double quotes.
pub open spec fn json_string_literal(s: Seq<char>) -> Seq<char> {
    seq!['"'] + json_escaped(s) + seq!['"']
}

/// `serde_json::to_string` on a text: the text as a JSON string literal, with
/// the escapes of the crate's compact formatter (see [`json_escaped_char`]).
/// Serializing a `str` into memory cannot fail, so the empty text of the error
/// arm is never returned.
#[verifier::external_body]
fn json_string(s: &str) -> (r: String)
    ensures
        r@ == json_string_literal(s@),
{
    match serde_json::to_string(s) {
        Ok(v) => v,
        Err(_) => String::new(),
    }
}

/// The JSON object with one text member `key` holding `value`.
pub open spec fn text_member_object(key: Seq<char>, value: Seq<char>) -> Seq<char> {
    seq!['{'] + json_string_literal(key) + seq![':'] + json_string_literal(value) + seq!['}']
}

fn text_member(key: &str, value: &str) -> (r: String)
    ensures
        r@ == text_member_object(key@, value@),
{
    let mut out: Vec<char> = Vec::new();
    out.push('{');
    let k = chars_of(json_string(key).as_str());
    let v = chars_of(json_string(value).as_str());
    out.append(&mut k.clone());
    out.push(':');
    out.append(&mut v.clone());
    out.push('}');
    assert(out@ =~= text_member_object(key@, value@));
    string_of(&out)
}

/// The error event: `{"errorMsg":...}` with the message.
pub fn json_err(msg: &str) -> (r: String)
    ensures
        r@ == text_member_object("errorMsg"@, msg@),
{
    text_member("errorMsg", msg)
}

/// The message event: `{"msg":...}` with the message.
pub fn json_msg(msg: &str) -> (r: String)
    ensures
        r@ == text_member_object("msg"@, msg@),
{
    text_member("msg", msg)
}

/// The end event of a scan: `{"lastIndex":N}` with the position of the last
/// source searched.
pub open spec fn end_object(last_index: int) -> Seq<char> {
    seq!['{'] + json_string_literal("lastIndex"@) + seq![':'] + signed_decimal(last_index)
        + seq!['}']
}

/// The end event of a scan (see [`end_object`]).
pub fn json_end(last_index: i32) -> (r: String)
    ensures
        r@ == end_object(last_index as int),
{
    let mut out: Vec<char> = Vec::new();
    out.push('{');
    let k = chars_of(json_string("lastIndex").as_str());
    out.append(&mut k.clone());
    out.push(':');
    push_signed_decimal(last_index as i64, &mut out);
    out.push('}');
    assert(out@ =~= end_object(last_index as int));
    string_of(&out)
}

} // verus!
