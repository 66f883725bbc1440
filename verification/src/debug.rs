//! The debug search of one book source: which source and which keyword it
//! runs with, and the messages it streams.
use vstd::prelude::*;
use crate::model::{opt_view, BookSource};
use crate::numbers::{decimal, push_decimal};
use crate::requests::BookSourceDebugRequest;
use crate::text::{chars_of, string_of, trim_chars, trim_ws};

verus! {

/// The error when no source is named, or the named one is not stored.
pub const NO_SOURCE_MESSAGE: &'static str = "未配置书源";

/// The error when neither the request nor the source gives a keyword.
pub const NO_KEYWORD_MESSAGE: &'static str = "请输入搜索关键词";

/// The source a debug search runs on: the requested URL, when not blank.
pub open spec fn debug_source_url(req_url: Option<Seq<char>>) -> Option<Seq<char>> {
    match req_url {
        Some(u) => if trim_ws(u).len() == 0 {
            None
        } else {
            Some(u)
        },
        None => None,
    }
}

/// The URL of the source a debug search runs on, or the error it ends with
/// (see [`debug_source_url`]).
pub fn debug_source(req: &BookSourceDebugRequest) -> (r: Result<String, String>)
    ensures
        match r {
            Ok(u) => debug_source_url(opt_view(req.book_source_url)) == Some(u@),
            Err(e) => debug_source_url(opt_view(req.book_source_url)) is None && e@
                == NO_SOURCE_MESSAGE@,
        },
{
    match &req.book_source_url {
        Some(u) => if trim_chars(&chars_of(u.as_str())).len() == 0 {
            Err(NO_SOURCE_MESSAGE.to_string())
        } else {
            Ok(u.clone())
        },
        None => Err(NO_SOURCE_MESSAGE.to_string()),
    }
}

/// The keyword a debug search runs with: the requested one when not blank,
/// else the source's check keyword (empty when it has none); none when that
/// is blank too.
pub open spec fn debug_keyword_of(req_keyword: Option<Seq<char>>, source_check: Option<Seq<char>>) -> Option<
    Seq<char>,
> {
    let requested = match req_keyword {
        Some(k) => k,
        None => Seq::empty(),
    };
    let k = if trim_ws(requested).len() == 0 {
        match source_check {
            Some(c) => c,
            None => Seq::empty(),
        }
    } else {
        requested
    };
    if trim_ws(k).len() == 0 {
        None
    } else {
        Some(k)
    }
}

/// The check keyword of a source's search rule.
pub open spec fn check_keyword(source: BookSource) -> Option<Seq<char>> {
    match source.rule_search {
        Some(rule) => opt_view(rule.check_key_word),
        None => None,
    }
}

/// The keyword a debug search runs with, or the error it ends with (see [`debug_keyword_of`]).
pub fn debug_keyword(req_keyword: &Option<String>, source: &BookSource) -> (r: Result<String, String>)
    ensures
        match r {
            Ok(k) => debug_keyword_of(opt_view(*req_keyword), check_keyword(*source)) == Some(k@),
            Err(e) => debug_keyword_of(opt_view(*req_keyword), check_keyword(*source)) is None
                && e@ == NO_KEYWORD_MESSAGE@,
        },
{
    let requested = match req_keyword {
        Some(k) => k.clone(),
        None => String::new(),
    };
    let k = if trim_chars(&chars_of(requested.as_str())).len() == 0 {
        match &source.rule_search {
            Some(rule) => match &rule.check_key_word {
                Some(c) => c.clone(),
                None => String::new(),
            },
            None => String::new(),
        }
    } else {
        requested
    };
    if trim_chars(&chars_of(k.as_str())).len() == 0 {
        Err(NO_KEYWORD_MESSAGE.to_string())
    } else {
        Ok(k)
    }
}

/// The message sent when the search answered: `found N items`.
pub open spec fn found_items_text(n: nat) -> Seq<char> {
    "found "@ + decimal(n) + " items"@
}

/// The message sent when the search answered (see [`found_items_text`]).
pub fn found_items_message(n: usize) -> (r: String)
    ensures
        r@ == found_items_text(n as nat),
{
    let mut out = chars_of("found ");
    push_decimal(n as u64, &mut out);
    let mut tail = chars_of(" items");
    out.append(&mut tail);
    string_of(&out)
}

} // verus!
