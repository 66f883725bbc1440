//! The remote source subscriptions a user keeps: which URL a request adds.
use vstd::prelude::*;
use crate::text::{chars_of, string_of, trim_chars, trim_ws};

verus! {

/// The URL a subscription request adds: the given URL trimmed, or "url is
/// required" when nothing is left.
pub open spec fn subscription_url_of(url: Seq<char>) -> Result<Seq<char>, Seq<char>> {
    if trim_ws(url).len() == 0 {
        Err("url is required"@)
    } else {
        Ok(trim_ws(url))
    }
}

/// The URL a subscription request adds (see [`subscription_url_of`]).
pub fn subscription_url(url: &str) -> (r: Result<String, String>)
    ensures
        match r {
            Ok(u) => subscription_url_of(url@) == Ok::<Seq<char>, Seq<char>>(u@),
            Err(e) => subscription_url_of(url@) == Err::<Seq<char>, Seq<char>>(e@),
        },
{
    let t = trim_chars(&chars_of(url));
    if t.len() == 0 {
        Err("url is required".to_string())
    } else {
        Ok(string_of(&t))
    }
}

} // verus!
