//! Normal forms of the URLs that books and book sources are keyed by.
use vstd::prelude::*;
use crate::text::{chars_of, copy_range, string_of, trim_chars, trim_ws};

verus! {

/// The sequence without its trailing `/` characters.
pub open spec fn trim_trailing_slashes(s: Seq<char>) -> Seq<char>
    decreases s.len(),
{
    if s.len() > 0 && s.last() == '/' {
        trim_trailing_slashes(s.drop_last())
    } else {
        s
    }
}

/// The normal form of a book source URL: trimmed, without trailing slashes.
pub open spec fn normalized_source_url(s: Seq<char>) -> Seq<char> {
    trim_trailing_slashes(trim_ws(s))
}

/// Normalizes a book source URL (see [`normalized_source_url`]).
pub fn normalize_source_url(url: &str) -> (r: String)
    ensures
        r@ == normalized_source_url(url@),
{
    let t = trim_chars(&chars_of(url));
    let mut j: usize = t.len();
    assert(t@.subrange(0, t@.len() as int) =~= t@);
    while j > 0 && t[j - 1] == '/'
        invariant
            j <= t.len(),
            trim_trailing_slashes(t@) == trim_trailing_slashes(t@.subrange(0, j as int)),
        decreases j,
    {
        assert(t@.subrange(0, j as int).drop_last() =~= t@.subrange(0, j - 1));
        j -= 1;
    }
    string_of(&copy_range(&t, 0, j))
}

/// The repaired form of a book or chapter URL as received from a client: trimmed.
pub open spec fn repaired_url(s: Seq<char>) -> Seq<char> {
    trim_ws(s)
}

/// Repairs a book or chapter URL received from a client (see [`repaired_url`]).
pub fn repair_encoded_url(url: &str) -> (r: String)
    ensures
        r@ == repaired_url(url@),
{
    string_of(&trim_chars(&chars_of(url)))
}

/// The pieces of `s` between the occurrences of `sep`, as `str::split` yields them
/// (the empty sequence gives one empty piece).
pub open spec fn split_on(s: Seq<char>, sep: char) -> Seq<Seq<char>>
    decreases s.len(),
{
    if s.len() == 0 {
        seq![Seq::empty()]
    } else {
        let pieces = split_on(s.drop_last(), sep);
        if s.last() == sep {
            pieces.push(Seq::empty())
        } else {
            pieces.update(pieces.len() - 1, pieces.last().push(s.last()))
        }
    }
}

/// The root domain of a host: the next-to-last dot-separated label
/// (`22biqu` for `m.22biqu.com`), or the host itself when it has no dot.
pub open spec fn root_domain_of(host: Seq<char>) -> Seq<char> {
    let parts = split_on(host, '.');
    if parts.len() >= 2 {
        parts[parts.len() - 2]
    } else {
        host
    }
}

/// The root domain of a host (see [`root_domain_of`]).
pub fn extract_root_domain(host: &str) -> (r: String)
    ensures
        r@ == root_domain_of(host@),
{
    let s = chars_of(host);
    let mut parts: Vec<Vec<char>> = Vec::new();
    parts.push(Vec::new());
    let mut i: usize = 0;
    while i < s.len()
        invariant
            i <= s.len(),
            parts@.len() >= 1,
            parts@.len() == split_on(s@.take(i as int), '.').len(),
            forall|k: int|
                0 <= k < parts@.len() ==> #[trigger] parts@[k]@ == split_on(
                    s@.take(i as int),
                    '.',
                )[k],
        decreases s.len() - i,
    {
        assert(s@.take(i as int + 1).drop_last() == s@.take(i as int));
        let c = s[i];
        let ghost prev = split_on(s@.take(i as int), '.');
        if c == '.' {
            parts.push(Vec::new());
            proof {
                assert forall|k: int| 0 <= k < parts@.len() implies #[trigger] parts@[k]@
                    == split_on(s@.take(i as int + 1), '.')[k] by {
                    if k < prev.len() {
                        assert(parts@[k]@ == prev[k]);
                    }
                }
            }
        } else {
            let last = parts.len() - 1;
            let mut piece: Vec<char> = Vec::new();
            std::mem::swap(&mut piece, &mut parts[last]);
            piece.push(c);
            parts.set(last, piece);
            proof {
                assert forall|k: int| 0 <= k < parts@.len() implies #[trigger] parts@[k]@
                    == split_on(s@.take(i as int + 1), '.')[k] by {
                    if k < last {
                        assert(parts@[k]@ == prev[k]);
                    }
                }
            }
        }
        i += 1;
    }
    assert(s@.take(s@.len() as int) == s@);
    if parts.len() >= 2 {
        let k = parts.len() - 2;
        string_of(&parts[k])
    } else {
        host.to_string()
    }
}

} // verus!
