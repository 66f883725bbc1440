//! What the search and explore requests ask for: the query and page, the
//! sources of a group, and the hits gathered from several sources.
use vstd::prelude::*;
use crate::available::books_view;
use crate::model::{opt_view, BookSource, SearchBook, SearchBookView};
use crate::requests::{CoverQuery, GetShelfBookRequest};
use crate::urls::{repair_encoded_url, repaired_url};
use crate::text::{chars_of, contains_chars, has_substring, trim_chars, trim_ws};

verus! {

/// The error of a streamed search without a query.
pub const NO_QUERY_MESSAGE: &'static str = "请输入搜索关键字";

/// The error of a streamed search whose group holds no source.
pub const EMPTY_GROUP_MESSAGE: &'static str = "未配置书源或分组为空";

/// A query with the page asked for.
#[derive(Debug)]
pub struct PagedQuery {
    pub text: String,
    /// The page, 1 when none is given.
    pub page: i32,
}

/// A query with its page (1 when none is given), or `missing` when there is
/// no query.
pub open spec fn paged_query(text: Option<Seq<char>>, page: Option<i32>, missing: Seq<char>) -> Result<
    (Seq<char>, i32),
    Seq<char>,
> {
    match text {
        Some(t) => Ok(
            (
                t,
                match page {
                    Some(p) => p,
                    None => 1,
                },
            ),
        ),
        None => Err(missing),
    }
}

fn paged(text: &Option<String>, page: Option<i32>, missing: &str) -> (r: Result<PagedQuery, String>)
    ensures
        match r {
            Ok(q) => paged_query(opt_view(*text), page, missing@) == Ok::<(Seq<char>, i32), Seq<char>>(
                (q.text@, q.page),
            ),
            Err(e) => paged_query(opt_view(*text), page, missing@) == Err::<(Seq<char>, i32), Seq<char>>(
                e@,
            ),
        },
{
    match text {
        Some(t) => Ok(
            PagedQuery {
                text: t.clone(),
                page: match page {
                    Some(p) => p,
                    None => 1,
                },
            },
        ),
        None => Err(missing.to_string()),
    }
}

/// The query of a search, or "key required" when there is none.
pub fn search_query(key: &Option<String>, page: Option<i32>) -> (r: Result<PagedQuery, String>)
    ensures
        match r {
            Ok(q) => paged_query(opt_view(*key), page, "key required"@) == Ok::<
                (Seq<char>, i32),
                Seq<char>,
            >((q.text@, q.page)),
            Err(e) => paged_query(opt_view(*key), page, "key required"@) == Err::<
                (Seq<char>, i32),
                Seq<char>,
            >(e@),
        },
{
    paged(key, page, "key required")
}

/// The listing URL of an explore request, or "ruleFindUrl required" when there is none.
pub fn explore_query(rule_find_url: &Option<String>, page: Option<i32>) -> (r: Result<
    PagedQuery,
    String,
>)
    ensures
        match r {
            Ok(q) => paged_query(opt_view(*rule_find_url), page, "ruleFindUrl required"@) == Ok::<
                (Seq<char>, i32),
                Seq<char>,
            >((q.text@, q.page)),
            Err(e) => paged_query(opt_view(*rule_find_url), page, "ruleFindUrl required"@) == Err::<
                (Seq<char>, i32),
                Seq<char>,
            >(e@),
        },
{
    paged(rule_find_url, page, "ruleFindUrl required")
}

/// Whether a streamed search has a query to run: one that is not blank.
pub fn has_search_key(key: &str) -> (r: bool)
    ensures
        r == (trim_ws(key@).len() != 0),
{
    trim_chars(&chars_of(key)).len() != 0
}

/// A source is in a group when its group text (empty when it has none)
/// contains the group's name.
pub open spec fn in_group(s: BookSource, group: Seq<char>) -> bool {
    has_substring(
        match opt_view(s.book_source_group) {
            Some(g) => g,
            None => Seq::empty(),
        },
        group,
    )
}

/// The sources in a group, in order (see [`in_group`]).
pub fn sources_in_group(sources: Vec<BookSource>, group: &str) -> (r: Vec<BookSource>)
    ensures
        r@ == sources@.filter(|s: BookSource| in_group(s, group@)),
{
    let ghost pred = |s: BookSource| in_group(s, group@);
    let g = chars_of(group);
    let mut out: Vec<BookSource> = Vec::new();
    let mut rest = sources;
    let ghost all = rest@;
    let mut i: usize = 0;
    proof {
        reveal(Seq::filter);
        assert(all.take(0).filter(pred) =~= Seq::<BookSource>::empty());
    }
    let n = rest.len();
    assert(all.skip(0) == all);
    while rest.len() > 0
        invariant
            i + rest@.len() == n == all.len(),
            rest@ == all.skip(i as int),
            g@ == group@,
            pred == (|s: BookSource| in_group(s, group@)),
            out@ == all.take(i as int).filter(pred),
        decreases rest.len(),
    {
        proof {
            reveal(Seq::filter);
            assert(all.take(i as int + 1).drop_last() == all.take(i as int));
            assert(all.take(i as int + 1).last() == all[i as int]);
        }
        let s = rest.remove(0);
        assert(rest@ == all.skip(i as int + 1));
        let text = match &s.book_source_group {
            Some(x) => chars_of(x.as_str()),
            None => Vec::new(),
        };
        if contains_chars(&text, &g) {
            out.push(s);
        }
        i += 1;
    }
    assert(all.take(i as int) == all);
    out
}

/// The hits gathered from several sources: the lists of those that answered,
/// one after another, in order.
pub open spec fn gathered_hits(answers: Seq<Option<Vec<SearchBook>>>) -> Seq<SearchBookView>
    decreases answers.len(),
{
    if answers.len() == 0 {
        Seq::empty()
    } else {
        gathered_hits(answers.drop_last()) + match answers.last() {
            Some(list) => books_view(list@),
            None => Seq::empty(),
        }
    }
}

/// The hits gathered from several sources (see [`gathered_hits`]).
pub fn gather_hits(answers: Vec<Option<Vec<SearchBook>>>) -> (r: Vec<SearchBook>)
    ensures
        books_view(r@) == gathered_hits(answers@),
{
    let ghost all = answers@;
    let mut out: Vec<SearchBook> = Vec::new();
    let mut i: usize = 0;
    assert(all.take(0) =~= Seq::<Option<Vec<SearchBook>>>::empty());
    assert(books_view(out@) =~= Seq::<SearchBookView>::empty());
    while i < answers.len()
        invariant
            i <= answers@.len(),
            all == answers@,
            books_view(out@) == gathered_hits(all.take(i as int)),
        decreases answers.len() - i,
    {
        assert(all.take(i as int + 1).drop_last() == all.take(i as int));
        assert(all.take(i as int + 1).last() == all[i as int]);
        match &answers[i] {
            Some(list) => {
                let ghost base = books_view(out@);
                let mut j: usize = 0;
                while j < list.len()
                    invariant
                        j <= list@.len(),
                        books_view(out@) == base + books_view(list@).take(j as int),
                    decreases list.len() - j,
                {
                    let ghost before = books_view(out@);
                    out.push(list[j].copy());
                    assert(books_view(out@) =~= before.push(list@[j as int]@));
                    assert(books_view(list@).take(j as int + 1) =~= books_view(list@).take(
                        j as int,
                    ).push(list@[j as int]@));
                    j += 1;
                }
                assert(books_view(list@).take(list@.len() as int) == books_view(list@));
            },
            None => {
                assert(books_view(out@) =~= books_view(out@) + Seq::<SearchBookView>::empty());
            },
        }
        i += 1;
    }
    assert(all.take(answers@.len() as int) == all);
    out
}

/// The URL a shelf book is looked up by: the requested one, repaired; "url
/// required" without one.
pub fn shelf_book_url(req: &GetShelfBookRequest) -> (r: Result<String, String>)
    ensures
        match r {
            Ok(u) => req.url is Some && u@ == repaired_url(req.url->0@),
            Err(e) => req.url is None && e@ == "url required"@,
        },
{
    match &req.url {
        Some(u) => Ok(repair_encoded_url(u.as_str())),
        None => Err("url required".to_string()),
    }
}

/// The cover a request asks for: its path, when given and not blank (none
/// answers "not found").
pub fn cover_path(q: &CoverQuery) -> (r: Option<String>)
    ensures
        match r {
            Some(p) => q.path is Some && p@ == q.path->0@ && trim_ws(p@).len() != 0,
            None => q.path is None || trim_ws(q.path->0@).len() == 0,
        },
{
    match &q.path {
        Some(p) => if trim_chars(&chars_of(p.as_str())).len() == 0 {
            None
        } else {
            Some(p.clone())
        },
        None => None,
    }
}

} // verus!
