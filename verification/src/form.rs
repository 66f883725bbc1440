//! Reading request parameters from a body that is not JSON: an
//! `application/x-www-form-urlencoded` form, whose fields override the query.
use vstd::prelude::*;
use crate::model::opt_view;
use crate::numbers::{parse_i32, parsed_i32};
use crate::requests::{
    BookContentRequest, BookInfoRequest, ChapterListRequest, DeleteCacheRequest,
    ExploreBookRequest, SearchBookRequest, SetBookSourceRequest,
};
use crate::text::{chars_of, same_chars};

verus! {

/// The (name, value) pairs that `url::form_urlencoded::parse` reads from a body.
pub uninterp spec fn form_pairs(input: Seq<u8>) -> Seq<(Seq<char>, Seq<char>)>;

/// The views of a list of form pairs.
pub open spec fn pairs_view(v: Seq<(String, String)>) -> Seq<(Seq<char>, Seq<char>)> {
    v.map_values(|p: (String, String)| (p.0@, p.1@))
}

/// `url::form_urlencoded::parse`: the percent-decoded (name, value) pairs of a
/// form body, in order. The contract names the result without stating the
/// decoding rules.
#[verifier::external_body]
fn parse_form(input: &[u8]) -> (r: Vec<(String, String)>)
    ensures
        pairs_view(r@) == form_pairs(input@),
{
    url::form_urlencoded::parse(input).into_owned().collect()
}

/// `std::str::from_utf8` succeeds: the bytes are valid UTF-8.
#[verifier::external_body]
fn is_utf8(input: &[u8]) -> (r: bool)
    ensures
        r == vstd::utf8::valid_utf8(input@),
{
    std::str::from_utf8(input).is_ok()
}

/// The value of the last pair whose name is one of `names`, if any.
pub open spec fn last_pair_value(
    pairs: Seq<(Seq<char>, Seq<char>)>,
    names: Seq<Seq<char>>,
) -> Option<Seq<char>>
    decreases pairs.len(),
{
    if pairs.len() == 0 {
        None
    } else if names.contains(pairs.last().0) {
        Some(pairs.last().1)
    } else {
        last_pair_value(pairs.drop_last(), names)
    }
}

/// A text parameter after a form: the last value given for it, or what it was.
pub open spec fn text_after_form(
    before: Option<Seq<char>>,
    pairs: Seq<(Seq<char>, Seq<char>)>,
    names: Seq<Seq<char>>,
) -> Option<Seq<char>> {
    match last_pair_value(pairs, names) {
        Some(v) => Some(v),
        None => before,
    }
}

/// A number parameter after a form: the last value given for it, read as an
/// `i32` (none when unreadable), or what it was.
pub open spec fn number_after_form(
    before: Option<i32>,
    pairs: Seq<(Seq<char>, Seq<char>)>,
    names: Seq<Seq<char>>,
) -> Option<i32> {
    match last_pair_value(pairs, names) {
        Some(v) => parsed_i32(v),
        None => before,
    }
}

fn name_in(name: &String, names: &Vec<&'static str>) -> (r: bool)
    ensures
        r == names@.map_values(|s: &'static str| s@).contains(name@),
{
    let n = chars_of(name.as_str());
    let ghost nv = names@.map_values(|s: &'static str| s@);
    let mut i: usize = 0;
    while i < names.len()
        invariant
            i <= names@.len(),
            n@ == name@,
            nv == names@.map_values(|s: &'static str| s@),
            forall|j: int| 0 <= j < i ==> nv[j] != name@,
        decreases names.len() - i,
    {
        if same_chars(&n, &chars_of(names[i])) {
            assert(nv[i as int] == name@);
            return true;
        }
        i += 1;
    }
    false
}

/// The value of the last pair whose name is one of `names` (see [`last_pair_value`]).
pub fn form_value(pairs: &Vec<(String, String)>, names: &Vec<&'static str>) -> (r: Option<String>)
    ensures
        opt_view(r) == last_pair_value(pairs_view(pairs@), names@.map_values(|s: &'static str| s@)),
{
    let ghost pv = pairs_view(pairs@);
    let ghost nv = names@.map_values(|s: &'static str| s@);
    let mut found: Option<String> = None;
    let mut i: usize = 0;
    while i < pairs.len()
        invariant
            i <= pairs@.len(),
            pv == pairs_view(pairs@),
            nv == names@.map_values(|s: &'static str| s@),
            opt_view(found) == last_pair_value(pv.take(i as int), nv),
        decreases pairs.len() - i,
    {
        assert(pv.take(i as int + 1).drop_last() == pv.take(i as int));
        assert(pv.take(i as int + 1).last() == (pairs@[i as int].0@, pairs@[i as int].1@));
        if name_in(&pairs[i].0, names) {
            found = Some(pairs[i].1.clone());
        }
        i += 1;
    }
    assert(pv.take(pairs@.len() as int) == pv);
    found
}

fn text_field(before: Option<String>, pairs: &Vec<(String, String)>, names: Vec<&'static str>) -> (r:
    Option<String>)
    ensures
        opt_view(r) == text_after_form(
            opt_view(before),
            pairs_view(pairs@),
            names@.map_values(|s: &'static str| s@),
        ),
{
    match form_value(pairs, &names) {
        Some(v) => Some(v),
        None => before,
    }
}

fn number_field(before: Option<i32>, pairs: &Vec<(String, String)>, names: Vec<&'static str>) -> (r:
    Option<i32>)
    ensures
        r == number_after_form(before, pairs_view(pairs@), names@.map_values(|s: &'static str| s@)),
{
    match form_value(pairs, &names) {
        Some(v) => parse_i32(v.as_str()),
        None => before,
    }
}

/// The names a parameter is given under in a form.
pub open spec fn names1(a: &'static str) -> Seq<Seq<char>> {
    seq![a@]
}

/// The two names a parameter is given under in a form.
pub open spec fn names2(a: &'static str, b: &'static str) -> Seq<Seq<char>> {
    seq![a@, b@]
}

fn one(a: &'static str) -> (r: Vec<&'static str>)
    ensures
        r@.map_values(|s: &'static str| s@) == names1(a),
{
    let r = vec![a];
    assert(r@.map_values(|s: &'static str| s@) =~= names1(a));
    r
}

fn two(a: &'static str, b: &'static str) -> (r: Vec<&'static str>)
    ensures
        r@.map_values(|s: &'static str| s@) == names2(a, b),
{
    let r = vec![a, b];
    assert(r@.map_values(|s: &'static str| s@) =~= names2(a, b));
    r
}

/// How a search request reads after a form: `key`, `page`, and `bookSourceUrl`
/// or `origin`.
pub open spec fn search_form_applied(
    before: SearchBookRequest,
    after: SearchBookRequest,
    pairs: Seq<(Seq<char>, Seq<char>)>,
) -> bool {
    &&& opt_view(after.key) == text_after_form(opt_view(before.key), pairs, names1("key"))
    &&& after.page == number_after_form(before.page, pairs, names1("page"))
    &&& opt_view(after.book_source_url) == text_after_form(
        opt_view(before.book_source_url),
        pairs,
        names2("bookSourceUrl", "origin"),
    )
    &&& after.book_source == before.book_source
}

/// The search request an endpoint works with: the query parameters, replaced by
/// the body when it is JSON (`json`), overridden field by field by the body when
/// it is a UTF-8 form; the query alone for an empty or unreadable body.
pub fn resolve_search_book_request(
    query: SearchBookRequest,
    body: &[u8],
    json: Option<SearchBookRequest>,
) -> (r: SearchBookRequest)
    ensures
        body@.len() == 0 ==> r == query,
        body@.len() != 0 && json is Some ==> r == json->0,
        body@.len() != 0 && json is None && !vstd::utf8::valid_utf8(body@) ==> r == query,
        body@.len() != 0 && json is None && vstd::utf8::valid_utf8(body@) ==> search_form_applied(
            query,
            r,
            form_pairs(body@),
        ),
{
    if body.len() == 0 {
        return query;
    }
    if let Some(v) = json {
        return v;
    }
    if !is_utf8(body) {
        return query;
    }
    let pairs = parse_form(body);
    let key = text_field(query.key, &pairs, one("key"));
    let page = number_field(query.page, &pairs, one("page"));
    let book_source_url = text_field(query.book_source_url, &pairs, two("bookSourceUrl", "origin"));
    SearchBookRequest { key, page, book_source_url, book_source: query.book_source }
}

/// How an explore request reads after a form: `ruleFindUrl`, `page` and
/// `bookSourceUrl` or `origin` take the last value given, where one is given
/// (and for `page`, readable).
pub open spec fn explore_form_applied(
    before: ExploreBookRequest,
    after: ExploreBookRequest,
    pairs: Seq<(Seq<char>, Seq<char>)>,
) -> bool {
    &&& opt_view(after.rule_find_url) == text_after_form(
        opt_view(before.rule_find_url),
        pairs,
        names1("ruleFindUrl"),
    )
    &&& after.page == match number_after_form(None, pairs, names1("page")) {
        Some(p) => Some(p),
        None => before.page,
    }
    &&& opt_view(after.book_source_url) == text_after_form(
        opt_view(before.book_source_url),
        pairs,
        names2("bookSourceUrl", "origin"),
    )
    &&& after.book_source == before.book_source
}

/// The explore request an endpoint works with (as for a search, with the form
/// fields taken where given, see [`explore_form_applied`]).
pub fn resolve_explore_book_request(
    query: ExploreBookRequest,
    body: &[u8],
    json: Option<ExploreBookRequest>,
) -> (r: ExploreBookRequest)
    ensures
        body@.len() == 0 ==> r == query,
        body@.len() != 0 && json is Some ==> r == json->0,
        body@.len() != 0 && json is None && !vstd::utf8::valid_utf8(body@) ==> r == query,
        body@.len() != 0 && json is None && vstd::utf8::valid_utf8(body@) ==> explore_form_applied(
            query,
            r,
            form_pairs(body@),
        ),
{
    if body.len() == 0 {
        return query;
    }
    if let Some(v) = json {
        return v;
    }
    if !is_utf8(body) {
        return query;
    }
    let pairs = parse_form(body);
    let rule_find_url = text_field(query.rule_find_url, &pairs, one("ruleFindUrl"));
    let page = match number_field(None, &pairs, one("page")) {
        Some(p) => Some(p),
        None => query.page,
    };
    let book_source_url = text_field(query.book_source_url, &pairs, two("bookSourceUrl", "origin"));
    ExploreBookRequest { rule_find_url, page, book_source_url, book_source: query.book_source }
}

/// How a book detail request reads after a form: `url`, and `bookSourceUrl` or `origin`.
pub open spec fn book_info_form_applied(
    before: BookInfoRequest,
    after: BookInfoRequest,
    pairs: Seq<(Seq<char>, Seq<char>)>,
) -> bool {
    &&& opt_view(after.url) == text_after_form(opt_view(before.url), pairs, names1("url"))
    &&& opt_view(after.book_source_url) == text_after_form(
        opt_view(before.book_source_url),
        pairs,
        names2("bookSourceUrl", "origin"),
    )
    &&& after.book_source == before.book_source
}

/// The book detail request an endpoint works with (as for a search).
pub fn resolve_book_info_request(
    query: BookInfoRequest,
    body: &[u8],
    json: Option<BookInfoRequest>,
) -> (r: BookInfoRequest)
    ensures
        body@.len() == 0 ==> r == query,
        body@.len() != 0 && json is Some ==> r == json->0,
        body@.len() != 0 && json is None && !vstd::utf8::valid_utf8(body@) ==> r == query,
        body@.len() != 0 && json is None && vstd::utf8::valid_utf8(body@) ==> book_info_form_applied(
            query,
            r,
            form_pairs(body@),
        ),
{
    if body.len() == 0 {
        return query;
    }
    if let Some(v) = json {
        return v;
    }
    if !is_utf8(body) {
        return query;
    }
    let pairs = parse_form(body);
    let url = text_field(query.url, &pairs, one("url"));
    let book_source_url = text_field(query.book_source_url, &pairs, two("bookSourceUrl", "origin"));
    BookInfoRequest { url, book_source_url, book_source: query.book_source }
}

/// How a chapter list request reads after a form: `tocUrl`, `bookUrl` or `url`,
/// `bookSourceUrl` or `origin`, and `refresh`.
pub open spec fn chapter_list_form_applied(
    before: ChapterListRequest,
    after: ChapterListRequest,
    pairs: Seq<(Seq<char>, Seq<char>)>,
) -> bool {
    &&& opt_view(after.toc_url) == text_after_form(opt_view(before.toc_url), pairs, names1("tocUrl"))
    &&& opt_view(after.book_url) == text_after_form(
        opt_view(before.book_url),
        pairs,
        names2("bookUrl", "url"),
    )
    &&& opt_view(after.book_source_url) == text_after_form(
        opt_view(before.book_source_url),
        pairs,
        names2("bookSourceUrl", "origin"),
    )
    &&& after.refresh == number_after_form(before.refresh, pairs, names1("refresh"))
    &&& after.book_source == before.book_source
}

/// The chapter list request an endpoint works with (as for a search).
pub fn resolve_chapter_list_request(
    query: ChapterListRequest,
    body: &[u8],
    json: Option<ChapterListRequest>,
) -> (r: ChapterListRequest)
    ensures
        body@.len() == 0 ==> r == query,
        body@.len() != 0 && json is Some ==> r == json->0,
        body@.len() != 0 && json is None && !vstd::utf8::valid_utf8(body@) ==> r == query,
        body@.len() != 0 && json is None && vstd::utf8::valid_utf8(body@) ==> chapter_list_form_applied(
            query,
            r,
            form_pairs(body@),
        ),
{
    if body.len() == 0 {
        return query;
    }
    if let Some(v) = json {
        return v;
    }
    if !is_utf8(body) {
        return query;
    }
    let pairs = parse_form(body);
    let toc_url = text_field(query.toc_url, &pairs, one("tocUrl"));
    let book_url = text_field(query.book_url, &pairs, two("bookUrl", "url"));
    let book_source_url = text_field(query.book_source_url, &pairs, two("bookSourceUrl", "origin"));
    let refresh = number_field(query.refresh, &pairs, one("refresh"));
    ChapterListRequest { toc_url, book_url, book_source_url, book_source: query.book_source, refresh }
}

/// How a chapter content request reads after a form: `chapterUrl` or `href`,
/// `bookSourceUrl` or `origin`, `index` and `refresh`.
pub open spec fn book_content_form_applied(
    before: BookContentRequest,
    after: BookContentRequest,
    pairs: Seq<(Seq<char>, Seq<char>)>,
) -> bool {
    &&& opt_view(after.chapter_url) == text_after_form(
        opt_view(before.chapter_url),
        pairs,
        names2("chapterUrl", "href"),
    )
    &&& opt_view(after.book_source_url) == text_after_form(
        opt_view(before.book_source_url),
        pairs,
        names2("bookSourceUrl", "origin"),
    )
    &&& after.index == number_after_form(before.index, pairs, names1("index"))
    &&& after.refresh == number_after_form(before.refresh, pairs, names1("refresh"))
    &&& after.book_source == before.book_source
}

/// A content request completed by a JSON body: each parameter the query lacks
/// is taken from the body.
pub open spec fn book_content_json_merged(
    query: BookContentRequest,
    body: BookContentRequest,
    after: BookContentRequest,
) -> bool {
    &&& after.chapter_url == if query.chapter_url is None {
        body.chapter_url
    } else {
        query.chapter_url
    }
    &&& after.book_source_url == if query.book_source_url is None {
        body.book_source_url
    } else {
        query.book_source_url
    }
    &&& after.book_source == if query.book_source is None {
        body.book_source
    } else {
        query.book_source
    }
    &&& after.index == if query.index is None {
        body.index
    } else {
        query.index
    }
    &&& after.refresh == if query.refresh is None {
        body.refresh
    } else {
        query.refresh
    }
}

/// The chapter content request an endpoint works with: the query completed by
/// a JSON body, or overridden by a UTF-8 form body.
pub fn resolve_book_content_request(
    query: BookContentRequest,
    body: &[u8],
    json: Option<BookContentRequest>,
) -> (r: BookContentRequest)
    ensures
        body@.len() == 0 ==> r == query,
        body@.len() != 0 && json is Some ==> book_content_json_merged(query, json->0, r),
        body@.len() != 0 && json is None && !vstd::utf8::valid_utf8(body@) ==> r == query,
        body@.len() != 0 && json is None && vstd::utf8::valid_utf8(body@) ==> book_content_form_applied(
            query,
            r,
            form_pairs(body@),
        ),
{
    if body.len() == 0 {
        return query;
    }
    if let Some(v) = json {
        return BookContentRequest {
            chapter_url: if query.chapter_url.is_none() { v.chapter_url } else { query.chapter_url },
            book_source_url: if query.book_source_url.is_none() {
                v.book_source_url
            } else {
                query.book_source_url
            },
            book_source: if query.book_source.is_none() { v.book_source } else { query.book_source },
            index: if query.index.is_none() { v.index } else { query.index },
            refresh: if query.refresh.is_none() { v.refresh } else { query.refresh },
        };
    }
    if !is_utf8(body) {
        return query;
    }
    let pairs = parse_form(body);
    let chapter_url = text_field(query.chapter_url, &pairs, two("chapterUrl", "href"));
    let book_source_url = text_field(query.book_source_url, &pairs, two("bookSourceUrl", "origin"));
    let index = number_field(query.index, &pairs, one("index"));
    let refresh = number_field(query.refresh, &pairs, one("refresh"));
    BookContentRequest { chapter_url, book_source_url, book_source: query.book_source, index, refresh }
}

/// How a cache deletion request reads after a form: `chapterUrl`, `url` and `bookUrl`.
pub open spec fn delete_cache_form_applied(
    before: DeleteCacheRequest,
    after: DeleteCacheRequest,
    pairs: Seq<(Seq<char>, Seq<char>)>,
) -> bool {
    &&& opt_view(after.chapter_url) == text_after_form(
        opt_view(before.chapter_url),
        pairs,
        names1("chapterUrl"),
    )
    &&& opt_view(after.url) == text_after_form(opt_view(before.url), pairs, names1("url"))
    &&& opt_view(after.book_url) == text_after_form(opt_view(before.book_url), pairs, names1("bookUrl"))
}

/// The cache deletion request an endpoint works with: the query completed by a
/// JSON body, or overridden by a UTF-8 form body.
pub fn resolve_delete_cache_request(
    query: DeleteCacheRequest,
    body: &[u8],
    json: Option<DeleteCacheRequest>,
) -> (r: DeleteCacheRequest)
    ensures
        body@.len() == 0 ==> r == query,
        body@.len() != 0 && json is Some ==> ({
            let v = json->0;
            &&& r.chapter_url == if query.chapter_url is None {
                v.chapter_url
            } else {
                query.chapter_url
            }
            &&& r.url == if query.url is None {
                v.url
            } else {
                query.url
            }
            &&& r.book_url == if query.book_url is None {
                v.book_url
            } else {
                query.book_url
            }
        }),
        body@.len() != 0 && json is None && !vstd::utf8::valid_utf8(body@) ==> r == query,
        body@.len() != 0 && json is None && vstd::utf8::valid_utf8(body@) ==> delete_cache_form_applied(
            query,
            r,
            form_pairs(body@),
        ),
{
    if body.len() == 0 {
        return query;
    }
    if let Some(v) = json {
        return DeleteCacheRequest {
            chapter_url: if query.chapter_url.is_none() { v.chapter_url } else { query.chapter_url },
            url: if query.url.is_none() { v.url } else { query.url },
            book_url: if query.book_url.is_none() { v.book_url } else { query.book_url },
        };
    }
    if !is_utf8(body) {
        return query;
    }
    let pairs = parse_form(body);
    let chapter_url = text_field(query.chapter_url, &pairs, one("chapterUrl"));
    let url = text_field(query.url, &pairs, one("url"));
    let book_url = text_field(query.book_url, &pairs, one("bookUrl"));
    DeleteCacheRequest { chapter_url, url, book_url }
}

/// How a source switch request reads after a form: `bookUrl` or `url`,
/// `newUrl` and `bookSourceUrl`.
pub open spec fn set_source_form_applied(
    before: SetBookSourceRequest,
    after: SetBookSourceRequest,
    pairs: Seq<(Seq<char>, Seq<char>)>,
) -> bool {
    &&& opt_view(after.book_url) == text_after_form(
        opt_view(before.book_url),
        pairs,
        names2("bookUrl", "url"),
    )
    &&& opt_view(after.new_url) == text_after_form(opt_view(before.new_url), pairs, names1("newUrl"))
    &&& opt_view(after.book_source_url) == text_after_form(
        opt_view(before.book_source_url),
        pairs,
        names1("bookSourceUrl"),
    )
}

/// The source switch request an endpoint works with (as for a search).
pub fn resolve_set_book_source_request(
    query: SetBookSourceRequest,
    body: &[u8],
    json: Option<SetBookSourceRequest>,
) -> (r: SetBookSourceRequest)
    ensures
        body@.len() == 0 ==> r == query,
        body@.len() != 0 && json is Some ==> r == json->0,
        body@.len() != 0 && json is None && !vstd::utf8::valid_utf8(body@) ==> r == query,
        body@.len() != 0 && json is None && vstd::utf8::valid_utf8(body@) ==> set_source_form_applied(
            query,
            r,
            form_pairs(body@),
        ),
{
    if body.len() == 0 {
        return query;
    }
    if let Some(v) = json {
        return v;
    }
    if !is_utf8(body) {
        return query;
    }
    let pairs = parse_form(body);
    let book_url = text_field(query.book_url, &pairs, two("bookUrl", "url"));
    let new_url = text_field(query.new_url, &pairs, one("newUrl"));
    let book_source_url = text_field(query.book_source_url, &pairs, one("bookSourceUrl"));
    SetBookSourceRequest { book_url, new_url, book_source_url }
}

} // verus!
