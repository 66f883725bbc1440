//! Finding the other book sources that carry the same book: matching hits by
//! normalized name and author, limiting and paging what is handed out.
use vstd::prelude::*;
use crate::keyset::KeySet;
use crate::local::{is_local_book, is_local_book_of, LocalFormat};
use crate::model::{Book, BookView, SearchBook, SearchBookView, empty_book_view};
use crate::requests::{AvailableBookSourceResponse, GetAvailableBookSourceRequest};
use crate::text::{
    chars_of, copy_range, remove_white_space, same_chars, starts_with, starts_with_chars,
    string_of, trim_chars, trim_ws, without_white_space,
};
use crate::urls::{normalize_source_url, normalized_source_url, repair_encoded_url, repaired_url};

verus! {

/// How many other sources a paged lookup returns when the client names no limit.
pub const DEFAULT_AVAILABLE_RESULT_LIMIT: usize = 20;

/// The most other sources a paged lookup returns.
pub const MAX_AVAILABLE_RESULT_LIMIT: usize = 100;

/// How many sources are searched at once when the client names no count.
pub const DEFAULT_AVAILABLE_CONCURRENT_COUNT: usize = 8;

/// The most sources searched at once.
pub const MAX_AVAILABLE_CONCURRENT_COUNT: usize = 20;

/// How many other sources a streamed lookup hands out.
pub const AVAILABLE_SOURCE_SSE_RESULT_LIMIT: usize = 20;

/// `x` brought into `[lo, hi]`.
pub open spec fn clamp(x: int, lo: int, hi: int) -> int {
    if x < lo {
        lo
    } else if x > hi {
        hi
    } else {
        x
    }
}

/// The page size of a paged lookup: the requested limit, or 20, brought into `[1, 100]`.
pub open spec fn result_limit_of(requested: Option<i32>) -> int {
    clamp(
        match requested {
            Some(v) => v as int,
            None => DEFAULT_AVAILABLE_RESULT_LIMIT as int,
        },
        1,
        MAX_AVAILABLE_RESULT_LIMIT as int,
    )
}

/// The number of sources searched at once: the requested count, or 8, brought into `[1, 20]`.
pub open spec fn concurrent_count_of(requested: Option<i32>) -> int {
    clamp(
        match requested {
            Some(v) => v as int,
            None => DEFAULT_AVAILABLE_CONCURRENT_COUNT as int,
        },
        1,
        MAX_AVAILABLE_CONCURRENT_COUNT as int,
    )
}

/// The page size of a paged lookup (see [`result_limit_of`]).
pub fn effective_available_result_limit(result_limit: Option<i32>) -> (r: usize)
    ensures
        r as int == result_limit_of(result_limit),
        1 <= r <= MAX_AVAILABLE_RESULT_LIMIT,
{
    let v: i32 = match result_limit {
        Some(v) => v,
        None => 20,
    };
    if v < 1 {
        1
    } else if v > 100 {
        100
    } else {
        v as usize
    }
}

/// The number of sources searched at once (see [`concurrent_count_of`]).
pub fn effective_available_concurrent_count(concurrent_count: Option<i32>) -> (r: usize)
    ensures
        r as int == concurrent_count_of(concurrent_count),
        1 <= r <= MAX_AVAILABLE_CONCURRENT_COUNT,
{
    let v: i32 = match concurrent_count {
        Some(v) => v,
        None => 8,
    };
    if v < 1 {
        1
    } else if v > 20 {
        20
    } else {
        v as usize
    }
}

/// Whether a lookup may answer from the stored candidates: only a first,
/// unpaged request that does not ask for a refresh.
pub fn should_use_available_source_cache(
    refresh: bool,
    result_limit: Option<i32>,
    last_index: Option<i32>,
) -> (r: bool)
    ensures
        r == (!refresh && result_limit is None && last_index is None),
{
    !refresh && result_limit.is_none() && last_index.is_none()
}

/// The book a lookup stands for when the shelf holds none: built from the
/// request's URL, name, author and origin, when the URL and the name are not blank.
pub open spec fn fallback_book_of(
    url: Option<Seq<char>>,
    name: Option<Seq<char>>,
    author: Option<Seq<char>>,
    origin: Option<Seq<char>>,
) -> Option<BookView> {
    match (url, name) {
        (Some(u), Some(n)) => {
            let u = trim_ws(u);
            let n = trim_ws(n);
            if u.len() == 0 || n.len() == 0 {
                None
            } else {
                let o = trim_ws(
                    match origin {
                        Some(o) => o,
                        None => Seq::empty(),
                    },
                );
                Some(
                    BookView {
                        book_url: repaired_url(u),
                        name: n,
                        author: trim_ws(
                            match author {
                                Some(a) => a,
                                None => Seq::empty(),
                            },
                        ),
                        origin: if o.len() == 0 {
                            Seq::empty()
                        } else {
                            normalized_source_url(o)
                        },
                        ..empty_book_view()
                    },
                )
            }
        },
        _ => None,
    }
}

fn trimmed_or_empty(o: &Option<String>) -> (r: Vec<char>)
    ensures
        r@ == trim_ws(
            match crate::model::opt_view(*o) {
                Some(s) => s,
                None => Seq::empty(),
            },
        ),
{
    match o {
        Some(s) => trim_chars(&chars_of(s.as_str())),
        None => {
            let e: Vec<char> = Vec::new();
            proof {
                assert(trim_ws(Seq::<char>::empty()) == Seq::<char>::empty());
            }
            e
        },
    }
}

/// The book a lookup stands for when the shelf holds none (see [`fallback_book_of`]).
pub fn fallback_available_book(req: &GetAvailableBookSourceRequest) -> (r: Option<Book>)
    ensures
        match r {
            Some(b) => fallback_book_of(
                crate::model::opt_view(req.url),
                crate::model::opt_view(req.name),
                crate::model::opt_view(req.author),
                crate::model::opt_view(req.origin),
            ) == Some(b@),
            None => fallback_book_of(
                crate::model::opt_view(req.url),
                crate::model::opt_view(req.name),
                crate::model::opt_view(req.author),
                crate::model::opt_view(req.origin),
            ) is None,
        },
{
    let url = match &req.url {
        Some(u) => u,
        None => return None,
    };
    let name = match &req.name {
        Some(n) => n,
        None => return None,
    };
    let url_t = trim_chars(&chars_of(url.as_str()));
    let name_t = trim_chars(&chars_of(name.as_str()));
    if url_t.len() == 0 || name_t.len() == 0 {
        return None;
    }
    let origin_t = trimmed_or_empty(&req.origin);
    let author_t = trimmed_or_empty(&req.author);
    let url_s = string_of(&url_t);
    let origin = if origin_t.len() == 0 {
        String::new()
    } else {
        let o = string_of(&origin_t);
        normalize_source_url(o.as_str())
    };
    let mut book = Book::default();
    book.book_url = repair_encoded_url(url_s.as_str());
    book.name = string_of(&name_t);
    book.author = string_of(&author_t);
    book.origin = origin;
    Some(book)
}

/// The error when a lookup finds no book to look up sources for.
pub const NO_BOOK_MESSAGE: &'static str = "书籍信息错误";

/// The next step in finding the book a lookup of other sources is for.
#[derive(Debug)]
pub enum ShelfLookupStep {
    /// Look on the shelf for the book with this URL.
    ByUrl(String),
    /// Look on the shelf for the book with this name and author.
    ByNameAuthor(String, String),
    /// The book the lookup is for.
    Found(Book),
    /// No book: the lookup fails with this message.
    Missing(String),
}

/// The last resort of the search for the book: the book the request itself
/// describes (see [`fallback_book_of`]), else the error.
pub open spec fn fallback_step(req: GetAvailableBookSourceRequest, r: ShelfLookupStep) -> bool {
    match fallback_book_of(
        crate::model::opt_view(req.url),
        crate::model::opt_view(req.name),
        crate::model::opt_view(req.author),
        crate::model::opt_view(req.origin),
    ) {
        Some(b) => r matches ShelfLookupStep::Found(x) && x@ == b,
        None => r matches ShelfLookupStep::Missing(m) && m@ == NO_BOOK_MESSAGE@,
    }
}

/// The search for the book once no shelf book has its URL: by name and
/// author when the request gives both, else the last resort.
pub open spec fn name_author_step(req: GetAvailableBookSourceRequest, r: ShelfLookupStep) -> bool {
    match (req.name, req.author) {
        (Some(n), Some(a)) => r matches ShelfLookupStep::ByNameAuthor(x, y) && x@ == n@ && y@ == a@,
        _ => fallback_step(req, r),
    }
}

fn fallback_lookup(req: &GetAvailableBookSourceRequest) -> (r: ShelfLookupStep)
    ensures
        fallback_step(*req, r),
{
    match fallback_available_book(req) {
        Some(b) => ShelfLookupStep::Found(b),
        None => ShelfLookupStep::Missing(NO_BOOK_MESSAGE.to_string()),
    }
}

fn name_author_lookup(req: &GetAvailableBookSourceRequest) -> (r: ShelfLookupStep)
    ensures
        name_author_step(*req, r),
{
    match (&req.name, &req.author) {
        (Some(n), Some(a)) => ShelfLookupStep::ByNameAuthor(n.clone(), a.clone()),
        _ => fallback_lookup(req),
    }
}

/// The first step in finding the book a lookup is for: the shelf book with the
/// request's URL when it gives one, else by name and author.
pub fn shelf_lookup_start(req: &GetAvailableBookSourceRequest) -> (r: ShelfLookupStep)
    ensures
        match req.url {
            Some(u) => r matches ShelfLookupStep::ByUrl(x) && x@ == u@,
            None => name_author_step(*req, r),
        },
{
    match &req.url {
        Some(u) => ShelfLookupStep::ByUrl(u.clone()),
        None => name_author_lookup(req),
    }
}

/// The step after looking for the shelf book by URL: the book found, else by
/// name and author.
pub fn shelf_lookup_after_url(req: &GetAvailableBookSourceRequest, found: Option<Book>) -> (r: ShelfLookupStep)
    ensures
        match found {
            Some(b) => r matches ShelfLookupStep::Found(x) && x@ == b@,
            None => name_author_step(*req, r),
        },
{
    match found {
        Some(b) => ShelfLookupStep::Found(b),
        None => name_author_lookup(req),
    }
}

/// The step after looking for the shelf book by name and author: the book
/// found, else the last resort.
pub fn shelf_lookup_after_name(req: &GetAvailableBookSourceRequest, found: Option<Book>) -> (r: ShelfLookupStep)
    ensures
        match found {
            Some(b) => r matches ShelfLookupStep::Found(x) && x@ == b@,
            None => fallback_step(*req, r),
        },
{
    match found {
        Some(b) => ShelfLookupStep::Found(b),
        None => fallback_lookup(req),
    }
}

/// A page of lookup results: at most the page size of `result_limit`, and
/// `has_more` also when results were cut off.
pub fn build_available_book_source_response(
    books: Vec<SearchBook>,
    last_index: i32,
    has_more: bool,
    result_limit: Option<i32>,
) -> (r: AvailableBookSourceResponse)
    ensures
        r.books@ == books@.take(
            if books@.len() <= result_limit_of(result_limit) {
                books@.len() as int
            } else {
                result_limit_of(result_limit)
            },
        ),
        r.last_index == last_index,
        r.has_more == (has_more || books@.len() > result_limit_of(result_limit)),
{
    let mut books = books;
    let limit = effective_available_result_limit(result_limit);
    let has_more = has_more || books.len() > limit;
    let ghost before = books@;
    books.truncate(limit);
    proof {
        assert(books@ =~= before.take(
            if before.len() <= result_limit_of(result_limit) {
                before.len() as int
            } else {
                result_limit_of(result_limit)
            },
        ));
    }
    AvailableBookSourceResponse { books, last_index, has_more }
}

/// The cached chapter count a shelf book shows: none for uploaded TXT books,
/// whose chapters are never fetched from a remote source.
pub fn cache_count_for_shelf_display(book: &Book, cached_count: usize) -> (r: usize)
    ensures
        r == if is_local_book_of(LocalFormat::Txt, book.origin@, book.book_url@) {
            0
        } else {
            cached_count
        },
{
    if is_local_book(LocalFormat::Txt, book.origin.as_str(), book.book_url.as_str()) {
        0
    } else {
        cached_count
    }
}

/// The key that tells streamed lookup results apart: origin and book URL joined by `::`.
pub open spec fn result_key_of(b: SearchBookView) -> Seq<char> {
    b.origin + seq![':', ':'] + b.book_url
}

/// The key that tells streamed lookup results apart (see [`result_key_of`]).
pub fn available_source_sse_result_key(book: &SearchBook) -> (r: String)
    ensures
        r@ == result_key_of(book@),
{
    let mut k = chars_of(book.origin.as_str());
    k.push(':');
    k.push(':');
    let mut u = chars_of(book.book_url.as_str());
    k.append(&mut u);
    let r = string_of(&k);
    assert(r@ =~= result_key_of(book@));
    r
}

/// A book name compared for equality: without any white space.
pub open spec fn normalized_book_name(s: Seq<char>) -> Seq<char> {
    without_white_space(s)
}

/// Normalizes a book name for comparison (see [`normalized_book_name`]).
pub fn normalize_available_book_name(value: &str) -> (r: String)
    ensures
        r@ == normalized_book_name(value@),
{
    string_of(&remove_white_space(&chars_of(value)))
}

/// The sequence without an author label in front: `作者：`, `作者:` or `作者`.
pub open spec fn strip_author_label(s: Seq<char>) -> Seq<char> {
    if starts_with(s, "作者："@) {
        s.skip("作者："@.len() as int)
    } else if starts_with(s, "作者:"@) {
        s.skip("作者:"@.len() as int)
    } else if starts_with(s, "作者"@) {
        s.skip("作者"@.len() as int)
    } else {
        s
    }
}

/// The sequence without leading colons, full-width or not.
pub open spec fn trim_start_colons(s: Seq<char>) -> Seq<char>
    decreases s.len(),
{
    if s.len() > 0 && (s[0] == '：' || s[0] == ':') {
        trim_start_colons(s.drop_first())
    } else {
        s
    }
}

/// An author compared for equality: without white space, without an author
/// label and leading colons.
pub open spec fn normalized_author(s: Seq<char>) -> Seq<char> {
    trim_ws(trim_start_colons(strip_author_label(without_white_space(s))))
}

fn skip_label(s: &Vec<char>, label: &str) -> (r: Option<Vec<char>>)
    ensures
        match r {
            Some(t) => starts_with(s@, label@) && t@ == s@.skip(label@.len() as int),
            None => !starts_with(s@, label@),
        },
{
    let l = chars_of(label);
    if starts_with_chars(s, &l) {
        let t = copy_range(s, l.len(), s.len());
        assert(t@ =~= s@.skip(label@.len() as int));
        Some(t)
    } else {
        None
    }
}

/// Normalizes an author for comparison (see [`normalized_author`]).
pub fn normalize_available_author(value: &str) -> (r: String)
    ensures
        r@ == normalized_author(value@),
{
    let compact = remove_white_space(&chars_of(value));
    let without_label = match skip_label(&compact, "作者：") {
        Some(t) => t,
        None => match skip_label(&compact, "作者:") {
            Some(t) => t,
            None => match skip_label(&compact, "作者") {
                Some(t) => t,
                None => compact,
            },
        },
    };
    let n = without_label.len();
    let mut i: usize = 0;
    assert(without_label@.subrange(0, n as int) =~= without_label@);
    while i < n && (without_label[i] == '：' || without_label[i] == ':')
        invariant
            n == without_label.len(),
            i <= n,
            trim_start_colons(without_label@) == trim_start_colons(
                without_label@.subrange(i as int, n as int),
            ),
        decreases n - i,
    {
        assert(without_label@.subrange(i as int, n as int).drop_first() =~= without_label@.subrange(
            i + 1,
            n as int,
        ));
        i += 1;
    }
    let rest = copy_range(&without_label, i, n);
    string_of(&trim_chars(&rest))
}

/// A hit is the target book: same normalized name and same normalized author.
pub open spec fn matches_target(b: SearchBookView, name: Seq<char>, author: Seq<char>) -> bool {
    &&& normalized_book_name(b.name) == normalized_book_name(name)
    &&& normalized_author(b.author) == normalized_author(author)
}

/// Whether a hit is the target book (see [`matches_target`]).
pub fn available_source_matches_target(
    book: &SearchBook,
    target_name: &str,
    target_author: &str,
) -> (r: bool)
    ensures
        r == matches_target(book@, target_name@, target_author@),
{
    let a = normalize_available_book_name(book.name.as_str());
    let b = normalize_available_book_name(target_name);
    let c = normalize_available_author(book.author.as_str());
    let d = normalize_available_author(target_author);
    a == b && c == d
}

/// The views of a list of hits.
pub open spec fn books_view(v: Seq<SearchBook>) -> Seq<SearchBookView> {
    v.map_values(|b: SearchBook| b@)
}

/// A hit a lookup accepts: the target book, and not from the excluded source.
pub open spec fn accepts(
    b: SearchBookView,
    name: Seq<char>,
    author: Seq<char>,
    excluded: Option<Seq<char>>,
) -> bool {
    &&& matches_target(b, name, author)
    &&& match excluded {
        Some(o) => b.origin != o,
        None => true,
    }
}

/// The hits a lookup hands out from `books`, in order: accepted hits whose key
/// was not handed out before, until `limit` are taken; and the keys handed out
/// afterwards.
pub open spec fn take_matches(
    books: Seq<SearchBookView>,
    name: Seq<char>,
    author: Seq<char>,
    excluded: Option<Seq<char>>,
    seen: Set<Seq<char>>,
    limit: nat,
) -> (Seq<SearchBookView>, Set<Seq<char>>)
    decreases books.len(),
{
    if books.len() == 0 {
        (Seq::empty(), seen)
    } else {
        let prev = take_matches(books.drop_last(), name, author, excluded, seen, limit);
        let b = books.last();
        if prev.0.len() < limit && accepts(b, name, author, excluded) && !prev.1.contains(
            result_key_of(b),
        ) {
            (prev.0.push(b), prev.1.insert(result_key_of(b)))
        } else {
            prev
        }
    }
}

proof fn lemma_take_matches_len(
    books: Seq<SearchBookView>,
    name: Seq<char>,
    author: Seq<char>,
    excluded: Option<Seq<char>>,
    seen: Set<Seq<char>>,
    limit: nat,
)
    ensures
        take_matches(books, name, author, excluded, seen, limit).0.len() <= limit,
        take_matches(books, name, author, excluded, seen, limit).0.len() <= books.len(),
    decreases books.len(),
{
    if books.len() > 0 {
        lemma_take_matches_len(books.drop_last(), name, author, excluded, seen, limit);
    }
}

/// Once `limit` hits are taken, later books change nothing.
proof fn lemma_take_matches_saturated(
    books: Seq<SearchBookView>,
    i: int,
    name: Seq<char>,
    author: Seq<char>,
    excluded: Option<Seq<char>>,
    seen: Set<Seq<char>>,
    limit: nat,
)
    requires
        0 <= i <= books.len(),
        take_matches(books.take(i), name, author, excluded, seen, limit).0.len() >= limit,
    ensures
        take_matches(books, name, author, excluded, seen, limit) == take_matches(
            books.take(i),
            name,
            author,
            excluded,
            seen,
            limit,
        ),
    decreases books.len() - i,
{
    if i < books.len() {
        lemma_take_matches_len(books.take(i), name, author, excluded, seen, limit);
        assert(books.take(i + 1).drop_last() == books.take(i));
        lemma_take_matches_saturated(books, i + 1, name, author, excluded, seen, limit);
    } else {
        assert(books.take(i) == books);
    }
}

/// The shared loop of the two lookups: hands out the accepted hits of `books`
/// whose keys are not in `seen`, until `limit` are taken.
fn take_source_matches(
    books: &Vec<SearchBook>,
    target_name: &str,
    target_author: &str,
    excluded_origin: Option<&str>,
    seen: &mut KeySet,
    limit: usize,
) -> (r: Vec<SearchBook>)
    ensures
        (books_view(r@), final(seen)@) == take_matches(
            books_view(books@),
            target_name@,
            target_author@,
            match excluded_origin {
                Some(s) => Some(s@),
                None => None,
            },
            old(seen)@,
            limit as nat,
        ),
{
    let ghost excluded = match excluded_origin {
        Some(s) => Some(s@),
        None => None,
    };
    let ghost all = books_view(books@);
    let mut matches: Vec<SearchBook> = Vec::new();
    let mut i: usize = 0;
    while i < books.len()
        invariant
            i <= books.len(),
            all == books_view(books@),
            excluded == match excluded_origin {
                Some(s) => Some(s@),
                None => None,
            },
            (books_view(matches@), seen@) == take_matches(
                all.take(i as int),
                target_name@,
                target_author@,
                excluded,
                old(seen)@,
                limit as nat,
            ),
        decreases books.len() - i,
    {
        assert(all.take(i as int + 1).drop_last() == all.take(i as int));
        assert(all.take(i as int + 1).last() == books@[i as int]@);
        let ghost prev = take_matches(
            all.take(i as int),
            target_name@,
            target_author@,
            excluded,
            old(seen)@,
            limit as nat,
        );
        let ghost next = take_matches(
            all.take(i as int + 1),
            target_name@,
            target_author@,
            excluded,
            old(seen)@,
            limit as nat,
        );
        if matches.len() >= limit {
            proof {
                lemma_take_matches_saturated(
                    all,
                    i as int,
                    target_name@,
                    target_author@,
                    excluded,
                    old(seen)@,
                    limit as nat,
                );
                assert(all.take(books@.len() as int) == all);
            }
            assert(books_view(matches@).len() == matches@.len());
            return matches;
        }
        let book = &books[i];
        let is_target = available_source_matches_target(book, target_name, target_author);
        let not_excluded = match excluded_origin {
            Some(origin) => !same_chars(&chars_of(book.origin.as_str()), &chars_of(origin)),
            None => true,
        };
        assert(is_target == matches_target(books@[i as int]@, target_name@, target_author@));
        assert(not_excluded == match excluded {
            Some(o) => books@[i as int]@.origin != o,
            None => true,
        });
        let wanted = is_target && not_excluded;
        assert(wanted == accepts(books@[i as int]@, target_name@, target_author@, excluded));
        if wanted {
            let key = available_source_sse_result_key(book);
            if seen.insert(key) {
                let ghost before = matches@;
                matches.push(book.copy());
                proof {
                    assert(books_view(matches@) =~= books_view(before).push(books@[i as int]@));
                }
                assert((books_view(matches@), seen@) == next);
            } else {
                assert((books_view(matches@), seen@) == next);
            }
        } else {
            assert((books_view(matches@), seen@) == next);
        }
        i += 1;
    }
    assert(all.take(books@.len() as int) == all);
    matches
}

/// The stored candidates a lookup answers with: hits of the target book, not
/// from the excluded source, each origin and URL once, at most `limit`.
pub fn take_available_source_cached_matches(
    cached: Vec<SearchBook>,
    excluded_origin: Option<&str>,
    target_name: &str,
    target_author: &str,
    limit: usize,
) -> (r: Vec<SearchBook>)
    ensures
        books_view(r@) == take_matches(
            books_view(cached@),
            target_name@,
            target_author@,
            match excluded_origin {
                Some(s) => Some(s@),
                None => None,
            },
            Set::empty(),
            limit as nat,
        ).0,
{
    let mut seen = KeySet::new();
    take_source_matches(&cached, target_name, target_author, excluded_origin, &mut seen, limit)
}

/// What a lookup answers from the candidates stored for its book, when they
/// could be read: every stored hit of the book, each origin and URL once.
/// When they could not be read it answers nothing from them, and the sources
/// are searched.
pub fn lookup_stored_answer(stored: Option<Vec<SearchBook>>, name: &str, author: &str) -> (r: Option<
    Vec<SearchBook>,
>)
    ensures
        match stored {
            Some(c) => r matches Some(v) && books_view(v@) == take_matches(
                books_view(c@),
                name@,
                author@,
                None,
                Set::empty(),
                usize::MAX as nat,
            ).0,
            None => r is None,
        },
{
    match stored {
        Some(c) => Some(take_available_source_cached_matches(c, None, name, author, usize::MAX)),
        None => None,
    }
}

/// The source a streamed lookup leaves out: the shelf book's own origin; from
/// stored candidates only when that origin is not blank.
pub open spec fn stream_excluded(book: BookView, from_stored: bool) -> Option<Seq<char>> {
    if from_stored && trim_ws(book.origin).len() == 0 {
        None
    } else {
        Some(book.origin)
    }
}

/// The source a streamed lookup leaves out (see [`stream_excluded`]).
pub fn stream_excluded_origin(book: &Book, from_stored: bool) -> (r: Option<String>)
    ensures
        crate::model::opt_view(r) == stream_excluded(book@, from_stored),
{
    if from_stored && trim_chars(&chars_of(book.origin.as_str())).len() == 0 {
        None
    } else {
        Some(book.origin.clone())
    }
}

/// What a streamed lookup answers from the candidates stored for its book (none
/// when they could not be read): the stored hits of the book, not from the
/// book's own source, each origin and URL once, at most the streamed limit;
/// nothing when none is left, and the sources are searched then.
pub fn stream_stored_answer(stored: Option<Vec<SearchBook>>, book: &Book) -> (r: Option<Vec<SearchBook>>)
    ensures
        ({
            let hits = match stored {
                Some(c) => books_view(c@),
                None => Seq::empty(),
            };
            let taken = take_matches(
                hits,
                book.name@,
                book.author@,
                stream_excluded(book@, true),
                Set::empty(),
                AVAILABLE_SOURCE_SSE_RESULT_LIMIT as nat,
            ).0;
            if taken.len() == 0 {
                r is None
            } else {
                r matches Some(v) && books_view(v@) == taken
            }
        }),
{
    let list = match stored {
        Some(c) => c,
        None => {
            let e: Vec<SearchBook> = Vec::new();
            assert(books_view(e@) =~= Seq::<SearchBookView>::empty());
            e
        },
    };
    let excluded = stream_excluded_origin(book, true);
    let taken = match &excluded {
        Some(o) => take_available_source_cached_matches(
            list,
            Some(o.as_str()),
            book.name.as_str(),
            book.author.as_str(),
            AVAILABLE_SOURCE_SSE_RESULT_LIMIT,
        ),
        None => take_available_source_cached_matches(
            list,
            None,
            book.name.as_str(),
            book.author.as_str(),
            AVAILABLE_SOURCE_SSE_RESULT_LIMIT,
        ),
    };
    if taken.len() == 0 {
        None
    } else {
        Some(taken)
    }
}

/// The hits a streamed lookup hands out from one source's results: hits of the
/// target book, not from the excluded source, whose origin and URL were not handed
/// out before (`seen`), at most `limit`; `seen` gains their keys.
pub fn take_available_source_sse_matches(
    books: Vec<SearchBook>,
    target_name: &str,
    target_author: &str,
    excluded_origin: Option<&str>,
    seen: &mut KeySet,
    limit: usize,
) -> (r: Vec<SearchBook>)
    ensures
        (books_view(r@), final(seen)@) == take_matches(
            books_view(books@),
            target_name@,
            target_author@,
            match excluded_origin {
                Some(s) => Some(s@),
                None => None,
            },
            old(seen)@,
            limit as nat,
        ),
{
    if limit == 0 {
        proof {
            lemma_take_matches_zero(
                books_view(books@),
                target_name@,
                target_author@,
                match excluded_origin {
                    Some(s) => Some(s@),
                    None => None,
                },
                old(seen)@,
            );
        }
        return Vec::new();
    }
    take_source_matches(&books, target_name, target_author, excluded_origin, seen, limit)
}

proof fn lemma_take_matches_zero(
    books: Seq<SearchBookView>,
    name: Seq<char>,
    author: Seq<char>,
    excluded: Option<Seq<char>>,
    seen: Set<Seq<char>>,
)
    ensures
        take_matches(books, name, author, excluded, seen, 0) == (Seq::<SearchBookView>::empty(), seen),
    decreases books.len(),
{
    if books.len() > 0 {
        lemma_take_matches_zero(books.drop_last(), name, author, excluded, seen);
    }
}

/// A lookup hands out at most `limit` hits, only accepted ones, none whose
/// key was handed out before and no key twice; afterwards the handed-out keys
/// are exactly those before and those of the hits.
pub proof fn lemma_take_matches(
    books: Seq<SearchBookView>,
    name: Seq<char>,
    author: Seq<char>,
    excluded: Option<Seq<char>>,
    seen: Set<Seq<char>>,
    limit: nat,
)
    ensures
        ({
            let (out, after) = take_matches(books, name, author, excluded, seen, limit);
            &&& out.len() <= limit
            &&& forall|i: int| 0 <= i < out.len() ==> accepts(#[trigger] out[i], name, author, excluded)
            &&& forall|i: int| 0 <= i < out.len() ==> !seen.contains(result_key_of(#[trigger] out[i]))
            &&& forall|i: int, j: int|
                0 <= i < j < out.len() ==> result_key_of(#[trigger] out[i]) != result_key_of(
                    #[trigger] out[j],
                )
            &&& forall|k: Seq<char>|
                #[trigger] after.contains(k) <==> (seen.contains(k) || exists|i: int|
                    0 <= i < out.len() && result_key_of(#[trigger] out[i]) == k)
        }),
    decreases books.len(),
{
    lemma_take_matches_len(books, name, author, excluded, seen, limit);
    if books.len() > 0 {
        let t = books.drop_last();
        lemma_take_matches(t, name, author, excluded, seen, limit);
        let (po, pa) = take_matches(t, name, author, excluded, seen, limit);
        let b = books.last();
        let (out, after) = take_matches(books, name, author, excluded, seen, limit);
        if po.len() < limit && accepts(b, name, author, excluded) && !pa.contains(result_key_of(b)) {
            assert(out == po.push(b));
            assert forall|i: int| 0 <= i < out.len() implies accepts(#[trigger] out[i], name, author, excluded) by {
                if i < po.len() {
                    assert(out[i] == po[i]);
                }
            }
            assert forall|i: int| 0 <= i < out.len() implies !seen.contains(
                result_key_of(#[trigger] out[i]),
            ) by {
                if i < po.len() {
                    assert(out[i] == po[i]);
                }
            }
            assert forall|i: int, j: int| 0 <= i < j < out.len() implies result_key_of(
                #[trigger] out[i],
            ) != result_key_of(#[trigger] out[j]) by {
                assert(out[i] == po[i]);
                if j < po.len() {
                    assert(out[j] == po[j]);
                } else {
                    assert(pa.contains(result_key_of(po[i])));
                }
            }
            assert forall|k: Seq<char>| #[trigger] after.contains(k) <==> (seen.contains(k) || exists|i: int|
                0 <= i < out.len() && result_key_of(#[trigger] out[i]) == k) by {
                if exists|i: int| 0 <= i < out.len() && result_key_of(#[trigger] out[i]) == k {
                    let i = choose|i: int| 0 <= i < out.len() && result_key_of(#[trigger] out[i]) == k;
                    if i < po.len() {
                        assert(out[i] == po[i]);
                    }
                }
                if pa.contains(k) && !seen.contains(k) {
                    let i = choose|i: int| 0 <= i < po.len() && result_key_of(#[trigger] po[i]) == k;
                    assert(out[i] == po[i]);
                }
                if k == result_key_of(b) {
                    assert(out[out.len() - 1] == b);
                }
            }
        }
    }
}

/// The page size and the number of sources searched at once stay in their bounds.
pub proof fn lemma_lookup_limits(result_limit: Option<i32>, concurrent_count: Option<i32>)
    ensures
        1 <= result_limit_of(result_limit) <= MAX_AVAILABLE_RESULT_LIMIT,
        1 <= concurrent_count_of(concurrent_count) <= MAX_AVAILABLE_CONCURRENT_COUNT,
{
}

/// The book a lookup stands for when the shelf holds none has a non-blank URL
/// and name, and only then exists.
pub proof fn lemma_fallback_book(
    url: Option<Seq<char>>,
    name: Option<Seq<char>>,
    author: Option<Seq<char>>,
    origin: Option<Seq<char>>,
)
    ensures
        fallback_book_of(url, name, author, origin) is Some <==> (url is Some && name is Some
            && trim_ws(url->0).len() != 0 && trim_ws(name->0).len() != 0),
        fallback_book_of(url, name, author, origin) is Some ==> fallback_book_of(
            url,
            name,
            author,
            origin,
        )->0.name.len() != 0,
{
}

} // verus!
