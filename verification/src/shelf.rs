//! Rules for the books on a user's shelf: filling in details, telling which
//! shelf books a deletion request targets.
use vstd::prelude::*;
use crate::available::books_view;
use crate::local::{is_local_book, is_local_book_of, LocalFormat};
use crate::model::{empty_book_view, opt_view, Book, BookSource, BookView, SearchBook, SearchBookView};
use crate::requests::SetBookSourceRequest;
use crate::text::{chars_of, trim_chars, trim_ws};
use crate::urls::{normalize_source_url, normalized_source_url, repair_encoded_url, repaired_url};

verus! {

/// `target` with every blank name or author and every missing detail taken from
/// `info`; what `target` already has stays.
pub open spec fn merged_book(target: BookView, info: BookView) -> BookView {
    BookView {
        name: if trim_ws(target.name).len() == 0 {
            info.name
        } else {
            target.name
        },
        author: if trim_ws(target.author).len() == 0 {
            info.author
        } else {
            target.author
        },
        cover_url: if target.cover_url is None {
            info.cover_url
        } else {
            target.cover_url
        },
        toc_url: if target.toc_url is None {
            info.toc_url
        } else {
            target.toc_url
        },
        intro: if target.intro is None {
            info.intro
        } else {
            target.intro
        },
        latest_chapter_title: if target.latest_chapter_title is None {
            info.latest_chapter_title
        } else {
            target.latest_chapter_title
        },
        word_count: if target.word_count is None {
            info.word_count
        } else {
            target.word_count
        },
        origin_name: if target.origin_name is None {
            info.origin_name
        } else {
            target.origin_name
        },
        kind: if target.kind is None {
            info.kind
        } else {
            target.kind
        },
        update_time: if target.update_time is None {
            info.update_time
        } else {
            target.update_time
        },
        ..target
    }
}

pub(crate) fn is_blank(s: &String) -> (r: bool)
    ensures
        r == (trim_ws(s@).len() == 0),
{
    trim_chars(&chars_of(s.as_str())).len() == 0
}

/// Fills in what `target` lacks from `info` (see [`merged_book`]).
pub fn merge_book(target: &mut Book, info: Book)
    ensures
        final(target)@ == merged_book(old(target)@, info@),
{
    if is_blank(&target.name) {
        target.name = info.name;
    }
    if is_blank(&target.author) {
        target.author = info.author;
    }
    if target.cover_url.is_none() {
        target.cover_url = info.cover_url;
    }
    if target.toc_url.is_none() {
        target.toc_url = info.toc_url;
    }
    if target.intro.is_none() {
        target.intro = info.intro;
    }
    if target.latest_chapter_title.is_none() {
        target.latest_chapter_title = info.latest_chapter_title;
    }
    if target.word_count.is_none() {
        target.word_count = info.word_count;
    }
    if target.origin_name.is_none() {
        target.origin_name = info.origin_name;
    }
    if target.kind.is_none() {
        target.kind = info.kind;
    }
    if target.update_time.is_none() {
        target.update_time = info.update_time;
    }
}

/// A deletion request for `target` removes `shelf_book`: the same non-empty book
/// URL; or, when neither is an uploaded TXT book, the same non-empty name and author.
pub open spec fn delete_target_matches(shelf_book: BookView, target: BookView) -> bool {
    if target.book_url.len() != 0 && shelf_book.book_url == target.book_url {
        true
    } else if is_local_book_of(LocalFormat::Txt, shelf_book.origin, shelf_book.book_url)
        || is_local_book_of(LocalFormat::Txt, target.origin, target.book_url) {
        false
    } else {
        &&& target.name.len() != 0
        &&& target.author.len() != 0
        &&& shelf_book.name == target.name
        &&& shelf_book.author == target.author
    }
}

/// Whether a deletion request for `target` removes `shelf_book`
/// (see [`delete_target_matches`]).
pub fn book_matches_delete_target(shelf_book: &Book, target: &Book) -> (r: bool)
    ensures
        r == delete_target_matches(shelf_book@, target@),
{
    if !target.book_url.as_str().is_empty() && shelf_book.book_url == target.book_url {
        return true;
    }
    if is_local_book(LocalFormat::Txt, shelf_book.origin.as_str(), shelf_book.book_url.as_str())
        || is_local_book(LocalFormat::Txt, target.origin.as_str(), target.book_url.as_str()) {
        return false;
    }
    !target.name.as_str().is_empty() && !target.author.as_str().is_empty() && shelf_book.name == target.name
        && shelf_book.author == target.author
}

/// A deletion by name and author: when the target's book URL is empty or not
/// the shelf book's, the shelf book is removed only if it has the target's
/// name and author, both non-empty; between books that are not uploaded TXT
/// books, having them is also enough. A shelf book with the target's non-empty
/// URL is always removed.
pub proof fn lemma_delete_by_name_needs_author(shelf_book: BookView, target: BookView)
    ensures
        target.book_url.len() != 0 && shelf_book.book_url == target.book_url ==> delete_target_matches(
            shelf_book,
            target,
        ),
        (target.book_url.len() == 0 || shelf_book.book_url != target.book_url)
            && delete_target_matches(shelf_book, target) ==> {
            &&& shelf_book.name == target.name
            &&& shelf_book.author == target.author
            &&& target.name.len() != 0
            &&& target.author.len() != 0
        },
        !is_local_book_of(LocalFormat::Txt, shelf_book.origin, shelf_book.book_url)
            && !is_local_book_of(LocalFormat::Txt, target.origin, target.book_url)
            && target.name.len() != 0 && target.author.len() != 0
            && shelf_book.name == target.name && shelf_book.author == target.author
            ==> delete_target_matches(shelf_book, target),
{
}

/// A book as the shelf stores it, or why it cannot be stored: it needs a
/// non-blank book URL and a non-blank origin; the URLs are repaired and the
/// origin normalized.
pub open spec fn book_for_save(b: BookView) -> Result<BookView, Seq<char>> {
    if trim_ws(b.book_url).len() == 0 {
        Err("bookUrl required"@)
    } else if trim_ws(b.origin).len() == 0 {
        Err("origin required"@)
    } else {
        Ok(
            BookView {
                book_url: repaired_url(b.book_url),
                origin: normalized_source_url(b.origin),
                toc_url: match b.toc_url {
                    Some(t) => Some(repaired_url(t)),
                    None => None,
                },
                ..b
            },
        )
    }
}

/// A book made ready for the shelf (see [`book_for_save`]).
pub fn prepare_book_for_save(book: Book) -> (r: Result<Book, String>)
    ensures
        match r {
            Ok(b) => book_for_save(book@) == Ok::<BookView, Seq<char>>(b@),
            Err(e) => book_for_save(book@) == Err::<BookView, Seq<char>>(e@),
        },
{
    if is_blank(&book.book_url) {
        return Err("bookUrl required".to_string());
    }
    if is_blank(&book.origin) {
        return Err("origin required".to_string());
    }
    let mut b = book;
    b.book_url = repair_encoded_url(b.book_url.as_str());
    b.origin = normalize_source_url(b.origin.as_str());
    b.toc_url = match &b.toc_url {
        Some(t) => Some(repair_encoded_url(t.as_str())),
        None => None,
    };
    Ok(b)
}

/// Whether a book about to be stored still needs its details read from its
/// source: it has no table of contents URL or a blank name.
pub fn needs_book_info(book: &Book) -> (r: bool)
    ensures
        r == (book.toc_url is None || trim_ws(book.name@).len() == 0),
{
    book.toc_url.is_none() || is_blank(&book.name)
}

/// The books as the shelf stores them, each one as [`book_for_save`] makes it,
/// or the error of the first that cannot be stored.
pub open spec fn books_for_save(bs: Seq<BookView>) -> Result<Seq<BookView>, Seq<char>>
    decreases bs.len(),
{
    if bs.len() == 0 {
        Ok(Seq::empty())
    } else {
        match books_for_save(bs.drop_last()) {
            Err(e) => Err(e),
            Ok(done) => match book_for_save(bs.last()) {
                Err(e) => Err(e),
                Ok(b) => Ok(done.push(b)),
            },
        }
    }
}

/// The views of a list of books.
pub open spec fn shelf_view(v: Seq<Book>) -> Seq<BookView> {
    v.map_values(|b: Book| b@)
}

/// Books made ready for the shelf (see [`books_for_save`]).
pub fn prepare_books_for_save(books: Vec<Book>) -> (r: Result<Vec<Book>, String>)
    ensures
        match r {
            Ok(v) => books_for_save(shelf_view(books@)) == Ok::<Seq<BookView>, Seq<char>>(
                shelf_view(v@),
            ),
            Err(e) => books_for_save(shelf_view(books@)) == Err::<Seq<BookView>, Seq<char>>(e@),
        },
{
    let ghost all = shelf_view(books@);
    let mut out: Vec<Book> = Vec::new();
    let mut i: usize = 0;
    assert(all.take(0) =~= Seq::<BookView>::empty());
    assert(shelf_view(out@) =~= Seq::<BookView>::empty());
    while i < books.len()
        invariant
            i <= books@.len(),
            all == shelf_view(books@),
            books_for_save(all.take(i as int)) == Ok::<Seq<BookView>, Seq<char>>(shelf_view(out@)),
        decreases books.len() - i,
    {
        assert(all.take(i as int + 1).drop_last() == all.take(i as int));
        assert(all.take(i as int + 1).last() == books@[i as int]@);
        match prepare_book_for_save(books[i].copy()) {
            Ok(b) => {
                let ghost before = shelf_view(out@);
                out.push(b);
                assert(shelf_view(out@) =~= before.push(b@));
            },
            Err(e) => {
                proof {
                    lemma_books_for_save_err(all, i as int + 1);
                }
                return Err(e);
            },
        }
        i += 1;
    }
    assert(all.take(books@.len() as int) == all);
    Ok(out)
}

proof fn lemma_books_for_save_err(all: Seq<BookView>, n: int)
    requires
        0 < n <= all.len(),
        books_for_save(all.take(n)) is Err,
    ensures
        books_for_save(all) == books_for_save(all.take(n)),
    decreases all.len() - n,
{
    if n < all.len() {
        assert(all.take(n + 1).drop_last() == all.take(n));
        lemma_books_for_save_err(all, n + 1);
    } else {
        assert(all.take(n) == all);
    }
}

/// The error when the book asked for is not on the shelf.
pub const NOT_ON_SHELF_MESSAGE: &'static str = "书籍未加入书架";

/// The error when the book source asked for is not stored.
pub const NO_SUCH_SOURCE_MESSAGE: &'static str = "书源不存在";

/// The shelf book a change of source or a progress update works on: the one
/// found, else the error that the book is not on the shelf.
pub fn shelf_book_required(found: Option<Book>) -> (r: Result<Book, String>)
    ensures
        match r {
            Ok(b) => found matches Some(f) && b@ == f@,
            Err(e) => found is None && e@ == NOT_ON_SHELF_MESSAGE@,
        },
{
    match found {
        Some(b) => Ok(b),
        None => Err(NOT_ON_SHELF_MESSAGE.to_string()),
    }
}

/// The book source a change of source or a caching run uses: the one found,
/// else the error that it does not exist.
pub fn source_required(found: Option<BookSource>) -> (r: Result<BookSource, String>)
    ensures
        match r {
            Ok(s) => found matches Some(f) && s == f,
            Err(e) => found is None && e@ == NO_SUCH_SOURCE_MESSAGE@,
        },
{
    match found {
        Some(s) => Ok(s),
        None => Err(NO_SUCH_SOURCE_MESSAGE.to_string()),
    }
}

/// After a change of source was saved: the shelf entry to delete, the one
/// under the old URL (a book with only that URL), when the saved book's URL
/// differs from it; none otherwise.
pub fn stale_entry_after_switch(old_book_url: &String, saved: &Book) -> (r: Option<Book>)
    ensures
        match r {
            Some(b) => old_book_url@ != saved.book_url@ && b@ == (BookView {
                book_url: old_book_url@,
                ..empty_book_view()
            }),
            None => old_book_url@ == saved.book_url@,
        },
{
    if *old_book_url != saved.book_url {
        let mut b = Book::default();
        b.book_url = old_book_url.clone();
        Some(b)
    } else {
        None
    }
}

/// The three URLs of a change of source for a shelf book.
#[derive(Debug)]
pub struct BookSourceSwitch {
    /// The shelf book's current URL.
    pub old_book_url: String,
    /// The book's URL in the new source.
    pub new_book_url: String,
    /// The new source's URL.
    pub new_source_url: String,
}

/// A text that counts only when it is there and not blank.
pub open spec fn filled(o: Option<Seq<char>>) -> Option<Seq<char>> {
    match o {
        Some(s) => if trim_ws(s).len() == 0 {
            None
        } else {
            Some(s)
        },
        None => None,
    }
}

fn filled_text(o: &Option<String>) -> (r: Option<String>)
    ensures
        opt_view(r) == filled(opt_view(*o)),
{
    match o {
        Some(s) => if is_blank(s) {
            None
        } else {
            Some(s.clone())
        },
        None => None,
    }
}

/// The URLs of a change of source, or which one is missing or blank (checked
/// in the order book URL, new URL, source URL).
pub fn book_source_switch(req: &SetBookSourceRequest) -> (r: Result<BookSourceSwitch, String>)
    ensures
        match r {
            Ok(s) => {
                &&& filled(opt_view(req.book_url)) == Some(s.old_book_url@)
                &&& filled(opt_view(req.new_url)) == Some(s.new_book_url@)
                &&& filled(opt_view(req.book_source_url)) == Some(s.new_source_url@)
            },
            Err(e) => if filled(opt_view(req.book_url)) is None {
                e@ == "bookUrl required"@
            } else if filled(opt_view(req.new_url)) is None {
                e@ == "newUrl required"@
            } else {
                filled(opt_view(req.book_source_url)) is None && e@ == "bookSourceUrl required"@
            },
        },
{
    let old_book_url = match filled_text(&req.book_url) {
        Some(u) => u,
        None => return Err("bookUrl required".to_string()),
    };
    let new_book_url = match filled_text(&req.new_url) {
        Some(u) => u,
        None => return Err("newUrl required".to_string()),
    };
    let new_source_url = match filled_text(&req.book_source_url) {
        Some(u) => u,
        None => return Err("bookSourceUrl required".to_string()),
    };
    Ok(BookSourceSwitch { old_book_url, new_book_url, new_source_url })
}

/// The first candidate with this book URL.
pub open spec fn candidate_with_url(cands: Seq<SearchBookView>, url: Seq<char>) -> Option<
    SearchBookView,
>
    decreases cands.len(),
{
    if cands.len() == 0 {
        None
    } else if cands[0].book_url == url {
        Some(cands[0])
    } else {
        candidate_with_url(cands.drop_first(), url)
    }
}

/// The first of two optional details that is there.
pub open spec fn or_else(a: Option<Seq<char>>, b: Option<Seq<char>>) -> Option<Seq<char>> {
    if a is Some {
        a
    } else {
        b
    }
}

/// A shelf book moved to another source: the new URL, the source's URL and
/// name, no table of contents yet; then, from the stored candidate with the
/// new URL if there is one, its non-blank name and author and the details it has.
pub open spec fn switched_book(
    shelf: BookView,
    new_book_url: Seq<char>,
    source_url: Seq<char>,
    source_name: Seq<char>,
    candidate: Option<SearchBookView>,
) -> BookView {
    let base = BookView {
        book_url: new_book_url,
        origin: source_url,
        origin_name: Some(source_name),
        toc_url: None,
        ..shelf
    };
    match candidate {
        None => base,
        Some(c) => BookView {
            name: if trim_ws(c.name).len() == 0 {
                base.name
            } else {
                c.name
            },
            author: if trim_ws(c.author).len() == 0 {
                base.author
            } else {
                c.author
            },
            cover_url: or_else(c.cover_url, base.cover_url),
            intro: or_else(c.intro, base.intro),
            kind: or_else(c.kind, base.kind),
            latest_chapter_title: or_else(c.last_chapter, base.latest_chapter_title),
            ..base
        },
    }
}

fn or_else_text(a: &Option<String>, b: &Option<String>) -> (r: Option<String>)
    ensures
        opt_view(r) == or_else(opt_view(*a), opt_view(*b)),
{
    match a {
        Some(x) => Some(x.clone()),
        None => match b {
            Some(y) => Some(y.clone()),
            None => None,
        },
    }
}

fn find_candidate(cands: &Vec<SearchBook>, url: &String) -> (r: Option<usize>)
    ensures
        match r {
            Some(i) => i < cands@.len() && candidate_with_url(books_view(cands@), url@) == Some(
                cands@[i as int]@,
            ),
            None => candidate_with_url(books_view(cands@), url@) is None,
        },
{
    let ghost all = books_view(cands@);
    let mut i: usize = 0;
    assert(all.skip(0) == all);
    while i < cands.len()
        invariant
            i <= cands@.len(),
            all == books_view(cands@),
            candidate_with_url(all, url@) == candidate_with_url(all.skip(i as int), url@),
        decreases cands.len() - i,
    {
        assert(all.skip(i as int)[0] == cands@[i as int]@);
        assert(all.skip(i as int).drop_first() == all.skip(i + 1));
        if cands[i].book_url == *url {
            return Some(i);
        }
        i += 1;
    }
    None
}

/// A shelf book moved to another source (see [`switched_book`]), given the
/// candidates stored for its old URL, if any.
pub fn switch_book_source(
    shelf_book: &Book,
    new_book_url: &String,
    new_source: &BookSource,
    candidates: &Option<Vec<SearchBook>>,
) -> (r: Book)
    ensures
        r@ == switched_book(
            shelf_book@,
            new_book_url@,
            new_source.book_source_url@,
            new_source.book_source_name@,
            match candidates {
                Some(c) => candidate_with_url(books_view(c@), new_book_url@),
                None => None,
            },
        ),
{
    let mut b = shelf_book.copy();
    b.book_url = new_book_url.clone();
    b.origin = new_source.book_source_url.clone();
    b.origin_name = Some(new_source.book_source_name.clone());
    b.toc_url = None;
    if let Some(cands) = candidates {
        if let Some(i) = find_candidate(cands, new_book_url) {
            let c = &cands[i];
            if !is_blank(&c.name) {
                b.name = c.name.clone();
            }
            if !is_blank(&c.author) {
                b.author = c.author.clone();
            }
            b.cover_url = or_else_text(&c.cover_url, &b.cover_url);
            b.intro = or_else_text(&c.intro, &b.intro);
            b.kind = or_else_text(&c.kind, &b.kind);
            b.latest_chapter_title = or_else_text(&c.last_chapter, &b.latest_chapter_title);
        }
    }
    b
}

/// The shelf books that some deletion target removes (see [`delete_target_matches`]),
/// in shelf order.
pub open spec fn books_removed_by(shelf: Seq<BookView>, targets: Seq<BookView>) -> Seq<BookView> {
    shelf.filter(|b: BookView| exists|j: int| 0 <= j < targets.len() && delete_target_matches(b, #[trigger] targets[j]))
}

fn matches_some_target(shelf_book: &Book, targets: &[Book]) -> (r: bool)
    ensures
        r == exists|j: int| 0 <= j < targets@.len() && delete_target_matches(shelf_book@, #[trigger] targets@[j]@),
{
    let mut j: usize = 0;
    while j < targets.len()
        invariant
            j <= targets@.len(),
            forall|m: int| 0 <= m < j ==> !delete_target_matches(shelf_book@, #[trigger] targets@[m]@),
        decreases targets.len() - j,
    {
        if book_matches_delete_target(shelf_book, &targets[j]) {
            return true;
        }
        j += 1;
    }
    false
}

/// The shelf books that a deletion of `targets` removes (see [`books_removed_by`]).
pub fn books_matching_targets(shelf: &[Book], targets: &[Book]) -> (r: Vec<Book>)
    ensures
        shelf_view(r@) == books_removed_by(shelf_view(shelf@), shelf_view(targets@)),
{
    let ghost sv = shelf_view(shelf@);
    let ghost tv = shelf_view(targets@);
    let ghost pred = |b: BookView| exists|j: int| 0 <= j < tv.len() && delete_target_matches(b, #[trigger] tv[j]);
    let mut out: Vec<Book> = Vec::new();
    let mut i: usize = 0;
    proof {
        reveal(Seq::filter);
        assert(sv.take(0).filter(pred) =~= Seq::<BookView>::empty());
        assert(shelf_view(out@) =~= Seq::<BookView>::empty());
    }
    while i < shelf.len()
        invariant
            i <= shelf@.len(),
            sv == shelf_view(shelf@),
            tv == shelf_view(targets@),
            pred == (|b: BookView| exists|j: int| 0 <= j < tv.len() && delete_target_matches(b, #[trigger] tv[j])),
            shelf_view(out@) == sv.take(i as int).filter(pred),
        decreases shelf.len() - i,
    {
        assert(sv.take(i as int + 1).drop_last() == sv.take(i as int));
        let hit = matches_some_target(&shelf[i], targets);
        proof {
            reveal(Seq::filter);
            assert(sv.take(i as int + 1).last() == shelf@[i as int]@);
            if hit {
                let j = choose|j: int| 0 <= j < targets@.len() && delete_target_matches(shelf@[i as int]@, #[trigger] targets@[j]@);
                assert(tv[j] == targets@[j]@);
            } else {
                assert forall|j: int| 0 <= j < tv.len() implies !delete_target_matches(shelf@[i as int]@, #[trigger] tv[j]) by {
                    assert(tv[j] == targets@[j]@);
                }
            }
            assert(pred(shelf@[i as int]@) == hit);
        }
        if hit {
            let ghost before = shelf_view(out@);
            out.push(shelf[i].copy());
            assert(shelf_view(out@) =~= before.push(shelf@[i as int]@));
        }
        i += 1;
    }
    assert(sv.take(shelf@.len() as int) == sv);
    out
}

/// The URLs of removed books whose reading memories are dropped: every
/// non-blank one, in order.
pub open spec fn memory_urls_of(books: Seq<BookView>) -> Seq<Seq<char>> {
    books.filter(|b: BookView| trim_ws(b.book_url).len() != 0).map_values(|b: BookView| b.book_url)
}

/// The URLs of removed books whose reading memories are dropped (see [`memory_urls_of`]).
pub fn memory_book_urls(books: &[Book]) -> (r: Vec<String>)
    ensures
        crate::model::strings_view(r) == memory_urls_of(shelf_view(books@)),
{
    let ghost bv = shelf_view(books@);
    let ghost pred = |b: BookView| trim_ws(b.book_url).len() != 0;
    let mut out: Vec<String> = Vec::new();
    let mut i: usize = 0;
    proof {
        reveal(Seq::filter);
        assert(bv.take(0).filter(pred) =~= Seq::<BookView>::empty());
        assert(crate::model::strings_view(out) =~= Seq::<Seq<char>>::empty());
    }
    while i < books.len()
        invariant
            i <= books@.len(),
            bv == shelf_view(books@),
            pred == (|b: BookView| trim_ws(b.book_url).len() != 0),
            crate::model::strings_view(out) == bv.take(i as int).filter(pred).map_values(
                |b: BookView| b.book_url,
            ),
        decreases books.len() - i,
    {
        proof {
            reveal(Seq::filter);
            assert(bv.take(i as int + 1).drop_last() == bv.take(i as int));
            assert(bv.take(i as int + 1).last() == books@[i as int]@);
        }
        let ghost before = bv.take(i as int).filter(pred);
        if !is_blank(&books[i].book_url) {
            let ghost sb = crate::model::strings_view(out);
            out.push(books[i].book_url.clone());
            assert(crate::model::strings_view(out) =~= sb.push(books@[i as int]@.book_url));
            assert(crate::model::strings_view(out) =~= before.push(books@[i as int]@).map_values(
                |b: BookView| b.book_url,
            ));
        } else {
            assert(crate::model::strings_view(out) =~= before.map_values(|b: BookView| b.book_url));
        }
        i += 1;
    }
    assert(bv.take(books@.len() as int) == bv);
    out
}

/// Filling in details keeps every non-blank name or author and every detail
/// the book already has, and filling in again from the same details changes
/// nothing.
pub proof fn lemma_merged_book(target: BookView, info: BookView)
    ensures
        trim_ws(target.name).len() != 0 ==> merged_book(target, info).name == target.name,
        trim_ws(target.author).len() != 0 ==> merged_book(target, info).author == target.author,
        target.toc_url is Some ==> merged_book(target, info).toc_url == target.toc_url,
        target.cover_url is Some ==> merged_book(target, info).cover_url == target.cover_url,
        target.intro is Some ==> merged_book(target, info).intro == target.intro,
        merged_book(target, info).book_url == target.book_url,
        merged_book(target, info).origin == target.origin,
        merged_book(merged_book(target, info), info) == merged_book(target, info),
{
}

/// A deletion request for a book with a non-empty URL removes that book.
pub proof fn lemma_delete_target_itself(b: BookView)
    requires
        b.book_url.len() != 0,
    ensures
        delete_target_matches(b, b),
{
}

} // verus!
