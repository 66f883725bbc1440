//! Deciding where a book's details, chapter list and chapter text come from:
//! an uploaded book of some format, or a remote book source.
use vstd::prelude::*;
use crate::local::{is_local_origin, is_local_origin_of, is_local_url, is_local_url_of, LocalFormat};
use crate::model::{opt_view, Book, BookView};
use crate::numbers::{decimal, push_decimal};
use crate::requests::{
    BookContentRequest, BookInfoRequest, CacheBookRequest, ChapterListRequest,
    SaveBookProgressRequest,
};
use crate::text::{chars_of, contains_chars, has_substring, starts_with, string_of};
use crate::urls::{repair_encoded_url, repaired_url};

verus! {

/// Whether the given origin or one of the given URLs marks an uploaded book of format `f`.
pub open spec fn marks_format(
    f: LocalFormat,
    origin: Option<Seq<char>>,
    url_a: Option<Seq<char>>,
    url_b: Option<Seq<char>>,
) -> bool {
    ||| origin matches Some(o) && is_local_origin_of(f, o)
    ||| url_a matches Some(u) && is_local_url_of(f, u)
    ||| url_b matches Some(u) && is_local_url_of(f, u)
}

/// The first format, of TXT, EPUB, PDF and MOBI, that the origin or URLs mark.
pub open spec fn marked_format(
    origin: Option<Seq<char>>,
    url_a: Option<Seq<char>>,
    url_b: Option<Seq<char>>,
) -> Option<LocalFormat> {
    if marks_format(LocalFormat::Txt, origin, url_a, url_b) {
        Some(LocalFormat::Txt)
    } else if marks_format(LocalFormat::Epub, origin, url_a, url_b) {
        Some(LocalFormat::Epub)
    } else if marks_format(LocalFormat::Pdf, origin, url_a, url_b) {
        Some(LocalFormat::Pdf)
    } else if marks_format(LocalFormat::Mobi, origin, url_a, url_b) {
        Some(LocalFormat::Mobi)
    } else {
        None
    }
}

fn marks(f: LocalFormat, origin: &Option<String>, url_a: &Option<String>, url_b: &Option<String>) -> (r:
    bool)
    ensures
        r == marks_format(f, opt_view(*origin), opt_view(*url_a), opt_view(*url_b)),
{
    let by_origin = match origin {
        Some(o) => is_local_origin(f, o.as_str()),
        None => false,
    };
    let by_a = match url_a {
        Some(u) => is_local_url(f, u.as_str()),
        None => false,
    };
    let by_b = match url_b {
        Some(u) => is_local_url(f, u.as_str()),
        None => false,
    };
    by_origin || by_a || by_b
}

/// The first format that the origin or URLs mark (see [`marked_format`]).
pub fn find_marked_format(origin: &Option<String>, url_a: &Option<String>, url_b: &Option<String>) -> (r:
    Option<LocalFormat>)
    ensures
        r == marked_format(opt_view(*origin), opt_view(*url_a), opt_view(*url_b)),
{
    if marks(LocalFormat::Txt, origin, url_a, url_b) {
        Some(LocalFormat::Txt)
    } else if marks(LocalFormat::Epub, origin, url_a, url_b) {
        Some(LocalFormat::Epub)
    } else if marks(LocalFormat::Pdf, origin, url_a, url_b) {
        Some(LocalFormat::Pdf)
    } else if marks(LocalFormat::Mobi, origin, url_a, url_b) {
        Some(LocalFormat::Mobi)
    } else {
        None
    }
}

/// Where a book's details come from.
#[derive(Debug)]
pub enum BookInfoTarget {
    /// An uploaded book of this format, at this URL.
    Local { format: LocalFormat, url: String },
    /// A book of a remote source, at this URL.
    Remote { url: String },
}

/// Decides where a book's details come from: the URL is required and repaired;
/// a URL or origin that marks an uploaded format selects it.
pub fn plan_book_info(req: &BookInfoRequest) -> (r: Result<BookInfoTarget, String>)
    ensures
        match r {
            Err(msg) => req.url is None && msg@ == "url required"@,
            Ok(BookInfoTarget::Local { format, url }) => req.url matches Some(u) && url@ == repaired_url(
                u@,
            ) && marked_format(opt_view(req.book_source_url), Some(url@), None) == Some(format),
            Ok(BookInfoTarget::Remote { url }) => req.url matches Some(u) && url@ == repaired_url(
                u@,
            ) && marked_format(opt_view(req.book_source_url), Some(url@), None) is None,
        },
{
    let raw = match &req.url {
        Some(u) => u,
        None => return Err("url required".to_string()),
    };
    let url = repair_encoded_url(raw.as_str());
    let repaired = Some(url);
    match find_marked_format(&req.book_source_url, &repaired, &None) {
        Some(format) => match repaired {
            Some(url) => Ok(BookInfoTarget::Local { format, url }),
            None => Err("url required".to_string()),
        },
        None => match repaired {
            Some(url) => Ok(BookInfoTarget::Remote { url }),
            None => Err("url required".to_string()),
        },
    }
}

/// Where a chapter list comes from.
#[derive(Debug)]
pub enum ChapterListTarget {
    /// The chapters of an uploaded book of this format, at this URL.
    Local { format: LocalFormat, url: String },
    /// The chapter list at this table-of-contents URL of a remote source.
    Toc { toc_url: String },
    /// The chapter list of the remote book at this URL, whose details name the
    /// table-of-contents URL (the book URL itself when they name none).
    ViaBook { book_url: String },
    /// Neither a table-of-contents URL nor a book URL was given.
    Missing,
}

/// How a chapter list request is served.
#[derive(Debug)]
pub struct ChapterListPlan {
    /// Whether cached chapter lists are dropped and fetched anew.
    pub refresh: bool,
    pub target: ChapterListTarget,
}

/// Decides where a chapter list comes from: an uploaded format marked by the
/// origin, the book URL or the table-of-contents URL (whose book URL, else
/// table-of-contents URL, repaired, is required); else the repaired
/// table-of-contents URL, else the book's details at the repaired book URL.
pub fn plan_chapter_list(req: &ChapterListRequest) -> (r: Result<ChapterListPlan, String>)
    ensures
        match r {
            Err(msg) => msg@ == "tocUrl or bookUrl required"@ && req.book_url is None && req.toc_url is None
                && marked_format(opt_view(req.book_source_url), None, None) is Some,
            Ok(plan) => {
                &&& plan.refresh == (match req.refresh {
                    Some(v) => v,
                    None => 0,
                } > 0)
                &&& match marked_format(
                    opt_view(req.book_source_url),
                    opt_view(req.book_url),
                    opt_view(req.toc_url),
                ) {
                    Some(f) => plan.target matches ChapterListTarget::Local { format, url } && format
                        == f && url@ == repaired_url(
                        match opt_view(req.book_url) {
                            Some(b) => b,
                            None => opt_view(req.toc_url)->0,
                        },
                    ),
                    None => match (opt_view(req.toc_url), opt_view(req.book_url)) {
                        (Some(t), _) => plan.target matches ChapterListTarget::Toc { toc_url } && toc_url@
                            == repaired_url(t),
                        (None, Some(b)) => plan.target matches ChapterListTarget::ViaBook { book_url }
                            && book_url@ == repaired_url(b),
                        (None, None) => plan.target is Missing,
                    },
                }
            },
        },
{
    let refresh = match req.refresh {
        Some(v) => v,
        None => 0,
    } > 0;
    match find_marked_format(&req.book_source_url, &req.book_url, &req.toc_url) {
        Some(format) => {
            let url = match &req.book_url {
                Some(b) => b,
                None => match &req.toc_url {
                    Some(t) => t,
                    None => return Err("tocUrl or bookUrl required".to_string()),
                },
            };
            Ok(
                ChapterListPlan {
                    refresh,
                    target: ChapterListTarget::Local { format, url: repair_encoded_url(url.as_str()) },
                },
            )
        },
        None => {
            let target = match &req.toc_url {
                Some(t) => ChapterListTarget::Toc { toc_url: repair_encoded_url(t.as_str()) },
                None => match &req.book_url {
                    Some(b) => ChapterListTarget::ViaBook { book_url: repair_encoded_url(b.as_str()) },
                    None => ChapterListTarget::Missing,
                },
            };
            Ok(ChapterListPlan { refresh, target })
        },
    }
}

/// The table-of-contents URL named by a book's details, else the book URL, repaired.
pub fn toc_url_of_book(book_url: &str, info_toc_url: &Option<String>) -> (r: String)
    ensures
        r@ == repaired_url(
            match opt_view(*info_toc_url) {
                Some(t) => t,
                None => book_url@,
            },
        ),
{
    match info_toc_url {
        Some(t) => repair_encoded_url(t.as_str()),
        None => repair_encoded_url(book_url),
    }
}

/// The sequence without its trailing `#` characters.
pub open spec fn trim_trailing_hashes(s: Seq<char>) -> Seq<char>
    decreases s.len(),
{
    if s.len() > 0 && s.last() == '#' {
        trim_trailing_hashes(s.drop_last())
    } else {
        s
    }
}

/// The chapter address of an uploaded book: a URL of the format without a
/// fragment gets `#` and the chapter index (0 when none, negative taken as 0)
/// after its repaired form stripped of trailing `#`; any other URL is repaired.
pub open spec fn local_chapter_url(f: LocalFormat, url: Seq<char>, index: Option<i32>) -> Seq<char> {
    if is_local_url_of(f, url) && !url.contains('#') {
        let i = match index {
            Some(v) => if v < 0 {
                0
            } else {
                v as int
            },
            None => 0,
        };
        trim_trailing_hashes(repaired_url(url)).push('#') + decimal(i as nat)
    } else {
        repaired_url(url)
    }
}

fn has_hash(s: &Vec<char>) -> (r: bool)
    ensures
        r == s@.contains('#'),
{
    let mut i: usize = 0;
    while i < s.len()
        invariant
            i <= s.len(),
            forall|j: int| 0 <= j < i ==> s@[j] != '#',
        decreases s.len() - i,
    {
        if s[i] == '#' {
            return true;
        }
        i += 1;
    }
    false
}

fn build_local_chapter_url(f: LocalFormat, url: &str, index: Option<i32>) -> (r: String)
    ensures
        r@ == local_chapter_url(f, url@, index),
{
    let chars = chars_of(url);
    if is_local_url(f, url) && !has_hash(&chars) {
        let i: i32 = match index {
            Some(v) => if v < 0 {
                0
            } else {
                v
            },
            None => 0,
        };
        let repaired = chars_of(repair_encoded_url(url).as_str());
        let mut j: usize = repaired.len();
        assert(repaired@.subrange(0, j as int) =~= repaired@);
        while j > 0 && repaired[j - 1] == '#'
            invariant
                j <= repaired.len(),
                trim_trailing_hashes(repaired@) == trim_trailing_hashes(repaired@.subrange(0, j as int)),
            decreases j,
        {
            assert(repaired@.subrange(0, j as int).drop_last() =~= repaired@.subrange(0, j - 1));
            j -= 1;
        }
        let mut out = crate::text::copy_range(&repaired, 0, j);
        out.push('#');
        push_decimal(i as u64, &mut out);
        string_of(&out)
    } else {
        repair_encoded_url(url)
    }
}

/// What a chapter content request reads.
#[derive(Debug)]
pub enum ContentTarget {
    /// A chapter of an uploaded book of this format, at this chapter address.
    Local { format: LocalFormat, chapter_url: String },
    /// The chapter at this index of the remote book at this URL.
    ByIndex { book_url: String, index: i32 },
    /// The remote chapter at this URL.
    ByChapterUrl { chapter_url: String },
}

/// How a chapter content request is served.
#[derive(Debug)]
pub struct ContentPlan {
    /// Whether cached content is dropped and fetched anew.
    pub refresh: bool,
    pub target: ContentTarget,
}

/// Decides what a content request reads: the chapter URL is required; an
/// uploaded format marked by the origin or the chapter URL selects its chapter
/// address; a remote URL with an index and without `/read/` or `/chapter/` is
/// a book URL whose chapter at that index is read; any other is a chapter URL.
pub fn plan_book_content(req: &BookContentRequest) -> (r: Result<ContentPlan, String>)
    ensures
        match r {
            Err(msg) => msg@ == "chapterUrl required"@ && req.chapter_url is None,
            Ok(plan) => req.chapter_url matches Some(u) && {
                &&& plan.refresh == (match req.refresh {
                    Some(v) => v,
                    None => 0,
                } > 0)
                &&& match marked_format(opt_view(req.book_source_url), Some(u@), None) {
                    Some(f) => plan.target matches ContentTarget::Local { format, chapter_url } && format
                        == f && chapter_url@ == local_chapter_url(f, u@, req.index),
                    None => if req.index is Some && !has_substring(u@, "/read/"@) && !has_substring(
                        u@,
                        "/chapter/"@,
                    ) {
                        plan.target matches ContentTarget::ByIndex { book_url, index } && book_url@
                            == u@ && index == req.index->0
                    } else {
                        plan.target matches ContentTarget::ByChapterUrl { chapter_url } && chapter_url@
                            == u@
                    },
                }
            },
        },
{
    let refresh = match req.refresh {
        Some(v) => v,
        None => 0,
    } > 0;
    let url = match &req.chapter_url {
        Some(u) => u,
        None => return Err("chapterUrl required".to_string()),
    };
    match find_marked_format(&req.book_source_url, &req.chapter_url, &None) {
        Some(format) => Ok(
            ContentPlan {
                refresh,
                target: ContentTarget::Local {
                    format,
                    chapter_url: build_local_chapter_url(format, url.as_str(), req.index),
                },
            },
        ),
        None => {
            let chars = chars_of(url.as_str());
            let by_index = match req.index {
                Some(index) => if !contains_chars(&chars, &chars_of("/read/")) && !contains_chars(
                    &chars,
                    &chars_of("/chapter/"),
                ) {
                    Some(index)
                } else {
                    None
                },
                None => None,
            };
            let target = match by_index {
                Some(index) => ContentTarget::ByIndex { book_url: url.clone(), index },
                None => ContentTarget::ByChapterUrl { chapter_url: url.clone() },
            };
            Ok(ContentPlan { refresh, target })
        },
    }
}

/// Whether a chapter index (read as an unsigned index) falls in a list of `len` chapters.
pub open spec fn index_in_range(index: i32, len: usize) -> bool {
    (index as usize) < len
}

/// Whether a chapter index falls in a list of `len` chapters (see [`index_in_range`]).
pub fn chapter_index_in_range(index: i32, len: usize) -> (r: bool)
    ensures
        r == index_in_range(index, len),
{
    (index as usize) < len
}

/// The message for a chapter index beyond the list:
/// `chapter index out of range (max: N)`.
pub open spec fn out_of_range_message(len: usize) -> Seq<char> {
    "chapter index out of range (max: "@ + decimal(len as nat) + ")"@
}

/// The message for a chapter index beyond the list (see [`out_of_range_message`]).
pub fn chapter_index_out_of_range_message(len: usize) -> (r: String)
    ensures
        r@ == out_of_range_message(len),
{
    let mut out = chars_of("chapter index out of range (max: ");
    push_decimal(len as u64, &mut out);
    let mut close = chars_of(")");
    out.append(&mut close);
    let r = string_of(&out);
    assert(r@ =~= out_of_range_message(len));
    r
}

/// What a request for the chapter at an index of a book does with the chapter
/// list it read.
#[derive(Debug)]
pub enum IndexedChapter {
    /// The chapter at the index: read its content at this URL.
    Found(String),
    /// The index is beyond the list, which may be a partial one: read the
    /// whole list again, refreshed, and decide on that.
    ReadFullList,
    /// The index is beyond the whole list: the request fails with this message.
    OutOfRange(String),
}

/// The chapter at `index` of a book's chapter list (given by its URLs): found
/// when in range; else, after the list read first, the whole list is read
/// again, and after that one the request fails.
pub fn indexed_chapter_step(index: i32, urls: &Vec<String>, full_list: bool) -> (r: IndexedChapter)
    ensures
        match r {
            IndexedChapter::Found(u) => index_in_range(index, urls@.len() as usize) && u@
                == urls@[index as usize as int]@,
            IndexedChapter::ReadFullList => !index_in_range(index, urls@.len() as usize)
                && !full_list,
            IndexedChapter::OutOfRange(m) => !index_in_range(index, urls@.len() as usize)
                && full_list && m@ == out_of_range_message(urls@.len() as usize),
        },
{
    if chapter_index_in_range(index, urls.len()) {
        IndexedChapter::Found(urls[index as usize].clone())
    } else if !full_list {
        IndexedChapter::ReadFullList
    } else {
        IndexedChapter::OutOfRange(chapter_index_out_of_range_message(urls.len()))
    }
}

/// The book and chapter index of a progress update: the URL (or book URL, or
/// the search hit's book URL), repaired, and the index; both are required.
pub fn progress_target(req: &SaveBookProgressRequest) -> (r: Result<(String, i32), String>)
    ensures
        match r {
            Ok((url, index)) => {
                let given = match opt_view(req.url) {
                    Some(u) => Some(u),
                    None => match opt_view(req.book_url) {
                        Some(u) => Some(u),
                        None => match req.search_book {
                            Some(s) => opt_view(s.book_url),
                            None => None,
                        },
                    },
                };
                given is Some && url@ == repaired_url(given->0) && req.index == Some(index)
            },
            Err(msg) => {
                let given = match req.url {
                    Some(_) => true,
                    None => match req.book_url {
                        Some(_) => true,
                        None => match req.search_book {
                            Some(s) => s.book_url is Some,
                            None => false,
                        },
                    },
                };
                (!given && msg@ == "url required"@) || (given && req.index is None && msg@
                    == "index required"@)
            },
        },
{
    let url = match &req.url {
        Some(u) => u,
        None => match &req.book_url {
            Some(u) => u,
            None => match &req.search_book {
                Some(s) => match &s.book_url {
                    Some(u) => u,
                    None => return Err("url required".to_string()),
                },
                None => return Err("url required".to_string()),
            },
        },
    };
    let url = repair_encoded_url(url.as_str());
    match req.index {
        Some(index) => Ok((url, index)),
        None => Err("index required".to_string()),
    }
}

/// Where a progress update finds the chapter titles of a shelf book.
#[derive(Debug, PartialEq, Eq, Structural)]
pub enum ProgressChapters {
    /// The chapters of an uploaded book of this format.
    Local(LocalFormat),
    /// The chapters of the book's remote source, at its table-of-contents URL.
    Remote,
    /// A remote book without a table-of-contents URL: no titles are read.
    NoTitles,
}

/// Where a progress update finds chapter titles: uploaded TXT, EPUB and PDF
/// books (by origin or URL, in that order) read their own; any other book its
/// source, when it has a table-of-contents URL.
pub open spec fn progress_chapters_of(origin: Seq<char>, url: Seq<char>, toc: Option<Seq<char>>) -> ProgressChapters {
    if is_local_origin_of(LocalFormat::Txt, origin) || is_local_url_of(LocalFormat::Txt, url) {
        ProgressChapters::Local(LocalFormat::Txt)
    } else if is_local_origin_of(LocalFormat::Epub, origin) || is_local_url_of(LocalFormat::Epub, url) {
        ProgressChapters::Local(LocalFormat::Epub)
    } else if is_local_origin_of(LocalFormat::Pdf, origin) || is_local_url_of(LocalFormat::Pdf, url) {
        ProgressChapters::Local(LocalFormat::Pdf)
    } else if toc is Some {
        ProgressChapters::Remote
    } else {
        ProgressChapters::NoTitles
    }
}

/// Where a progress update finds chapter titles (see [`progress_chapters_of`]).
pub fn progress_chapters(book: &Book) -> (r: ProgressChapters)
    ensures
        r == progress_chapters_of(book.origin@, book.book_url@, opt_view(book.toc_url)),
{
    let o = book.origin.as_str();
    let u = book.book_url.as_str();
    if is_local_origin(LocalFormat::Txt, o) || is_local_url(LocalFormat::Txt, u) {
        ProgressChapters::Local(LocalFormat::Txt)
    } else if is_local_origin(LocalFormat::Epub, o) || is_local_url(LocalFormat::Epub, u) {
        ProgressChapters::Local(LocalFormat::Epub)
    } else if is_local_origin(LocalFormat::Pdf, o) || is_local_url(LocalFormat::Pdf, u) {
        ProgressChapters::Local(LocalFormat::Pdf)
    } else if book.toc_url.is_some() {
        ProgressChapters::Remote
    } else {
        ProgressChapters::NoTitles
    }
}

/// Where a progress update reads chapter titles, by the marks of uploaded
/// books: a book with the `local-txt` origin or a `local-txt:` URL reads its
/// uploaded TXT file; otherwise one with the `local-epub` origin or a
/// `local-epub:` URL its EPUB file; otherwise one with the `local-pdf` origin
/// or a `local-pdf:` URL its PDF file; any other book its remote source when
/// it has a table-of-contents URL, and no titles without one.
pub proof fn lemma_progress_chapters_by_marks(origin: Seq<char>, url: Seq<char>, toc: Option<Seq<char>>)
    ensures
        ({
            let txt = origin == "local-txt"@ || starts_with(url, "local-txt"@.push(':'));
            let epub = origin == "local-epub"@ || starts_with(url, "local-epub"@.push(':'));
            let pdf = origin == "local-pdf"@ || starts_with(url, "local-pdf"@.push(':'));
            &&& txt ==> progress_chapters_of(origin, url, toc) == ProgressChapters::Local(LocalFormat::Txt)
            &&& !txt && epub ==> progress_chapters_of(origin, url, toc) == ProgressChapters::Local(
                LocalFormat::Epub,
            )
            &&& !txt && !epub && pdf ==> progress_chapters_of(origin, url, toc)
                == ProgressChapters::Local(LocalFormat::Pdf)
            &&& !txt && !epub && !pdf && toc is Some ==> progress_chapters_of(origin, url, toc)
                == ProgressChapters::Remote
            &&& !txt && !epub && !pdf && toc is None ==> progress_chapters_of(origin, url, toc)
                == ProgressChapters::NoTitles
        }),
{
}

/// A shelf book after a progress update: the chapter index, time and position
/// (when given) recorded; when the chapter titles were read, the title at the
/// index (when in range), the chapter count and the last title recorded too.
pub open spec fn book_with_progress(
    shelf: BookView,
    index: i32,
    position: Option<i32>,
    titles: Option<Seq<Seq<char>>>,
    now: i64,
) -> BookView {
    let with_titles = match titles {
        Some(t) => BookView {
            total_chapter_num: Some(t.len() as i32),
            latest_chapter_title: if t.len() > 0 {
                Some(t.last())
            } else {
                shelf.latest_chapter_title
            },
            dur_chapter_title: if 0 <= index && (index as int) < t.len() {
                Some(t[index as int])
            } else {
                shelf.dur_chapter_title
            },
            ..shelf
        },
        None => shelf,
    };
    BookView {
        dur_chapter_index: Some(index),
        dur_chapter_time: Some(now),
        dur_chapter_pos: match position {
            Some(p) => Some(p),
            None => shelf.dur_chapter_pos,
        },
        ..with_titles
    }
}

/// Records reading progress on a copy of a shelf book (see [`book_with_progress`]).
pub fn apply_reading_progress(
    shelf: &Book,
    index: i32,
    position: Option<i32>,
    titles: &Option<Vec<String>>,
    now: i64,
) -> (r: Book)
    ensures
        r@ == book_with_progress(
            shelf@,
            index,
            position,
            match titles {
                Some(t) => Some(crate::model::strings_view(*t)),
                None => None,
            },
            now,
        ),
{
    let mut updated = shelf.copy();
    if let Some(t) = titles {
        if index >= 0 && (index as usize) < t.len() {
            updated.dur_chapter_title = Some(t[index as usize].clone());
        }
        updated.total_chapter_num = Some(t.len() as i32);
        if t.len() > 0 {
            updated.latest_chapter_title = Some(t[t.len() - 1].clone());
        }
    }
    updated.dur_chapter_index = Some(index);
    updated.dur_chapter_time = Some(now);
    if let Some(p) = position {
        updated.dur_chapter_pos = Some(p);
    }
    updated
}

/// The parameters of a chapter caching run: the book URL (the URL, else the
/// book URL; required), whether to refresh, and how many chapters to fetch at
/// once (24 by default, at least 1).
pub fn cache_book_params(req: &CacheBookRequest) -> (r: Result<(String, bool, usize), String>)
    ensures
        match r {
            Ok((url, refresh, concurrent)) => {
                &&& url@ == match opt_view(req.url) {
                    Some(u) => u,
                    None => opt_view(req.book_url)->0,
                }
                &&& (req.url is Some || req.book_url is Some)
                &&& refresh == (match req.refresh {
                    Some(v) => v,
                    None => 0,
                } > 0)
                &&& concurrent as int == {
                    let c = match req.concurrent_count {
                        Some(v) => v as int,
                        None => 24,
                    };
                    if c < 1 {
                        1
                    } else {
                        c
                    }
                }
            },
            Err(msg) => req.url is None && req.book_url is None && msg@ == "url required"@,
        },
{
    let url = match &req.url {
        Some(u) => u.clone(),
        None => match &req.book_url {
            Some(u) => u.clone(),
            None => return Err("url required".to_string()),
        },
    };
    let refresh = match req.refresh {
        Some(v) => v,
        None => 0,
    } > 0;
    let c: i32 = match req.concurrent_count {
        Some(v) => v,
        None => 24,
    };
    let concurrent: usize = if c < 1 {
        1
    } else {
        c as usize
    };
    Ok((url, refresh, concurrent))
}

/// The chapters a caching run fetches, as positions `[from, to)` in the book's
/// chapter list: from the first chapter at `start` (the whole list when absent
/// or not found), at most `count` of them when `count` is positive and smaller
/// than what remains (counted as an `i32`).
pub open spec fn chapters_to_cache_range(urls: Seq<Seq<char>>, start: Option<Seq<char>>, count: i32) -> (
    int,
    int,
) {
    let from = match start {
        Some(s) => match urls.index_of_first(s) {
            Some(i) => i,
            None => 0,
        },
        None => 0,
    };
    let remaining = urls.len() - from;
    let to = if count > 0 && count < (remaining as usize) as i32 {
        from + count
    } else {
        urls.len() as int
    };
    (from, to)
}

/// The first position of `s` in `list`.
pub fn first_position(list: &Vec<String>, s: &String) -> (r: Option<usize>)
    ensures
        match r {
            Some(i) => i < list@.len() && crate::model::strings_view(*list).index_of_first(s@) == Some(
                i as int,
            ),
            None => crate::model::strings_view(*list).index_of_first(s@) is None,
        },
{
    let ghost uv = crate::model::strings_view(*list);
    proof {
        uv.index_of_first_ensures(s@);
    }
    let mut i: usize = 0;
    while i < list.len()
        invariant
            i <= list@.len(),
            uv == crate::model::strings_view(*list),
            forall|j: int| 0 <= j < i ==> uv[j] != s@,
        decreases list.len() - i,
    {
        if list[i] == *s {
            proof {
                assert(uv[i as int] == s@);
                assert(uv.contains(s@));
                uv.index_of_first_ensures(s@);
                let idx = uv.index_of_first(s@)->0;
                if idx < i {
                    assert(uv[idx] != s@);
                }
                if idx > i {
                    assert(uv[i as int] != s@);
                }
            }
            return Some(i);
        }
        i += 1;
    }
    None
}

/// The chapters a caching run fetches (see [`chapters_to_cache_range`]).
pub fn chapters_to_cache(urls: &Vec<String>, start: &Option<String>, count: i32) -> (r: (usize, usize))
    ensures
        (r.0 as int, r.1 as int) == chapters_to_cache_range(
            crate::model::strings_view(*urls),
            opt_view(*start),
            count,
        ),
        r.0 <= r.1 <= urls@.len(),
{
    let from: usize = match start {
        Some(s) => match first_position(urls, s) {
            Some(i) => i,
            None => 0,
        },
        None => 0,
    };
    let remaining = urls.len() - from;
    let to = if count > 0 && count < #[verifier::truncate] (remaining as i32) {
        from + count as usize
    } else {
        urls.len()
    };
    (from, to)
}

/// The error when the book to cache is not on the shelf.
pub const CACHE_NOT_ON_SHELF_MESSAGE: &'static str = "请先加入书架";

/// The error when the book to cache has no source.
pub const CACHE_NO_SOURCE_MESSAGE: &'static str = "未配置书源";

/// The error when a caching run has no chapter to fetch.
pub const NOTHING_TO_CACHE_MESSAGE: &'static str = "没有找到需要缓存的章节";

/// The source URL of the shelf book a caching run works on, or why it cannot
/// run: the book is not on the shelf, or its origin is blank.
pub fn cache_book_origin(shelf: &Option<Book>) -> (r: Result<String, String>)
    ensures
        match shelf {
            None => r matches Err(e) && e@ == CACHE_NOT_ON_SHELF_MESSAGE@,
            Some(b) => if crate::text::trim_ws(b.origin@).len() == 0 {
                r matches Err(e) && e@ == CACHE_NO_SOURCE_MESSAGE@
            } else {
                r matches Ok(o) && o@ == b.origin@
            },
        },
{
    match shelf {
        None => Err(CACHE_NOT_ON_SHELF_MESSAGE.to_string()),
        Some(b) => if crate::shelf::is_blank(&b.origin) {
            Err(CACHE_NO_SOURCE_MESSAGE.to_string())
        } else {
            Ok(b.origin.clone())
        },
    }
}

/// The chapters a caching run fetches (see [`chapters_to_cache_range`]), or
/// the error that there are none.
pub fn cache_chapter_range(urls: &Vec<String>, start: &Option<String>, count: i32) -> (r: Result<
    (usize, usize),
    String,
>)
    ensures
        ({
            let (from, to) = chapters_to_cache_range(
                crate::model::strings_view(*urls),
                opt_view(*start),
                count,
            );
            if from < to {
                r matches Ok(p) && p.0 as int == from && p.1 as int == to
            } else {
                r matches Err(e) && e@ == NOTHING_TO_CACHE_MESSAGE@
            }
        }),
{
    let (from, to) = chapters_to_cache(urls, start, count);
    if from < to {
        Ok((from, to))
    } else {
        Err(NOTHING_TO_CACHE_MESSAGE.to_string())
    }
}

/// The table-of-contents URLs whose cached chapter lists a cache deletion drops:
/// the book URL, and the shelf book's table-of-contents URL when different.
pub open spec fn cache_toc_candidates(book_url: Seq<char>, shelf_toc: Option<Seq<char>>) -> Seq<Seq<char>> {
    match shelf_toc {
        Some(t) => if t == book_url {
            seq![book_url]
        } else {
            seq![book_url, t]
        },
        None => seq![book_url],
    }
}

/// The table-of-contents URLs a cache deletion tries (see [`cache_toc_candidates`]).
pub fn delete_cache_toc_urls(book_url: &String, shelf_toc: &Option<String>) -> (r: Vec<String>)
    ensures
        crate::model::strings_view(r) == cache_toc_candidates(book_url@, opt_view(*shelf_toc)),
{
    let mut r: Vec<String> = Vec::new();
    r.push(book_url.clone());
    if let Some(t) = shelf_toc {
        if *t != *book_url {
            r.push(t.clone());
        }
    }
    assert(crate::model::strings_view(r) =~= cache_toc_candidates(book_url@, opt_view(*shelf_toc)));
    r
}

/// The table-of-contents URLs where the shelf view looks for a cached chapter
/// list: the book's table-of-contents URL then its book URL, or the book URL alone.
pub fn shelf_cache_toc_urls(book: &Book) -> (r: Vec<String>)
    ensures
        crate::model::strings_view(r) == match opt_view(book.toc_url) {
            Some(t) => seq![t, book.book_url@],
            None => seq![book.book_url@],
        },
{
    let mut r: Vec<String> = Vec::new();
    if let Some(t) = &book.toc_url {
        r.push(t.clone());
    }
    r.push(book.book_url.clone());
    assert(crate::model::strings_view(r) =~= match opt_view(book.toc_url) {
        Some(t) => seq![t, book.book_url@],
        None => seq![book.book_url@],
    });
    r
}

/// Whether a chapter list request is answered from the stored list: no
/// refresh was asked for and a non-empty list (of `cached` chapters) is stored.
pub fn serves_cached_chapters(refresh: bool, cached: Option<usize>) -> (r: bool)
    ensures
        r == (!refresh && cached is Some && cached->0 > 0),
{
    !refresh && match cached {
        Some(n) => n > 0,
        None => false,
    }
}

/// The table-of-contents URL a caching run reads the chapter list from: the
/// shelf book's own, else its book URL.
pub fn root_toc_url(book: &Book) -> (r: String)
    ensures
        r@ == match opt_view(book.toc_url) {
            Some(t) => t,
            None => book.book_url@,
        },
{
    match &book.toc_url {
        Some(t) => t.clone(),
        None => book.book_url.clone(),
    }
}

/// The chapters of a caching run that are already stored: none when the run
/// refreshes, else those marked in `stored` (one mark per chapter of the run).
pub open spec fn stored_count(stored: Seq<bool>, refresh: bool) -> nat
    decreases stored.len(),
{
    if refresh || stored.len() == 0 {
        0
    } else {
        stored_count(stored.drop_last(), refresh) + if stored.last() {
            1nat
        } else {
            0nat
        }
    }
}

/// The positions, in order, of the chapters a caching run fetches: every
/// chapter when it refreshes, else each one not marked as stored.
pub open spec fn fetch_positions(stored: Seq<bool>, refresh: bool) -> Seq<usize>
    decreases stored.len(),
{
    if stored.len() == 0 {
        Seq::empty()
    } else {
        let prev = fetch_positions(stored.drop_last(), refresh);
        if refresh || !stored.last() {
            prev.push((stored.len() - 1) as usize)
        } else {
            prev
        }
    }
}

/// Each chapter of a run is either stored already or fetched.
pub proof fn lemma_stored_and_fetched(stored: Seq<bool>, refresh: bool)
    ensures
        stored_count(stored, refresh) + fetch_positions(stored, refresh).len() == stored.len(),
    decreases stored.len(),
{
    if stored.len() > 0 {
        lemma_stored_and_fetched(stored.drop_last(), refresh);
    }
}

/// The positions of the chapters a caching run fetches (see [`fetch_positions`]),
/// from the marks of the chapters already stored.
pub fn chapters_to_fetch(stored: &Vec<bool>, refresh: bool) -> (r: Vec<usize>)
    ensures
        r@ == fetch_positions(stored@, refresh),
{
    let mut r: Vec<usize> = Vec::new();
    let mut i: usize = 0;
    while i < stored.len()
        invariant
            i <= stored@.len(),
            r@ == fetch_positions(stored@.take(i as int), refresh),
        decreases stored.len() - i,
    {
        assert(stored@.take(i as int + 1).drop_last() == stored@.take(i as int));
        if refresh || !stored[i] {
            r.push(i);
        }
        i += 1;
    }
    assert(stored@.take(stored@.len() as int) == stored@);
    r
}

/// The state of the counts a caching run reports.
pub struct CacheProgressView {
    /// Chapters stored before the run.
    pub already: nat,
    /// Chapters the run fetches.
    pub pending: nat,
    /// Chapters fetched.
    pub success: nat,
    /// Chapters that could not be fetched.
    pub failed: nat,
}

/// The counts a caching run reports: chapters stored (those stored before,
/// then each one fetched), fetched and failed, out of the chapters it fetches.
pub struct CacheProgress {
    already: usize,
    pending: usize,
    success: usize,
    failed: usize,
}

impl View for CacheProgress {
    type V = CacheProgressView;

    closed spec fn view(&self) -> CacheProgressView {
        CacheProgressView {
            already: self.already as nat,
            pending: self.pending as nat,
            success: self.success as nat,
            failed: self.failed as nat,
        }
    }
}

/// The counts stay within the run: no more chapters fetched or failed than it
/// fetches, and the stored count fits in a `usize`.
pub open spec fn progress_counted(v: CacheProgressView) -> bool {
    &&& v.success + v.failed <= v.pending
    &&& v.already + v.pending <= usize::MAX
}

impl CacheProgress {
    #[verifier::type_invariant]
    closed spec fn counted(self) -> bool {
        progress_counted(self@)
    }

    /// The counts at the start of a run that fetches `pending` chapters, with
    /// `already` chapters stored: none fetched or failed yet.
    pub fn start(already: usize, pending: usize) -> (r: CacheProgress)
        requires
            already + pending <= usize::MAX,
        ensures
            r@ == (CacheProgressView { already: already as nat, pending: pending as nat, success: 0, failed: 0 }),
    {
        CacheProgress { already, pending, success: 0, failed: 0 }
    }

    /// The counts at the start of a run over chapters marked as `stored` or
    /// not: those stored count as already there (none when refreshing), and
    /// the run fetches the others (all of them when refreshing).
    pub fn for_chapters(stored: &Vec<bool>, refresh: bool) -> (r: CacheProgress)
        ensures
            r@ == (CacheProgressView {
                already: stored_count(stored@, refresh),
                pending: fetch_positions(stored@, refresh).len(),
                success: 0,
                failed: 0,
            }),
    {
        let mut already: usize = 0;
        let mut pending: usize = 0;
        let mut i: usize = 0;
        while i < stored.len()
            invariant
                i <= stored@.len(),
                already == stored_count(stored@.take(i as int), refresh),
                pending == fetch_positions(stored@.take(i as int), refresh).len(),
            decreases stored.len() - i,
        {
            assert(stored@.take(i as int + 1).drop_last() == stored@.take(i as int));
            proof {
                lemma_stored_and_fetched(stored@.take(i as int), refresh);
            }
            if refresh || !stored[i] {
                pending += 1;
            } else {
                already += 1;
            }
            i += 1;
        }
        assert(stored@.take(stored@.len() as int) == stored@);
        proof {
            lemma_stored_and_fetched(stored@, refresh);
        }
        CacheProgress::start(already, pending)
    }

    /// The counts after one more of the chapters to fetch was fetched (`ok`)
    /// or failed.
    pub fn record(&mut self, ok: bool)
        requires
            old(self)@.success + old(self)@.failed < old(self)@.pending,
        ensures
            final(self)@ == if ok {
                CacheProgressView { success: old(self)@.success + 1, ..old(self)@ }
            } else {
                CacheProgressView { failed: old(self)@.failed + 1, ..old(self)@ }
            },
            progress_counted(final(self)@),
    {
        proof {
            use_type_invariant(&*self);
        }
        if ok {
            self.success = self.success + 1;
        } else {
            self.failed = self.failed + 1;
        }
    }

    /// Chapters stored: those stored before the run and those it fetched.
    pub fn cached(&self) -> (r: usize)
        ensures
            r == self@.already + self@.success,
    {
        proof {
            use_type_invariant(self);
        }
        self.already + self.success
    }

    /// Chapters fetched.
    pub fn success(&self) -> (r: usize)
        ensures
            r == self@.success,
    {
        self.success
    }

    /// Chapters that could not be fetched.
    pub fn failed(&self) -> (r: usize)
        ensures
            r == self@.failed,
    {
        self.failed
    }

    /// Chapters the run fetches.
    pub fn pending(&self) -> (r: usize)
        ensures
            r == self@.pending,
            progress_counted(self@),
    {
        proof {
            use_type_invariant(self);
        }
        self.pending
    }

    /// Whether every chapter the run fetches was fetched or failed.
    pub fn finished(&self) -> (r: bool)
        ensures
            r == (self@.success + self@.failed == self@.pending),
            progress_counted(self@),
    {
        proof {
            use_type_invariant(self);
        }
        self.success + self.failed == self.pending
    }
}

} // verus!
