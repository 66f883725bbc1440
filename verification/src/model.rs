//! The records the reader exchanges: search hits, shelf books, book sources and
//! explore kinds, each with a mathematical view over character sequences.
use vstd::prelude::*;
use crate::text::{chars_of, string_of, trim_chars, trim_ws};

verus! {

/// Optional text, as the views see it.
pub open spec fn opt_view(o: Option<String>) -> Option<Seq<char>> {
    match o {
        Some(s) => Some(s@),
        None => None,
    }
}

/// A list of strings, as the views see it.
pub open spec fn strings_view(v: Vec<String>) -> Seq<Seq<char>> {
    v@.map_values(|s: String| s@)
}

/// Optional list of strings, as the views see it.
pub open spec fn opt_strings_view(o: Option<Vec<String>>) -> Option<Seq<Seq<char>>> {
    match o {
        Some(v) => Some(strings_view(v)),
        None => None,
    }
}

/// A copy of a string.
pub fn copy_string(s: &String) -> (r: String)
    ensures
        r@ == s@,
{
    s.clone()
}

/// A copy of an optional string.
pub fn copy_opt(o: &Option<String>) -> (r: Option<String>)
    ensures
        opt_view(r) == opt_view(*o),
{
    match o {
        Some(s) => Some(s.clone()),
        None => None,
    }
}

/// A copy of a list of strings.
pub fn copy_strings(v: &Vec<String>) -> (r: Vec<String>)
    ensures
        strings_view(r) == strings_view(*v),
{
    let mut r: Vec<String> = Vec::new();
    let mut i: usize = 0;
    while i < v.len()
        invariant
            i <= v.len(),
            r@.len() == i,
            forall|j: int| 0 <= j < i ==> #[trigger] r@[j]@ == v@[j]@,
        decreases v.len() - i,
    {
        let c = v[i].clone();
        r.push(c);
        i += 1;
    }
    assert(strings_view(r) =~= strings_view(*v));
    r
}

/// A copy of an optional list of strings.
pub fn copy_opt_strings(o: &Option<Vec<String>>) -> (r: Option<Vec<String>>)
    ensures
        opt_strings_view(r) == opt_strings_view(*o),
{
    match o {
        Some(v) => Some(copy_strings(v)),
        None => None,
    }
}

/// Whether `s@` occurs among the views of `list`.
pub fn strings_contain(list: &Vec<String>, s: &String) -> (r: bool)
    ensures
        r == strings_view(*list).contains(s@),
{
    let mut i: usize = 0;
    while i < list.len()
        invariant
            i <= list.len(),
            forall|j: int| 0 <= j < i ==> strings_view(*list)[j] != s@,
        decreases list.len() - i,
    {
        if list[i] == *s {
            assert(strings_view(*list)[i as int] == s@);
            return true;
        }
        i += 1;
    }
    false
}

/// A book found by searching or exploring a book source.
#[derive(Debug, Clone)]
pub struct SearchBook {
    pub name: String,
    pub author: String,
    pub book_url: String,
    pub origin: String,
    pub cover_url: Option<String>,
    pub intro: Option<String>,
    pub kind: Option<String>,
    pub last_chapter: Option<String>,
    pub update_time: Option<String>,
    pub word_count: Option<String>,
    pub book_source_urls: Option<Vec<String>>,
}

/// The view of a [`SearchBook`].
pub struct SearchBookView {
    pub name: Seq<char>,
    pub author: Seq<char>,
    pub book_url: Seq<char>,
    pub origin: Seq<char>,
    pub cover_url: Option<Seq<char>>,
    pub intro: Option<Seq<char>>,
    pub kind: Option<Seq<char>>,
    pub last_chapter: Option<Seq<char>>,
    pub update_time: Option<Seq<char>>,
    pub word_count: Option<Seq<char>>,
    pub book_source_urls: Option<Seq<Seq<char>>>,
}

impl View for SearchBook {
    type V = SearchBookView;

    open spec fn view(&self) -> SearchBookView {
        SearchBookView {
            name: self.name@,
            author: self.author@,
            book_url: self.book_url@,
            origin: self.origin@,
            cover_url: opt_view(self.cover_url),
            intro: opt_view(self.intro),
            kind: opt_view(self.kind),
            last_chapter: opt_view(self.last_chapter),
            update_time: opt_view(self.update_time),
            word_count: opt_view(self.word_count),
            book_source_urls: opt_strings_view(self.book_source_urls),
        }
    }
}

impl Default for SearchBook {
    fn default() -> (r: SearchBook)
        ensures
            r@ == (SearchBookView {
                name: Seq::empty(),
                author: Seq::empty(),
                book_url: Seq::empty(),
                origin: Seq::empty(),
                cover_url: None,
                intro: None,
                kind: None,
                last_chapter: None,
                update_time: None,
                word_count: None,
                book_source_urls: None,
            }),
    {
        SearchBook {
            name: String::new(),
            author: String::new(),
            book_url: String::new(),
            origin: String::new(),
            cover_url: None,
            intro: None,
            kind: None,
            last_chapter: None,
            update_time: None,
            word_count: None,
            book_source_urls: None,
        }
    }
}

impl SearchBook {
    /// A field-by-field copy.
    pub fn copy(&self) -> (r: SearchBook)
        ensures
            r@ == self@,
    {
        SearchBook {
            name: self.name.clone(),
            author: self.author.clone(),
            book_url: self.book_url.clone(),
            origin: self.origin.clone(),
            cover_url: copy_opt(&self.cover_url),
            intro: copy_opt(&self.intro),
            kind: copy_opt(&self.kind),
            last_chapter: copy_opt(&self.last_chapter),
            update_time: copy_opt(&self.update_time),
            word_count: copy_opt(&self.word_count),
            book_source_urls: copy_opt_strings(&self.book_source_urls),
        }
    }

    /// The key under which hits of the same book from different sources are merged:
    /// the trimmed name and the trimmed author, joined by `::`.
    pub fn merge_key(&self) -> (r: String)
        ensures
            r@ == merge_key_of(self@),
    {
        let mut k = trim_chars(&chars_of(self.name.as_str()));
        k.push(':');
        k.push(':');
        let mut a = trim_chars(&chars_of(self.author.as_str()));
        k.append(&mut a);
        let r = string_of(&k);
        proof {
            assert(r@ =~= merge_key_of(self@));
        }
        r
    }
}

/// The merge key of a search hit (see [`SearchBook::merge_key`]).
pub open spec fn merge_key_of(b: SearchBookView) -> Seq<char> {
    trim_ws(b.name) + seq![':', ':'] + trim_ws(b.author)
}

/// A book on a user's shelf.
#[derive(Debug, Clone)]
pub struct Book {
    pub book_url: String,
    pub origin: String,
    pub origin_name: Option<String>,
    pub name: String,
    pub author: String,
    pub cover_url: Option<String>,
    pub toc_url: Option<String>,
    pub intro: Option<String>,
    pub kind: Option<String>,
    pub latest_chapter_title: Option<String>,
    pub word_count: Option<String>,
    pub update_time: Option<String>,
    pub total_chapter_num: Option<i32>,
    pub dur_chapter_index: Option<i32>,
    pub dur_chapter_pos: Option<i32>,
    pub dur_chapter_time: Option<i64>,
    pub dur_chapter_title: Option<String>,
}

/// The view of a [`Book`].
pub struct BookView {
    pub book_url: Seq<char>,
    pub origin: Seq<char>,
    pub origin_name: Option<Seq<char>>,
    pub name: Seq<char>,
    pub author: Seq<char>,
    pub cover_url: Option<Seq<char>>,
    pub toc_url: Option<Seq<char>>,
    pub intro: Option<Seq<char>>,
    pub kind: Option<Seq<char>>,
    pub latest_chapter_title: Option<Seq<char>>,
    pub word_count: Option<Seq<char>>,
    pub update_time: Option<Seq<char>>,
    pub total_chapter_num: Option<i32>,
    pub dur_chapter_index: Option<i32>,
    pub dur_chapter_pos: Option<i32>,
    pub dur_chapter_time: Option<i64>,
    pub dur_chapter_title: Option<Seq<char>>,
}

impl View for Book {
    type V = BookView;

    open spec fn view(&self) -> BookView {
        BookView {
            book_url: self.book_url@,
            origin: self.origin@,
            origin_name: opt_view(self.origin_name),
            name: self.name@,
            author: self.author@,
            cover_url: opt_view(self.cover_url),
            toc_url: opt_view(self.toc_url),
            intro: opt_view(self.intro),
            kind: opt_view(self.kind),
            latest_chapter_title: opt_view(self.latest_chapter_title),
            word_count: opt_view(self.word_count),
            update_time: opt_view(self.update_time),
            total_chapter_num: self.total_chapter_num,
            dur_chapter_index: self.dur_chapter_index,
            dur_chapter_pos: self.dur_chapter_pos,
            dur_chapter_time: self.dur_chapter_time,
            dur_chapter_title: opt_view(self.dur_chapter_title),
        }
    }
}

/// The view of a book with every field empty.
pub open spec fn empty_book_view() -> BookView {
    BookView {
        book_url: Seq::empty(),
        origin: Seq::empty(),
        origin_name: None,
        name: Seq::empty(),
        author: Seq::empty(),
        cover_url: None,
        toc_url: None,
        intro: None,
        kind: None,
        latest_chapter_title: None,
        word_count: None,
        update_time: None,
        total_chapter_num: None,
        dur_chapter_index: None,
        dur_chapter_pos: None,
        dur_chapter_time: None,
        dur_chapter_title: None,
    }
}

impl Default for Book {
    fn default() -> (r: Book)
        ensures
            r@ == empty_book_view(),
    {
        Book {
            book_url: String::new(),
            origin: String::new(),
            origin_name: None,
            name: String::new(),
            author: String::new(),
            cover_url: None,
            toc_url: None,
            intro: None,
            kind: None,
            latest_chapter_title: None,
            word_count: None,
            update_time: None,
            total_chapter_num: None,
            dur_chapter_index: None,
            dur_chapter_pos: None,
            dur_chapter_time: None,
            dur_chapter_title: None,
        }
    }
}

impl Book {
    /// A field-by-field copy.
    pub fn copy(&self) -> (r: Book)
        ensures
            r@ == self@,
    {
        Book {
            book_url: self.book_url.clone(),
            origin: self.origin.clone(),
            origin_name: copy_opt(&self.origin_name),
            name: self.name.clone(),
            author: self.author.clone(),
            cover_url: copy_opt(&self.cover_url),
            toc_url: copy_opt(&self.toc_url),
            intro: copy_opt(&self.intro),
            kind: copy_opt(&self.kind),
            latest_chapter_title: copy_opt(&self.latest_chapter_title),
            word_count: copy_opt(&self.word_count),
            update_time: copy_opt(&self.update_time),
            total_chapter_num: self.total_chapter_num,
            dur_chapter_index: self.dur_chapter_index,
            dur_chapter_pos: self.dur_chapter_pos,
            dur_chapter_time: self.dur_chapter_time,
            dur_chapter_title: copy_opt(&self.dur_chapter_title),
        }
    }
}

/// The search rule of a book source, as far as the reader reads it.
#[derive(Debug, Clone)]
pub struct SearchRule {
    pub check_key_word: Option<String>,
}

/// A book source: a site with rules for searching and exploring it.
#[derive(Debug, Clone)]
pub struct BookSource {
    pub book_source_name: String,
    pub book_source_url: String,
    pub book_source_group: Option<String>,
    pub enabled: Option<bool>,
    pub enabled_explore: Option<bool>,
    pub explore_url: Option<String>,
    pub rule_search: Option<SearchRule>,
}

impl Default for BookSource {
    fn default() -> (r: BookSource)
        ensures
            r.book_source_name@ == Seq::<char>::empty(),
            r.book_source_url@ == Seq::<char>::empty(),
            r.book_source_group is None,
            r.enabled is None,
            r.enabled_explore is None,
            r.explore_url is None,
            r.rule_search is None,
    {
        BookSource {
            book_source_name: String::new(),
            book_source_url: String::new(),
            book_source_group: None,
            enabled: None,
            enabled_explore: None,
            explore_url: None,
            rule_search: None,
        }
    }
}

/// One entry of a source's explore menu: a titled listing page.
#[derive(Debug, Clone)]
pub struct ExploreKind {
    pub title: String,
    pub url: Option<String>,
    pub style: Option<String>,
}

} // verus!
