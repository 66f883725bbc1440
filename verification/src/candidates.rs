//! The other sources found for a book, as they are stored: a hit with its
//! update time and word count read as numbers.
use vstd::prelude::*;
use crate::available::books_view;
use crate::model::{copy_opt, opt_view, SearchBook, SearchBookView};
use crate::numbers::{
    lemma_parse_signed_decimal_i64, parse_i64, parsed_i64, push_signed_decimal, signed_decimal,
};
use crate::text::string_of;

verus! {

/// A stored candidate source of a book.
#[derive(Debug)]
pub struct CandidateRecord {
    pub name: String,
    pub author: String,
    pub book_url: String,
    pub origin: String,
    pub cover_url: Option<String>,
    pub intro: Option<String>,
    pub kind: Option<String>,
    pub latest_chapter_title: Option<String>,
    pub update_time: Option<i64>,
    pub word_count: Option<i64>,
}

/// The view of a [`CandidateRecord`].
pub struct CandidateRecordView {
    pub name: Seq<char>,
    pub author: Seq<char>,
    pub book_url: Seq<char>,
    pub origin: Seq<char>,
    pub cover_url: Option<Seq<char>>,
    pub intro: Option<Seq<char>>,
    pub kind: Option<Seq<char>>,
    pub latest_chapter_title: Option<Seq<char>>,
    pub update_time: Option<i64>,
    pub word_count: Option<i64>,
}

impl View for CandidateRecord {
    type V = CandidateRecordView;

    open spec fn view(&self) -> CandidateRecordView {
        CandidateRecordView {
            name: self.name@,
            author: self.author@,
            book_url: self.book_url@,
            origin: self.origin@,
            cover_url: opt_view(self.cover_url),
            intro: opt_view(self.intro),
            kind: opt_view(self.kind),
            latest_chapter_title: opt_view(self.latest_chapter_title),
            update_time: self.update_time,
            word_count: self.word_count,
        }
    }
}

/// A number stored from a text: the text read as an `i64`, none when it does
/// not read as one.
pub open spec fn stored_number(text: Option<Seq<char>>) -> Option<i64> {
    match text {
        Some(t) => parsed_i64(t),
        None => None,
    }
}

/// A stored number shown as text: its decimal notation.
pub open spec fn shown_number(n: Option<i64>) -> Option<Seq<char>> {
    match n {
        Some(v) => Some(signed_decimal(v as int)),
        None => None,
    }
}

/// The record a hit is stored as: its texts as they are, the last chapter
/// as the latest chapter title, the update time and word count read as numbers.
pub open spec fn record_of(b: SearchBookView) -> CandidateRecordView {
    CandidateRecordView {
        name: b.name,
        author: b.author,
        book_url: b.book_url,
        origin: b.origin,
        cover_url: b.cover_url,
        intro: b.intro,
        kind: b.kind,
        latest_chapter_title: b.last_chapter,
        update_time: stored_number(b.update_time),
        word_count: stored_number(b.word_count),
    }
}

/// The hit a stored record reads back as: its numbers in decimal, no source list.
pub open spec fn hit_of(c: CandidateRecordView) -> SearchBookView {
    SearchBookView {
        name: c.name,
        author: c.author,
        book_url: c.book_url,
        origin: c.origin,
        cover_url: c.cover_url,
        intro: c.intro,
        kind: c.kind,
        last_chapter: c.latest_chapter_title,
        update_time: shown_number(c.update_time),
        word_count: shown_number(c.word_count),
        book_source_urls: None,
    }
}

fn number_of(text: &Option<String>) -> (r: Option<i64>)
    ensures
        r == stored_number(opt_view(*text)),
{
    match text {
        Some(t) => parse_i64(t.as_str()),
        None => None,
    }
}

fn text_of(n: Option<i64>) -> (r: Option<String>)
    ensures
        opt_view(r) == shown_number(n),
{
    match n {
        Some(v) => {
            let mut out: Vec<char> = Vec::new();
            push_signed_decimal(v, &mut out);
            assert(out@ =~= signed_decimal(v as int));
            Some(string_of(&out))
        },
        None => None,
    }
}

/// The record a hit is stored as (see [`record_of`]).
pub fn candidate_record(b: &SearchBook) -> (r: CandidateRecord)
    ensures
        r@ == record_of(b@),
{
    CandidateRecord {
        name: b.name.clone(),
        author: b.author.clone(),
        book_url: b.book_url.clone(),
        origin: b.origin.clone(),
        cover_url: copy_opt(&b.cover_url),
        intro: copy_opt(&b.intro),
        kind: copy_opt(&b.kind),
        latest_chapter_title: copy_opt(&b.last_chapter),
        update_time: number_of(&b.update_time),
        word_count: number_of(&b.word_count),
    }
}

/// The hit a stored record reads back as (see [`hit_of`]).
pub fn candidate_hit(c: &CandidateRecord) -> (r: SearchBook)
    ensures
        r@ == hit_of(c@),
{
    SearchBook {
        name: c.name.clone(),
        author: c.author.clone(),
        book_url: c.book_url.clone(),
        origin: c.origin.clone(),
        cover_url: copy_opt(&c.cover_url),
        intro: copy_opt(&c.intro),
        kind: copy_opt(&c.kind),
        last_chapter: copy_opt(&c.latest_chapter_title),
        update_time: text_of(c.update_time),
        word_count: text_of(c.word_count),
        book_source_urls: None,
    }
}

/// The views of a list of records.
pub open spec fn records_view(v: Seq<CandidateRecord>) -> Seq<CandidateRecordView> {
    v.map_values(|c: CandidateRecord| c@)
}

/// The records a list of hits is stored as, in order.
pub fn candidate_records(books: &[SearchBook]) -> (r: Vec<CandidateRecord>)
    ensures
        records_view(r@) == books_view(books@).map_values(|b: SearchBookView| record_of(b)),
{
    let mut out: Vec<CandidateRecord> = Vec::new();
    let mut i: usize = 0;
    while i < books.len()
        invariant
            i <= books@.len(),
            records_view(out@) == books_view(books@).take(i as int).map_values(
                |b: SearchBookView| record_of(b),
            ),
        decreases books.len() - i,
    {
        let ghost before = records_view(out@);
        let c = candidate_record(&books[i]);
        out.push(c);
        assert(records_view(out@) =~= before.push(record_of(books@[i as int]@)));
        assert(books_view(books@).take(i as int + 1).map_values(|b: SearchBookView| record_of(b))
            =~= books_view(books@).take(i as int).map_values(|b: SearchBookView| record_of(b)).push(
            record_of(books@[i as int]@),
        ));
        i += 1;
    }
    assert(books_view(books@).take(books@.len() as int) =~= books_view(books@));
    out
}

/// The hits a list of stored records reads back as, in order.
pub fn candidate_hits(records: &[CandidateRecord]) -> (r: Vec<SearchBook>)
    ensures
        books_view(r@) == records_view(records@).map_values(|c: CandidateRecordView| hit_of(c)),
{
    let mut out: Vec<SearchBook> = Vec::new();
    let mut i: usize = 0;
    while i < records.len()
        invariant
            i <= records@.len(),
            books_view(out@) == records_view(records@).take(i as int).map_values(
                |c: CandidateRecordView| hit_of(c),
            ),
        decreases records.len() - i,
    {
        let ghost before = books_view(out@);
        let h = candidate_hit(&records[i]);
        out.push(h);
        assert(books_view(out@) =~= before.push(hit_of(records@[i as int]@)));
        assert(records_view(records@).take(i as int + 1).map_values(
            |c: CandidateRecordView| hit_of(c),
        ) =~= records_view(records@).take(i as int).map_values(|c: CandidateRecordView| hit_of(c)).push(
            hit_of(records@[i as int]@),
        ));
        i += 1;
    }
    assert(records_view(records@).take(records@.len() as int) =~= records_view(records@));
    out
}

/// A stored record read back as a hit and stored again is the same record.
pub proof fn lemma_record_round_trip(c: CandidateRecordView)
    ensures
        record_of(hit_of(c)) == c,
{
    if let Some(v) = c.update_time {
        lemma_parse_signed_decimal_i64(v);
    }
    if let Some(v) = c.word_count {
        lemma_parse_signed_decimal_i64(v);
    }
}

} // verus!
