//! How well a search hit answers a query, and which hits are strong enough to show.
use vstd::prelude::*;
use crate::available::books_view;
use crate::model::{SearchBook, SearchBookView};
use crate::text::{
    chars_of, contains_chars, has_substring, lowercase_chars, lowercase_seq, remove_white_space,
    same_chars, without_white_space,
};

verus! {

/// Text compared for relevance: without white space, lowercased.
pub open spec fn compact_search_text(s: Seq<char>) -> Seq<char> {
    lowercase_seq(without_white_space(s))
}

fn compact_search(s: &str) -> (r: Vec<char>)
    ensures
        r@ == compact_search_text(s@),
{
    lowercase_chars(&remove_white_space(&chars_of(s)))
}

/// The score of a hit for a query: 100 for the exact title, 80 for a title that
/// contains the query, 70 for the exact author, 60 for a title of at least two
/// characters that the query contains, 0 otherwise (and for an empty query).
pub open spec fn search_score(query: Seq<char>, b: SearchBookView) -> int {
    let q = compact_search_text(query);
    let n = compact_search_text(b.name);
    let a = compact_search_text(b.author);
    if q.len() == 0 {
        0
    } else if n == q {
        100
    } else if has_substring(n, q) {
        80
    } else if a == q {
        70
    } else if n.len() >= 2 && has_substring(q, n) {
        60
    } else {
        0
    }
}

/// A hit is shown for a query when its score is at least 60.
pub open spec fn is_strong_hit(query: Seq<char>, b: SearchBookView) -> bool {
    search_score(query, b) >= 60
}

/// The score levels of a hit, over the query and the hit's title and author
/// compared without white space and lowercased: nothing for an empty query;
/// 100 for the query's own title; 80 for a title that contains the query; 70
/// for the query's own author; 60 for a title of two or more characters within
/// the query; nothing else. A hit is strong exactly at one of those levels.
pub proof fn lemma_search_score_levels(query: Seq<char>, b: SearchBookView)
    ensures
        ({
            let q = compact_search_text(query);
            let n = compact_search_text(b.name);
            let a = compact_search_text(b.author);
            &&& q.len() == 0 ==> search_score(query, b) == 0
            &&& q.len() > 0 && n == q ==> search_score(query, b) == 100
            &&& q.len() > 0 && n != q && has_substring(n, q) ==> search_score(query, b) == 80
            &&& q.len() > 0 && n != q && !has_substring(n, q) && a == q ==> search_score(query, b) == 70
            &&& q.len() > 0 && n != q && !has_substring(n, q) && a != q && n.len() >= 2 && has_substring(q, n)
                ==> search_score(query, b) == 60
            &&& q.len() > 0 && n != q && !has_substring(n, q) && a != q && !(n.len() >= 2 && has_substring(
                q,
                n,
            )) ==> search_score(query, b) == 0
            &&& is_strong_hit(query, b) <==> search_score(query, b) >= 60
        }),
{
}

/// The relevance of a hit.
#[derive(Debug, Clone, Copy)]
pub struct SearchScore {
    pub score: i32,
}

/// The relevance of a hit for a query (see [`search_score`]).
pub fn score_search_book(query: &str, book: &SearchBook) -> (r: SearchScore)
    ensures
        r.score as int == search_score(query@, book@),
{
    let q = compact_search(query);
    let n = compact_search(book.name.as_str());
    let a = compact_search(book.author.as_str());
    let score: i32 = if q.len() == 0 {
        0
    } else if same_chars(&n, &q) {
        100
    } else if contains_chars(&n, &q) {
        80
    } else if same_chars(&a, &q) {
        70
    } else if n.len() >= 2 && contains_chars(&q, &n) {
        60
    } else {
        0
    };
    SearchScore { score }
}

/// The hits of one score, in their order.
pub open spec fn hits_with_score(query: Seq<char>, hits: Seq<SearchBookView>, level: int) -> Seq<
    SearchBookView,
> {
    hits.filter(scored(query, level))
}

/// Whether a hit has a given score for the query.
pub open spec fn scored(query: Seq<char>, level: int) -> spec_fn(SearchBookView) -> bool {
    |b: SearchBookView| search_score(query, b) == level
}

/// The strong hits, best first: those of score 100, then 80, then 70, then 60,
/// each group in its original order.
pub open spec fn strong_ranked(query: Seq<char>, hits: Seq<SearchBookView>) -> Seq<SearchBookView> {
    hits_with_score(query, hits, 100) + hits_with_score(query, hits, 80) + hits_with_score(
        query,
        hits,
        70,
    ) + hits_with_score(query, hits, 60)
}

fn append_level(
    query: &str,
    books: &Vec<SearchBook>,
    scores: &Vec<i32>,
    level: i32,
    out: &mut Vec<SearchBook>,
)
    requires
        scores@.len() == books@.len(),
        forall|i: int| 0 <= i < books@.len() ==> scores@[i] as int == search_score(query@, #[trigger] books@[i]@),
    ensures
        books_view(final(out)@) == books_view(old(out)@) + hits_with_score(
            query@,
            books_view(books@),
            level as int,
        ),
{
    let ghost all = books_view(books@);
    let ghost start = books_view(out@);
    let mut i: usize = 0;
    while i < books.len()
        invariant
            i <= books.len(),
            scores@.len() == books@.len(),
            forall|i: int| 0 <= i < books@.len() ==> scores@[i] as int == search_score(query@, #[trigger] books@[i]@),
            all == books_view(books@),
            books_view(out@) == start + hits_with_score(query@, all.take(i as int), level as int),
        decreases books.len() - i,
    {
        reveal(Seq::filter);
        assert(all.take(i as int + 1).drop_last() == all.take(i as int));
        assert(all.take(i as int + 1).last() == books@[i as int]@);
        if scores[i] == level {
            let ghost before = out@;
            out.push(books[i].copy());
            assert(books_view(out@) =~= books_view(before).push(books@[i as int]@));
        }
        i += 1;
    }
    assert(all.take(books@.len() as int) == all);
}

/// The strong hits for a query, best first (see [`strong_ranked`]).
pub fn filter_strong_search_results(query: &str, books: Vec<SearchBook>) -> (r: Vec<SearchBook>)
    ensures
        books_view(r@) == strong_ranked(query@, books_view(books@)),
{
    let mut scores: Vec<i32> = Vec::new();
    let mut i: usize = 0;
    while i < books.len()
        invariant
            i <= books.len(),
            scores@.len() == i,
            forall|j: int| 0 <= j < i ==> scores@[j] as int == search_score(query@, #[trigger] books@[j]@),
        decreases books.len() - i,
    {
        let s = score_search_book(query, &books[i]);
        scores.push(s.score);
        i += 1;
    }
    let mut out: Vec<SearchBook> = Vec::new();
    assert(books_view(out@) =~= Seq::<SearchBookView>::empty());
    append_level(query, &books, &scores, 100, &mut out);
    append_level(query, &books, &scores, 80, &mut out);
    append_level(query, &books, &scores, 70, &mut out);
    append_level(query, &books, &scores, 60, &mut out);
    assert(books_view(out@) =~= strong_ranked(query@, books_view(books@)));
    out
}

/// Hits ranked best first: no hit scores more than one before it.
pub open spec fn ranked_by_score(query: Seq<char>, s: Seq<SearchBookView>) -> bool {
    forall|i: int, j: int|
        0 <= i < j < s.len() ==> search_score(query, #[trigger] s[i]) >= search_score(
            query,
            #[trigger] s[j],
        )
}

/// The level of the group that position `i` of a strong ranking falls in.
pub open spec fn level_at(query: Seq<char>, hits: Seq<SearchBookView>, i: int) -> int {
    let a = hits_with_score(query, hits, 100).len();
    let b = a + hits_with_score(query, hits, 80).len();
    let c = b + hits_with_score(query, hits, 70).len();
    if i < a {
        100
    } else if i < b {
        80
    } else if i < c {
        70
    } else {
        60
    }
}

proof fn lemma_strong_ranked_at(query: Seq<char>, hits: Seq<SearchBookView>, i: int)
    requires
        0 <= i < strong_ranked(query, hits).len(),
    ensures
        search_score(query, strong_ranked(query, hits)[i]) == level_at(query, hits, i),
        hits.contains(strong_ranked(query, hits)[i]),
{
    broadcast use vstd::seq_lib::group_filter_ensures;

    let g100 = hits_with_score(query, hits, 100);
    let g80 = hits_with_score(query, hits, 80);
    let g70 = hits_with_score(query, hits, 70);
    let g60 = hits_with_score(query, hits, 60);
    let out = strong_ranked(query, hits);
    let a = g100.len() as int;
    let b = a + g80.len();
    let c = b + g70.len();
    let (g, k, level) = if i < a {
        (g100, i, 100int)
    } else if i < b {
        (g80, i - a, 80int)
    } else if i < c {
        (g70, i - b, 70int)
    } else {
        (g60, i - c, 60int)
    };
    assert(out[i] == g[k]);
    assert(g.contains(g[k]));
    hits.lemma_filter_contains_rev(scored(query, level), g[k]);
}

/// The strong ranking shows only strong hits, each one of the hits given, best first.
pub proof fn lemma_strong_ranked(query: Seq<char>, hits: Seq<SearchBookView>)
    ensures
        forall|i: int|
            0 <= i < strong_ranked(query, hits).len() ==> is_strong_hit(
                query,
                #[trigger] strong_ranked(query, hits)[i],
            ) && hits.contains(strong_ranked(query, hits)[i]),
        ranked_by_score(query, strong_ranked(query, hits)),
{
    let out = strong_ranked(query, hits);
    assert forall|i: int| 0 <= i < out.len() implies is_strong_hit(query, #[trigger] out[i])
        && hits.contains(out[i]) by {
        lemma_strong_ranked_at(query, hits, i);
    }
    assert forall|i: int, j: int| 0 <= i < j < out.len() implies search_score(
        query,
        #[trigger] out[i],
    ) >= search_score(query, #[trigger] out[j]) by {
        lemma_strong_ranked_at(query, hits, i);
        lemma_strong_ranked_at(query, hits, j);
    }
}

} // verus!
