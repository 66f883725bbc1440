//! Merging the hits that several book sources return for one search.
use vstd::prelude::*;
use crate::available::books_view;
use crate::keyset::KeySet;
use crate::model::{
    copy_opt, copy_strings, merge_key_of, strings_contain, strings_view, SearchBook,
    SearchBookView,
};
use crate::relevance::{
    filter_strong_search_results, hits_with_score, is_strong_hit, lemma_strong_ranked,
    ranked_by_score, score_search_book, scored, search_score, strong_ranked,
};

verus! {

/// The sources a hit lists: its source list, or its own origin when it has none.
pub open spec fn listed_sources(e: SearchBookView) -> Seq<Seq<char>> {
    match e.book_source_urls {
        Some(u) => u,
        None => seq![e.origin],
    }
}

/// Two hits of the same book from different sources, combined: the better scored
/// hit is kept (the earlier one on a tie) and each missing detail is taken from
/// the other hit; the sources already gathered for the book stay listed, and the
/// incoming origin joins them unless it is there already.
pub open spec fn combine_hits(
    query: Seq<char>,
    existing: SearchBookView,
    incoming: SearchBookView,
) -> SearchBookView {
    let swap = search_score(query, incoming) > search_score(query, existing);
    let keep = if swap {
        incoming
    } else {
        existing
    };
    let other = if swap {
        existing
    } else {
        incoming
    };
    let urls0 = listed_sources(existing);
    let urls = if urls0.contains(incoming.origin) {
        urls0
    } else {
        urls0.push(incoming.origin)
    };
    SearchBookView {
        book_source_urls: Some(urls),
        cover_url: if keep.cover_url is None {
            other.cover_url
        } else {
            keep.cover_url
        },
        intro: if keep.intro is None {
            other.intro
        } else {
            keep.intro
        },
        kind: if keep.kind is None {
            other.kind
        } else {
            keep.kind
        },
        last_chapter: if keep.last_chapter is None {
            other.last_chapter
        } else {
            keep.last_chapter
        },
        update_time: if keep.update_time is None {
            other.update_time
        } else {
            keep.update_time
        },
        word_count: if keep.word_count is None {
            other.word_count
        } else {
            keep.word_count
        },
        ..keep
    }
}

/// The position of the hit with merge key `k`, if any.
pub open spec fn find_key(acc: Seq<SearchBookView>, k: Seq<char>) -> Option<int> {
    if exists|i: int| 0 <= i < acc.len() && merge_key_of(#[trigger] acc[i]) == k {
        Some(choose|i: int| 0 <= i < acc.len() && merge_key_of(#[trigger] acc[i]) == k)
    } else {
        None
    }
}

/// The hits with one entry per merge key, in the order the keys first appear,
/// each entry combining all hits of its key in turn.
pub open spec fn merge_hits(query: Seq<char>, hits: Seq<SearchBookView>) -> Seq<SearchBookView>
    decreases hits.len(),
{
    if hits.len() == 0 {
        Seq::empty()
    } else {
        let acc = merge_hits(query, hits.drop_last());
        let b = hits.last();
        match find_key(acc, merge_key_of(b)) {
            Some(i) => acc.update(i, combine_hits(query, acc[i], b)),
            None => acc.push(b),
        }
    }
}

/// No two hits share a merge key.
pub open spec fn keys_distinct(s: Seq<SearchBookView>) -> bool {
    forall|i: int, j: int|
        0 <= i < s.len() && 0 <= j < s.len() && i != j ==> merge_key_of(#[trigger] s[i])
            != merge_key_of(#[trigger] s[j])
}

/// Merging leaves one hit per key.
pub proof fn lemma_merge_hits_keys_distinct(query: Seq<char>, hits: Seq<SearchBookView>)
    ensures
        keys_distinct(merge_hits(query, hits)),
    decreases hits.len(),
{
    if hits.len() > 0 {
        lemma_merge_hits_keys_distinct(query, hits.drop_last());
        let acc = merge_hits(query, hits.drop_last());
        let b = hits.last();
        match find_key(acc, merge_key_of(b)) {
            Some(i) => {
                let c = combine_hits(query, acc[i], b);
                assert(merge_key_of(c) == merge_key_of(acc[i]));
                let r = acc.update(i, c);
                assert forall|x: int, y: int|
                    0 <= x < r.len() && 0 <= y < r.len() && x != y implies merge_key_of(
                    #[trigger] r[x],
                ) != merge_key_of(#[trigger] r[y]) by {
                    assert(merge_key_of(r[x]) == merge_key_of(acc[x]));
                    assert(merge_key_of(r[y]) == merge_key_of(acc[y]));
                }
            },
            None => {},
        }
    }
}

fn pick_opt(keep: &Option<String>, other: &Option<String>) -> (r: Option<String>)
    ensures
        crate::model::opt_view(r) == if keep is None {
            crate::model::opt_view(*other)
        } else {
            crate::model::opt_view(*keep)
        },
{
    if keep.is_none() {
        copy_opt(other)
    } else {
        copy_opt(keep)
    }
}

/// Combines two hits of the same book (see [`combine_hits`]).
fn combine_search_hits(query: &str, existing: &SearchBook, incoming: &SearchBook) -> (r: SearchBook)
    ensures
        r@ == combine_hits(query@, existing@, incoming@),
{
    let existing_score = score_search_book(query, existing).score;
    let incoming_score = score_search_book(query, incoming).score;
    let (keep, other) = if incoming_score > existing_score {
        (incoming, existing)
    } else {
        (existing, incoming)
    };
    let mut urls: Vec<String> = match &existing.book_source_urls {
        Some(u) => copy_strings(u),
        None => {
            let mut v: Vec<String> = Vec::new();
            v.push(existing.origin.clone());
            assert(strings_view(v) =~= seq![existing.origin@]);
            v
        },
    };
    if !strings_contain(&urls, &incoming.origin) {
        let ghost before = strings_view(urls);
        urls.push(incoming.origin.clone());
        assert(strings_view(urls) =~= before.push(incoming.origin@));
    }
    let r = SearchBook {
        name: keep.name.clone(),
        author: keep.author.clone(),
        book_url: keep.book_url.clone(),
        origin: keep.origin.clone(),
        cover_url: pick_opt(&keep.cover_url, &other.cover_url),
        intro: pick_opt(&keep.intro, &other.intro),
        kind: pick_opt(&keep.kind, &other.kind),
        last_chapter: pick_opt(&keep.last_chapter, &other.last_chapter),
        update_time: pick_opt(&keep.update_time, &other.update_time),
        word_count: pick_opt(&keep.word_count, &other.word_count),
        book_source_urls: Some(urls),
    };
    r
}

fn position_of_key(keys: &Vec<String>, key: &String) -> (r: Option<usize>)
    ensures
        match r {
            Some(j) => j < keys@.len() && keys@[j as int]@ == key@,
            None => forall|m: int| 0 <= m < keys@.len() ==> keys@[m]@ != key@,
        },
{
    let mut j: usize = 0;
    while j < keys.len()
        invariant
            j <= keys.len(),
            forall|m: int| 0 <= m < j ==> keys@[m]@ != key@,
        decreases keys.len() - j,
    {
        if keys[j] == *key {
            return Some(j);
        }
        j += 1;
    }
    None
}

/// Search hits from different sources merged per book (same trimmed name and
/// author), then the strong ones for the query, best first.
pub fn merge_search_results(query: &str, results: Vec<SearchBook>) -> (r: Vec<SearchBook>)
    ensures
        books_view(r@) == strong_ranked(query@, merge_hits(query@, books_view(results@))),
{
    let ghost all = books_view(results@);
    let mut merged: Vec<SearchBook> = Vec::new();
    let mut keys: Vec<String> = Vec::new();
    let mut i: usize = 0;
    while i < results.len()
        invariant
            i <= results.len(),
            all == books_view(results@),
            books_view(merged@) == merge_hits(query@, all.take(i as int)),
            keys@.len() == merged@.len(),
            forall|j: int| 0 <= j < keys@.len() ==> #[trigger] keys@[j]@ == merge_key_of(merged@[j]@),
        decreases results.len() - i,
    {
        proof {
            lemma_merge_hits_keys_distinct(query@, all.take(i as int));
        }
        assert(all.take(i as int + 1).drop_last() == all.take(i as int));
        assert(all.take(i as int + 1).last() == results@[i as int]@);
        let ghost acc = books_view(merged@);
        let book = &results[i];
        let key = book.merge_key();
        let found = position_of_key(&keys, &key);
        if let Some(j) = found {
            proof {
                assert(acc[j as int] == merged@[j as int]@);
                assert(merge_key_of(acc[j as int]) == merge_key_of(book@));
                let c = choose|m: int| 0 <= m < acc.len() && merge_key_of(#[trigger] acc[m]) == merge_key_of(book@);
                assert(c == j);
            }
            let combined = combine_search_hits(query, &merged[j], book);
            merged.set(j, combined);
            proof {
                assert(books_view(merged@) =~= acc.update(
                    j as int,
                    combine_hits(query@, acc[j as int], book@),
                ));
            }
        } else {
            proof {
                assert forall|m: int| 0 <= m < acc.len() implies merge_key_of(#[trigger] acc[m])
                    != merge_key_of(book@) by {
                    assert(acc[m] == merged@[m]@);
                    assert(keys@[m]@ == merge_key_of(merged@[m]@));
                }
            }
            merged.push(book.copy());
            keys.push(key);
            proof {
                assert(books_view(merged@) =~= acc.push(book@));
            }
        }
        i += 1;
    }
    assert(all.take(results@.len() as int) == all);
    filter_strong_search_results(query, merged)
}

/// The hits of a batch handed out in order: each hit whose merge key was not
/// handed out before; and the keys handed out afterwards.
pub open spec fn fresh_hits(ranked: Seq<SearchBookView>, seen: Set<Seq<char>>) -> (
    Seq<SearchBookView>,
    Set<Seq<char>>,
)
    decreases ranked.len(),
{
    if ranked.len() == 0 {
        (Seq::empty(), seen)
    } else {
        let prev = fresh_hits(ranked.drop_last(), seen);
        let b = ranked.last();
        if prev.1.contains(merge_key_of(b)) {
            prev
        } else {
            (prev.0.push(b), prev.1.insert(merge_key_of(b)))
        }
    }
}

/// One source's hits in the streamed search: the strong ones, best first, that
/// were not handed out before (`seen`); `seen` gains their merge keys.
pub fn take_search_book_multi_sse_batch(
    query: &str,
    books: Vec<SearchBook>,
    seen: &mut KeySet,
) -> (r: Vec<SearchBook>)
    ensures
        (books_view(r@), final(seen)@) == fresh_hits(
            strong_ranked(query@, books_view(books@)),
            old(seen)@,
        ),
{
    let ranked = filter_strong_search_results(query, books);
    let ghost all = books_view(ranked@);
    let mut batch: Vec<SearchBook> = Vec::new();
    let mut i: usize = 0;
    while i < ranked.len()
        invariant
            i <= ranked.len(),
            all == books_view(ranked@),
            (books_view(batch@), seen@) == fresh_hits(all.take(i as int), old(seen)@),
        decreases ranked.len() - i,
    {
        assert(all.take(i as int + 1).drop_last() == all.take(i as int));
        assert(all.take(i as int + 1).last() == ranked@[i as int]@);
        let key = ranked[i].merge_key();
        let ghost prev = fresh_hits(all.take(i as int), old(seen)@);
        let ghost next = fresh_hits(all.take(i as int + 1), old(seen)@);
        if seen.insert(key) {
            let ghost before = batch@;
            batch.push(ranked[i].copy());
            assert(books_view(batch@) =~= books_view(before).push(ranked@[i as int]@));
            assert(next == (prev.0.push(ranked@[i as int]@), prev.1.insert(merge_key_of(ranked@[i as int]@))));
        } else {
            assert(next == prev);
        }
        i += 1;
    }
    assert(all.take(ranked@.len() as int) == all);
    batch
}

proof fn lemma_filter_keys_distinct(s: Seq<SearchBookView>, p: spec_fn(SearchBookView) -> bool)
    requires
        keys_distinct(s),
    ensures
        keys_distinct(s.filter(p)),
    decreases s.len(),
{
    reveal(Seq::filter);
    if s.len() > 0 {
        let t = s.drop_last();
        assert(keys_distinct(t)) by {
            assert forall|i: int, j: int|
                0 <= i < t.len() && 0 <= j < t.len() && i != j implies merge_key_of(#[trigger] t[i])
                != merge_key_of(#[trigger] t[j]) by {
                assert(t[i] == s[i] && t[j] == s[j]);
            }
        }
        lemma_filter_keys_distinct(t, p);
        if p(s.last()) {
            let f = t.filter(p);
            let out = f.push(s.last());
            assert forall|i: int, j: int|
                0 <= i < out.len() && 0 <= j < out.len() && i != j implies merge_key_of(
                #[trigger] out[i],
            ) != merge_key_of(#[trigger] out[j]) by {
                if i < f.len() && j < f.len() {
                    assert(out[i] == f[i] && out[j] == f[j]);
                } else {
                    let k = if i < f.len() {
                        i
                    } else {
                        j
                    };
                    assert(f.contains(f[k]));
                    t.lemma_filter_contains_rev(p, f[k]);
                    let m = choose|m: int| 0 <= m < t.len() && t[m] == f[k];
                    assert(s[m] == t[m]);
                    assert(s[s.len() - 1] == s.last());
                }
            }
        }
    }
}

/// Merging the hits of several sources shows each book once, only strong
/// hits, best first.
pub proof fn lemma_merge_search_results(query: Seq<char>, hits: Seq<SearchBookView>)
    ensures
        keys_distinct(strong_ranked(query, merge_hits(query, hits))),
        forall|i: int|
            0 <= i < strong_ranked(query, merge_hits(query, hits)).len() ==> is_strong_hit(
                query,
                #[trigger] strong_ranked(query, merge_hits(query, hits))[i],
            ),
        ranked_by_score(query, strong_ranked(query, merge_hits(query, hits))),
{
    broadcast use vstd::seq_lib::group_filter_ensures;

    let m = merge_hits(query, hits);
    let out = strong_ranked(query, m);
    lemma_merge_hits_keys_distinct(query, hits);
    lemma_strong_ranked(query, m);
    let g100 = hits_with_score(query, m, 100);
    let g80 = hits_with_score(query, m, 80);
    let g70 = hits_with_score(query, m, 70);
    let g60 = hits_with_score(query, m, 60);
    lemma_filter_keys_distinct(m, scored(query, 100));
    lemma_filter_keys_distinct(m, scored(query, 80));
    lemma_filter_keys_distinct(m, scored(query, 70));
    lemma_filter_keys_distinct(m, scored(query, 60));
    let a = g100.len() as int;
    let b = a + g80.len();
    let c = b + g70.len();
    assert forall|i: int, j: int|
        0 <= i < out.len() && 0 <= j < out.len() && i != j implies merge_key_of(#[trigger] out[i])
        != merge_key_of(#[trigger] out[j]) by {
        if merge_key_of(out[i]) == merge_key_of(out[j]) {
            assert(m.contains(out[i]) && m.contains(out[j]));
            let x = choose|x: int| 0 <= x < m.len() && m[x] == out[i];
            let y = choose|y: int| 0 <= y < m.len() && m[y] == out[j];
            assert(x == y);
            if i < a && j < a {
                assert(out[i] == g100[i] && out[j] == g100[j]);
            } else if a <= i < b && a <= j < b {
                assert(out[i] == g80[i - a] && out[j] == g80[j - a]);
            } else if b <= i < c && b <= j < c {
                assert(out[i] == g70[i - b] && out[j] == g70[j - b]);
            } else if c <= i && c <= j {
                assert(out[i] == g60[i - c] && out[j] == g60[j - c]);
            } else {
                let (gi, ki, li) = if i < a {
                    (g100, i, 100int)
                } else if i < b {
                    (g80, i - a, 80int)
                } else if i < c {
                    (g70, i - b, 70int)
                } else {
                    (g60, i - c, 60int)
                };
                let (gj, kj, lj) = if j < a {
                    (g100, j, 100int)
                } else if j < b {
                    (g80, j - a, 80int)
                } else if j < c {
                    (g70, j - b, 70int)
                } else {
                    (g60, j - c, 60int)
                };
                assert(out[i] == gi[ki] && out[j] == gj[kj]);
                assert(scored(query, li)(gi[ki]));
                assert(scored(query, lj)(gj[kj]));
            }
        }
    }
}

proof fn lemma_fresh_hits(ranked: Seq<SearchBookView>, seen: Set<Seq<char>>)
    ensures
        ({
            let (out, after) = fresh_hits(ranked, seen);
            &&& seen.subset_of(after)
            &&& forall|i: int| 0 <= i < ranked.len() ==> after.contains(merge_key_of(#[trigger] ranked[i]))
            &&& forall|i: int| 0 <= i < out.len() ==> !seen.contains(merge_key_of(#[trigger] out[i]))
            &&& keys_distinct(out)
            &&& forall|i: int| 0 <= i < out.len() ==> ranked.contains(#[trigger] out[i])
        }),
    decreases ranked.len(),
{
    if ranked.len() > 0 {
        let t = ranked.drop_last();
        lemma_fresh_hits(t, seen);
        let (po, pa) = fresh_hits(t, seen);
        let b = ranked.last();
        let (out, after) = fresh_hits(ranked, seen);
        assert forall|i: int| 0 <= i < ranked.len() implies after.contains(
            merge_key_of(#[trigger] ranked[i]),
        ) by {
            if i < t.len() {
                assert(ranked[i] == t[i]);
            }
        }
        assert forall|i: int| 0 <= i < out.len() implies ranked.contains(#[trigger] out[i]) by {
            if i < po.len() {
                assert(out[i] == po[i]);
                assert(t.contains(po[i]));
                let k = choose|k: int| 0 <= k < t.len() && t[k] == po[i];
                assert(ranked[k] == t[k]);
            } else {
                assert(ranked[ranked.len() - 1] == b);
            }
        }
        if !pa.contains(merge_key_of(b)) {
            assert forall|i: int| 0 <= i < out.len() implies !seen.contains(
                merge_key_of(#[trigger] out[i]),
            ) by {
                if i < po.len() {
                    assert(out[i] == po[i]);
                }
            }
            assert forall|i: int, j: int|
                0 <= i < out.len() && 0 <= j < out.len() && i != j implies merge_key_of(
                #[trigger] out[i],
            ) != merge_key_of(#[trigger] out[j]) by {
                if i < po.len() && j < po.len() {
                    assert(out[i] == po[i] && out[j] == po[j]);
                } else {
                    let k = if i < po.len() {
                        i
                    } else {
                        j
                    };
                    assert(t.contains(po[k]));
                    let m = choose|m: int| 0 <= m < t.len() && t[m] == po[k];
                    assert(pa.contains(merge_key_of(t[m])));
                }
            }
        }
    }
}

proof fn lemma_fresh_hits_nothing_new(ranked: Seq<SearchBookView>, seen: Set<Seq<char>>)
    requires
        forall|i: int| 0 <= i < ranked.len() ==> seen.contains(merge_key_of(#[trigger] ranked[i])),
    ensures
        fresh_hits(ranked, seen) == (Seq::<SearchBookView>::empty(), seen),
    decreases ranked.len(),
{
    if ranked.len() > 0 {
        let t = ranked.drop_last();
        assert forall|i: int| 0 <= i < t.len() implies seen.contains(merge_key_of(#[trigger] t[i])) by {
            assert(t[i] == ranked[i]);
        }
        lemma_fresh_hits_nothing_new(t, seen);
        assert(seen.contains(merge_key_of(ranked[ranked.len() - 1])));
    }
}

/// A batch of the streamed search hands out strong hits, best first, each
/// book once and none handed out before, and the keys handed out before stay.
pub proof fn lemma_sse_batch(query: Seq<char>, hits: Seq<SearchBookView>, seen: Set<Seq<char>>)
    ensures
        ({
            let ranked = strong_ranked(query, hits);
            let (out, after) = fresh_hits(ranked, seen);
            &&& forall|i: int| 0 <= i < out.len() ==> is_strong_hit(query, #[trigger] out[i])
            &&& forall|i: int| 0 <= i < out.len() ==> !seen.contains(merge_key_of(#[trigger] out[i]))
            &&& keys_distinct(out)
            &&& seen.subset_of(after)
        }),
{
    let ranked = strong_ranked(query, hits);
    lemma_strong_ranked(query, hits);
    lemma_fresh_hits(ranked, seen);
    let (out, after) = fresh_hits(ranked, seen);
    assert forall|i: int| 0 <= i < out.len() implies is_strong_hit(query, #[trigger] out[i]) by {
        assert(ranked.contains(out[i]));
        let k = choose|k: int| 0 <= k < ranked.len() && ranked[k] == out[i];
        assert(is_strong_hit(query, ranked[k]));
    }
}

/// A batch repeated with the same query and hits right after the first hands
/// out nothing and leaves the handed-out keys as they are.
pub proof fn lemma_sse_batch_repeated(
    query: Seq<char>,
    hits: Seq<SearchBookView>,
    seen: Set<Seq<char>>,
)
    ensures
        ({
            let ranked = strong_ranked(query, hits);
            let after = fresh_hits(ranked, seen).1;
            fresh_hits(ranked, after) == (Seq::<SearchBookView>::empty(), after)
        }),
{
    let ranked = strong_ranked(query, hits);
    lemma_fresh_hits(ranked, seen);
    lemma_fresh_hits_nothing_new(ranked, fresh_hits(ranked, seen).1);
}

/// One of the details a hit may carry: 0 the cover, 1 the intro, 2 the kind,
/// 3 the last chapter, 4 the update time, 5 the word count.
pub open spec fn hit_detail(b: SearchBookView, d: int) -> Option<Seq<char>> {
    if d == 0 {
        b.cover_url
    } else if d == 1 {
        b.intro
    } else if d == 2 {
        b.kind
    } else if d == 3 {
        b.last_chapter
    } else if d == 4 {
        b.update_time
    } else {
        b.word_count
    }
}

/// Some hit with merge key `k` carries detail `d` with value `v`.
pub open spec fn key_detail_is(hits: Seq<SearchBookView>, k: Seq<char>, d: int, v: Option<Seq<char>>) -> bool {
    exists|j: int| 0 <= j < hits.len() && merge_key_of(#[trigger] hits[j]) == k && hit_detail(hits[j], d) == v
}

/// Some hit with merge key `k` carries detail `d`.
pub open spec fn key_has_detail(hits: Seq<SearchBookView>, k: Seq<char>, d: int) -> bool {
    exists|j: int| 0 <= j < hits.len() && merge_key_of(#[trigger] hits[j]) == k && hit_detail(hits[j], d) is Some
}

proof fn lemma_detail_is_push(t: Seq<SearchBookView>, b: SearchBookView, k: Seq<char>, d: int, v: Option<Seq<char>>)
    requires
        key_detail_is(t, k, d, v) || (merge_key_of(b) == k && hit_detail(b, d) == v),
    ensures
        key_detail_is(t.push(b), k, d, v),
{
    let h = t.push(b);
    if key_detail_is(t, k, d, v) {
        let j = choose|j: int| 0 <= j < t.len() && merge_key_of(#[trigger] t[j]) == k && hit_detail(t[j], d) == v;
        assert(h[j] == t[j]);
    } else {
        assert(h[t.len() as int] == b);
    }
}

proof fn lemma_has_detail_push(t: Seq<SearchBookView>, b: SearchBookView, k: Seq<char>, d: int)
    ensures
        key_has_detail(t.push(b), k, d) == (key_has_detail(t, k, d) || (merge_key_of(b) == k
            && hit_detail(b, d) is Some)),
{
    let h = t.push(b);
    if key_has_detail(t, k, d) {
        let j = choose|j: int| 0 <= j < t.len() && merge_key_of(#[trigger] t[j]) == k && hit_detail(t[j], d) is Some;
        assert(h[j] == t[j]);
    }
    if merge_key_of(b) == k && hit_detail(b, d) is Some {
        assert(h[t.len() as int] == b);
    }
    if key_has_detail(h, k, d) {
        let j = choose|j: int| 0 <= j < h.len() && merge_key_of(#[trigger] h[j]) == k && hit_detail(h[j], d) is Some;
        if j < t.len() {
            assert(h[j] == t[j]);
        }
    }
}

proof fn lemma_combine_details(query: Seq<char>, e: SearchBookView, b: SearchBookView, d: int)
    requires
        0 <= d < 6,
    ensures
        (hit_detail(combine_hits(query, e, b), d) is Some) == (hit_detail(e, d) is Some || hit_detail(b, d) is Some),
        hit_detail(combine_hits(query, e, b), d) == hit_detail(e, d) || hit_detail(
            combine_hits(query, e, b),
            d,
        ) == hit_detail(b, d),
{
}

/// Whether the merged hit `e` carries each detail exactly as the hits of its
/// merge key allow: it carries one when some hit of the key does, and then a
/// value that some hit of the key carries.
pub open spec fn details_gathered(hits: Seq<SearchBookView>, e: SearchBookView) -> bool {
    forall|d: int|
        0 <= d < 6 ==> {
            &&& (#[trigger] hit_detail(e, d) is Some) == key_has_detail(hits, merge_key_of(e), d)
            &&& key_detail_is(hits, merge_key_of(e), d, hit_detail(e, d)) || hit_detail(e, d) is None
        }
}

/// Merging fills in details: a merged book carries each detail (cover, intro,
/// kind, last chapter, update time, word count) exactly when some hit of its
/// merge key carries it, and then with the value of such a hit; a detail the
/// kept hit lacks is taken from another hit of the book that has it.
pub proof fn lemma_merge_fills_details(query: Seq<char>, hits: Seq<SearchBookView>)
    ensures
        forall|m: int|
            0 <= m < merge_hits(query, hits).len() ==> details_gathered(
                hits,
                #[trigger] merge_hits(query, hits)[m],
            ),
    decreases hits.len(),
{
    if hits.len() > 0 {
        let t = hits.drop_last();
        let b = hits.last();
        assert(t.push(b) == hits);
        lemma_merge_fills_details(query, t);
        lemma_merge_hits_keys_distinct(query, t);
        let acc = merge_hits(query, t);
        let r = merge_hits(query, hits);
        let kb = merge_key_of(b);
        match find_key(acc, kb) {
            Some(i) => {
                let c = combine_hits(query, acc[i], b);
                assert(r == acc.update(i, c));
                assert(merge_key_of(acc[i]) == kb);
                assert(merge_key_of(c) == kb);
                assert forall|m: int| 0 <= m < r.len() implies details_gathered(hits, #[trigger] r[m]) by {
                    let e = r[m];
                    let k = merge_key_of(e);
                    assert forall|d: int| 0 <= d < 6 implies {
                        &&& (#[trigger] hit_detail(e, d) is Some) == key_has_detail(hits, k, d)
                        &&& key_detail_is(hits, k, d, hit_detail(e, d)) || hit_detail(e, d) is None
                    } by {
                        lemma_has_detail_push(t, b, k, d);
                        if m == i {
                            assert(details_gathered(t, acc[i]));
                            assert(hit_detail(acc[i], d) is Some == key_has_detail(t, kb, d));
                            lemma_combine_details(query, acc[i], b, d);
                            if hit_detail(e, d) is Some {
                                if hit_detail(e, d) == hit_detail(acc[i], d) && hit_detail(acc[i], d) is Some {
                                    assert(key_detail_is(t, kb, d, hit_detail(acc[i], d)));
                                    lemma_detail_is_push(t, b, kb, d, hit_detail(e, d));
                                } else {
                                    lemma_detail_is_push(t, b, kb, d, hit_detail(e, d));
                                }
                            }
                        } else {
                            assert(r[m] == acc[m]);
                            assert(merge_key_of(acc[m]) != merge_key_of(acc[i]));
                            assert(details_gathered(t, acc[m]));
                            assert(hit_detail(acc[m], d) is Some == key_has_detail(t, k, d));
                            if hit_detail(e, d) is Some {
                                lemma_detail_is_push(t, b, k, d, hit_detail(e, d));
                            }
                        }
                    }
                }
            },
            None => {
                assert(r == acc.push(b));
                lemma_merge_hits_has_keys(query, t);
                assert forall|m: int| 0 <= m < r.len() implies details_gathered(hits, #[trigger] r[m]) by {
                    let e = r[m];
                    let k = merge_key_of(e);
                    assert forall|d: int| 0 <= d < 6 implies {
                        &&& (#[trigger] hit_detail(e, d) is Some) == key_has_detail(hits, k, d)
                        &&& key_detail_is(hits, k, d, hit_detail(e, d)) || hit_detail(e, d) is None
                    } by {
                        lemma_has_detail_push(t, b, k, d);
                        if m < acc.len() {
                            assert(r[m] == acc[m]);
                            assert(merge_key_of(acc[m]) != kb);
                            assert(details_gathered(t, acc[m]));
                            assert(hit_detail(acc[m], d) is Some == key_has_detail(t, k, d));
                            if hit_detail(e, d) is Some {
                                lemma_detail_is_push(t, b, k, d, hit_detail(e, d));
                            }
                        } else {
                            assert(e == b);
                            if key_has_detail(t, kb, d) {
                                let j = choose|j: int| 0 <= j < t.len() && merge_key_of(#[trigger] t[j]) == kb && hit_detail(t[j], d) is Some;
                                assert(has_key(acc, merge_key_of(t[j])));
                            }
                            lemma_detail_is_push(t, b, kb, d, hit_detail(b, d));
                        }
                    }
                }
            },
        }
    }
}

/// The different origins of the hits with merge key `k`, in the order they
/// first appear.
pub open spec fn key_origins(hits: Seq<SearchBookView>, k: Seq<char>) -> Seq<Seq<char>>
    decreases hits.len(),
{
    if hits.len() == 0 {
        Seq::empty()
    } else {
        let prev = key_origins(hits.drop_last(), k);
        let b = hits.last();
        if merge_key_of(b) == k && !prev.contains(b.origin) {
            prev.push(b.origin)
        } else {
            prev
        }
    }
}

/// Some hit in `acc` has merge key `k`.
pub open spec fn has_key(acc: Seq<SearchBookView>, k: Seq<char>) -> bool {
    exists|m: int| 0 <= m < acc.len() && merge_key_of(#[trigger] acc[m]) == k
}

proof fn lemma_key_origins_absent(hits: Seq<SearchBookView>, k: Seq<char>)
    requires
        forall|j: int| 0 <= j < hits.len() ==> merge_key_of(#[trigger] hits[j]) != k,
    ensures
        key_origins(hits, k) == Seq::<Seq<char>>::empty(),
    decreases hits.len(),
{
    if hits.len() > 0 {
        let t = hits.drop_last();
        assert forall|j: int| 0 <= j < t.len() implies merge_key_of(#[trigger] t[j]) != k by {
            assert(t[j] == hits[j]);
        }
        lemma_key_origins_absent(t, k);
        assert(merge_key_of(hits[hits.len() - 1]) != k);
    }
}

proof fn lemma_key_origins_contains(hits: Seq<SearchBookView>, j: int)
    requires
        0 <= j < hits.len(),
    ensures
        key_origins(hits, merge_key_of(hits[j])).contains(hits[j].origin),
    decreases hits.len(),
{
    let t = hits.drop_last();
    let b = hits.last();
    let k = merge_key_of(hits[j]);
    let x = hits[j].origin;
    let prev = key_origins(t, k);
    if j < t.len() {
        assert(t[j] == hits[j]);
        lemma_key_origins_contains(t, j);
        let idx = choose|idx: int| 0 <= idx < prev.len() && prev[idx] == x;
        if merge_key_of(b) == k && !prev.contains(b.origin) {
            assert(prev.push(b.origin)[idx] == x);
        }
    } else {
        assert(b == hits[j]);
        if !prev.contains(x) {
            assert(prev.push(x)[prev.len() as int] == x);
        }
    }
}

proof fn lemma_merge_hits_has_keys(query: Seq<char>, hits: Seq<SearchBookView>)
    ensures
        forall|j: int| 0 <= j < hits.len() ==> has_key(merge_hits(query, hits), merge_key_of(#[trigger] hits[j])),
    decreases hits.len(),
{
    if hits.len() > 0 {
        let t = hits.drop_last();
        let b = hits.last();
        lemma_merge_hits_has_keys(query, t);
        let acc = merge_hits(query, t);
        let r = merge_hits(query, hits);
        match find_key(acc, merge_key_of(b)) {
            Some(i) => {
                let c = combine_hits(query, acc[i], b);
                assert(r == acc.update(i, c));
                assert(merge_key_of(c) == merge_key_of(acc[i]));
                assert forall|j: int| 0 <= j < hits.len() implies has_key(r, merge_key_of(#[trigger] hits[j])) by {
                    if j < t.len() {
                        assert(hits[j] == t[j]);
                        assert(has_key(acc, merge_key_of(t[j])));
                        let m = choose|m: int| 0 <= m < acc.len() && merge_key_of(#[trigger] acc[m]) == merge_key_of(t[j]);
                        assert(merge_key_of(r[m]) == merge_key_of(acc[m]));
                    } else {
                        assert(hits[j] == b);
                        assert(merge_key_of(r[i]) == merge_key_of(b));
                    }
                }
            },
            None => {
                assert(r == acc.push(b));
                assert forall|j: int| 0 <= j < hits.len() implies has_key(r, merge_key_of(#[trigger] hits[j])) by {
                    if j < t.len() {
                        assert(hits[j] == t[j]);
                        assert(has_key(acc, merge_key_of(t[j])));
                        let m = choose|m: int| 0 <= m < acc.len() && merge_key_of(#[trigger] acc[m]) == merge_key_of(t[j]);
                        assert(r[m] == acc[m]);
                    } else {
                        assert(hits[j] == b);
                        assert(r[acc.len() as int] == b);
                    }
                }
            },
        }
    }
}

proof fn lemma_merge_hits_sources(query: Seq<char>, hits: Seq<SearchBookView>)
    requires
        forall|i: int| 0 <= i < hits.len() ==> (#[trigger] hits[i]).book_source_urls is None,
    ensures
        forall|m: int|
            0 <= m < merge_hits(query, hits).len() ==> listed_sources(
                #[trigger] merge_hits(query, hits)[m],
            ) == key_origins(hits, merge_key_of(merge_hits(query, hits)[m])),
    decreases hits.len(),
{
    if hits.len() > 0 {
        let t = hits.drop_last();
        let b = hits.last();
        assert(b == hits[hits.len() - 1]);
        assert forall|i: int| 0 <= i < t.len() implies (#[trigger] t[i]).book_source_urls is None by {
            assert(t[i] == hits[i]);
        }
        lemma_merge_hits_sources(query, t);
        lemma_merge_hits_keys_distinct(query, t);
        let acc = merge_hits(query, t);
        let r = merge_hits(query, hits);
        let kb = merge_key_of(b);
        match find_key(acc, kb) {
            Some(i) => {
                let c = combine_hits(query, acc[i], b);
                assert(r == acc.update(i, c));
                assert(merge_key_of(acc[i]) == kb);
                assert forall|m: int| 0 <= m < r.len() implies listed_sources(#[trigger] r[m])
                    == key_origins(hits, merge_key_of(r[m])) by {
                    if m == i {
                        assert(merge_key_of(c) == kb);
                        assert(listed_sources(acc[i]) == key_origins(t, kb));
                    } else {
                        assert(r[m] == acc[m]);
                        assert(merge_key_of(acc[m]) != merge_key_of(acc[i]));
                        assert(listed_sources(acc[m]) == key_origins(t, merge_key_of(acc[m])));
                    }
                }
            },
            None => {
                assert(r == acc.push(b));
                lemma_merge_hits_has_keys(query, t);
                assert forall|j: int| 0 <= j < t.len() implies merge_key_of(#[trigger] t[j]) != kb by {
                    assert(has_key(acc, merge_key_of(t[j])));
                }
                lemma_key_origins_absent(t, kb);
                assert forall|m: int| 0 <= m < r.len() implies listed_sources(#[trigger] r[m])
                    == key_origins(hits, merge_key_of(r[m])) by {
                    if m < acc.len() {
                        assert(r[m] == acc[m]);
                        assert(merge_key_of(acc[m]) != kb);
                        assert(listed_sources(acc[m]) == key_origins(t, merge_key_of(acc[m])));
                    } else {
                        assert(r[m] == b);
                        assert(Seq::<Seq<char>>::empty().push(b.origin) =~= seq![b.origin]);
                    }
                }
            },
        }
    }
}

/// Merging gathers every source of a book. Given hits that come without
/// source lists, each merged book lists exactly the different origins of
/// the hits of its merge key, in the order they first appear, whichever of
/// those hits was kept; every hit's book is among the merged books; and the
/// merged books that the search returns (the strong ones, best first) list
/// their sources the same way.
pub proof fn lemma_merge_lists_every_source(query: Seq<char>, hits: Seq<SearchBookView>)
    requires
        forall|i: int| 0 <= i < hits.len() ==> (#[trigger] hits[i]).book_source_urls is None,
    ensures
        forall|m: int|
            0 <= m < merge_hits(query, hits).len() ==> listed_sources(
                #[trigger] merge_hits(query, hits)[m],
            ) == key_origins(hits, merge_key_of(merge_hits(query, hits)[m])),
        forall|j: int|
            0 <= j < hits.len() ==> has_key(merge_hits(query, hits), merge_key_of(#[trigger] hits[j])),
        forall|j: int|
            0 <= j < hits.len() ==> key_origins(hits, merge_key_of(#[trigger] hits[j])).contains(
                hits[j].origin,
            ),
        forall|i: int|
            0 <= i < strong_ranked(query, merge_hits(query, hits)).len() ==> listed_sources(
                #[trigger] strong_ranked(query, merge_hits(query, hits))[i],
            ) == key_origins(hits, merge_key_of(strong_ranked(query, merge_hits(query, hits))[i])),
{
    let m = merge_hits(query, hits);
    lemma_merge_hits_sources(query, hits);
    lemma_merge_hits_has_keys(query, hits);
    assert forall|j: int| 0 <= j < hits.len() implies key_origins(
        hits,
        merge_key_of(#[trigger] hits[j]),
    ).contains(hits[j].origin) by {
        lemma_key_origins_contains(hits, j);
    }
    lemma_strong_ranked(query, m);
    let out = strong_ranked(query, m);
    assert forall|i: int| 0 <= i < out.len() implies listed_sources(#[trigger] out[i])
        == key_origins(hits, merge_key_of(out[i])) by {
        assert(m.contains(out[i]));
        let x = choose|x: int| 0 <= x < m.len() && m[x] == out[i];
        assert(listed_sources(m[x]) == key_origins(hits, merge_key_of(m[x])));
    }
}

} // verus!
