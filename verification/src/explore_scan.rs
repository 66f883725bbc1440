//! The scan behind the gathered explore page: its parameters, the sources that
//! take part and the listing each offers, the order in which they are visited,
//! and the window of sources one request visits.
use vstd::prelude::*;
use crate::available::clamp;
use crate::explore::{
    best_kind_selection, category_named, select_global_explore_kind,
    source_supports_global_explore, supports_global_explore, ExploreHitView,
    GlobalExploreBookHit, GlobalExploreKindSelection, KindSelectionView,
};
use crate::model::{opt_view, BookSource, ExploreKind, SearchBook, SearchBookView};
use crate::requests::{ExploreBookGlobalRequest, ExploreBookGlobalResponse};

verus! {

/// Books asked for when the request names no limit.
pub const DEFAULT_GLOBAL_EXPLORE_LIMIT: usize = 20;

/// The most books one request may ask for.
pub const MAX_GLOBAL_EXPLORE_LIMIT: usize = 100;

/// Sources visited at once when the request names no count.
pub const DEFAULT_GLOBAL_EXPLORE_CONCURRENT: usize = 16;

/// The most sources visited at once.
pub const MAX_GLOBAL_EXPLORE_CONCURRENT: usize = 24;

/// Sources one request visits when it names no scan limit.
pub const DEFAULT_GLOBAL_EXPLORE_SCAN_LIMIT: usize = 96;

/// The most sources one request visits.
pub const MAX_GLOBAL_EXPLORE_SCAN_LIMIT: usize = 120;

/// The parameters of the gathered explore page.
#[derive(Debug)]
pub struct ExploreGlobalParams {
    /// The category asked for ("mixed" when none).
    pub category: String,
    /// The position, among the sources that take part, to start from.
    pub cursor: usize,
    /// The page of each listing (at least 1).
    pub page: i32,
    /// How many books to answer (between 1 and 100).
    pub limit: usize,
    /// How many sources are visited at once (between 1 and 24).
    pub concurrent: usize,
    /// How many sources this request visits (between the concurrency and 120).
    pub scan_limit: usize,
}

/// The parameters of the gathered explore page, with their defaults and bounds.
pub fn explore_global_params(req: &ExploreBookGlobalRequest) -> (r: ExploreGlobalParams)
    ensures
        r.category@ == match opt_view(req.category) {
            Some(c) => c,
            None => "mixed"@,
        },
        r.cursor == match req.cursor {
            Some(c) => c,
            None => 0,
        },
        r.page == match req.page {
            Some(p) => if p < 1 {
                1
            } else {
                p
            },
            None => 1,
        },
        r.limit as int == clamp(
            match req.limit {
                Some(l) => l as int,
                None => DEFAULT_GLOBAL_EXPLORE_LIMIT as int,
            },
            1,
            MAX_GLOBAL_EXPLORE_LIMIT as int,
        ),
        r.concurrent as int == clamp(
            match req.concurrent_count {
                Some(c) => c as int,
                None => DEFAULT_GLOBAL_EXPLORE_CONCURRENT as int,
            },
            1,
            MAX_GLOBAL_EXPLORE_CONCURRENT as int,
        ),
        r.scan_limit as int == clamp(
            match req.scan_limit {
                Some(s) => s as int,
                None => DEFAULT_GLOBAL_EXPLORE_SCAN_LIMIT as int,
            },
            r.concurrent as int,
            MAX_GLOBAL_EXPLORE_SCAN_LIMIT as int,
        ),
{
    let category = match &req.category {
        Some(c) => c.clone(),
        None => "mixed".to_string(),
    };
    let page: i32 = match req.page {
        Some(p) => if p < 1 {
            1
        } else {
            p
        },
        None => 1,
    };
    let limit = clamp_usize(
        match req.limit {
            Some(l) => l,
            None => DEFAULT_GLOBAL_EXPLORE_LIMIT,
        },
        1,
        MAX_GLOBAL_EXPLORE_LIMIT,
    );
    let concurrent = clamp_usize(
        match req.concurrent_count {
            Some(c) => c,
            None => DEFAULT_GLOBAL_EXPLORE_CONCURRENT,
        },
        1,
        MAX_GLOBAL_EXPLORE_CONCURRENT,
    );
    let scan_limit = clamp_usize(
        match req.scan_limit {
            Some(s) => s,
            None => DEFAULT_GLOBAL_EXPLORE_SCAN_LIMIT,
        },
        concurrent,
        MAX_GLOBAL_EXPLORE_SCAN_LIMIT,
    );
    ExploreGlobalParams {
        category,
        cursor: match req.cursor {
            Some(c) => c,
            None => 0,
        },
        page,
        limit,
        concurrent,
        scan_limit,
    }
}

fn clamp_usize(x: usize, lo: usize, hi: usize) -> (r: usize)
    requires
        lo <= hi,
    ensures
        r as int == clamp(x as int, lo as int, hi as int),
{
    if x < lo {
        lo
    } else if x > hi {
        hi
    } else {
        x
    }
}

/// A source that takes part in the gathered explore page, with its position
/// among all sources and the listing chosen for the category.
#[derive(Debug, Clone)]
pub struct GlobalExploreCandidate {
    pub source_index: usize,
    pub kind: GlobalExploreKindSelection,
}

impl GlobalExploreCandidate {
    /// A copy of the candidate.
    pub fn copy(&self) -> (r: GlobalExploreCandidate)
        ensures
            r@ == self@,
    {
        GlobalExploreCandidate {
            source_index: self.source_index,
            kind: GlobalExploreKindSelection {
                title: self.kind.title.clone(),
                url: self.kind.url.clone(),
                score: self.kind.score,
            },
        }
    }
}

/// The view of a [`GlobalExploreCandidate`].
pub struct CandidateView {
    pub source_index: nat,
    pub kind: KindSelectionView,
}

impl View for GlobalExploreCandidate {
    type V = CandidateView;

    open spec fn view(&self) -> CandidateView {
        CandidateView { source_index: self.source_index as nat, kind: self.kind@ }
    }
}

/// The views of a list of candidates.
pub open spec fn candidates_view(v: Seq<GlobalExploreCandidate>) -> Seq<CandidateView> {
    v.map_values(|c: GlobalExploreCandidate| c@)
}

/// The candidates among the first `n` sources, in source order: each source
/// that takes part, whose explore listings are known, and one of whose
/// listings fits the category (the best, see [`best_kind_selection`]).
pub open spec fn candidates_upto(
    category: Seq<char>,
    sources: Seq<BookSource>,
    kinds: Seq<Option<Vec<ExploreKind>>>,
    n: nat,
) -> Seq<CandidateView>
    decreases n,
{
    if n == 0 {
        Seq::empty()
    } else {
        let prev = candidates_upto(category, sources, kinds, (n - 1) as nat);
        let i = n - 1;
        let s = sources[i];
        if supports_global_explore(s.enabled, s.enabled_explore, opt_view(s.explore_url)) {
            match kinds[i] {
                Some(k) => match best_kind_selection(category_named(category), k@) {
                    Some(sel) => prev.push(CandidateView { source_index: i as nat, kind: sel }),
                    None => prev,
                },
                None => prev,
            }
        } else {
            prev
        }
    }
}

/// The sources that take part in the gathered explore page for `category`,
/// given the explore listings of each source (`None` where they could not be read).
pub fn global_explore_candidates(
    category: &str,
    sources: &[BookSource],
    kinds: &[Option<Vec<ExploreKind>>],
) -> (r: Vec<GlobalExploreCandidate>)
    requires
        sources@.len() == kinds@.len(),
    ensures
        candidates_view(r@) == candidates_upto(category@, sources@, kinds@, sources@.len() as nat),
{
    let mut out: Vec<GlobalExploreCandidate> = Vec::new();
    let mut i: usize = 0;
    while i < sources.len()
        invariant
            i <= sources@.len() == kinds@.len(),
            candidates_view(out@) == candidates_upto(category@, sources@, kinds@, i as nat),
        decreases sources.len() - i,
    {
        if source_supports_global_explore(&sources[i]) {
            match &kinds[i] {
                Some(k) => match select_global_explore_kind(category, k.as_slice()) {
                    Some(kind) => {
                        let ghost before = candidates_view(out@);
                        out.push(GlobalExploreCandidate { source_index: i, kind });
                        assert(candidates_view(out@) =~= before.push(
                            CandidateView { source_index: i as nat, kind: kind@ },
                        ));
                    },
                    None => {},
                },
                None => {},
            }
        }
        i += 1;
    }
    out
}

/// Candidate `a` is visited before `b`: a higher listing score, or the same
/// score and an earlier source.
pub open spec fn candidate_before(a: CandidateView, b: CandidateView) -> bool {
    a.kind.score > b.kind.score || (a.kind.score == b.kind.score && a.source_index
        < b.source_index)
}

/// Where a candidate goes among sorted candidates: before the first that it
/// is visited before.
pub open spec fn candidate_position(s: Seq<CandidateView>, x: CandidateView) -> nat
    decreases s.len(),
{
    if s.len() == 0 {
        0
    } else if candidate_before(x, s[0]) {
        0
    } else {
        1 + candidate_position(s.drop_first(), x)
    }
}

/// The candidates in visiting order (candidates that tie keep their order).
pub open spec fn sort_candidates(s: Seq<CandidateView>) -> Seq<CandidateView>
    decreases s.len(),
{
    if s.len() == 0 {
        s
    } else {
        let t = sort_candidates(s.drop_last());
        t.insert(candidate_position(t, s.last()) as int, s.last())
    }
}

/// No candidate of `s` is visited before one that comes earlier in `s`.
pub open spec fn candidates_sorted(s: Seq<CandidateView>) -> bool {
    forall|i: int, j: int| 0 <= i < j < s.len() ==> !candidate_before(#[trigger] s[j], #[trigger] s[i])
}

proof fn lemma_candidate_position(s: Seq<CandidateView>, x: CandidateView)
    ensures
        candidate_position(s, x) <= s.len(),
        forall|i: int| 0 <= i < candidate_position(s, x) ==> !candidate_before(x, #[trigger] s[i]),
        candidate_position(s, x) < s.len() ==> candidate_before(x, s[candidate_position(s, x) as int]),
    decreases s.len(),
{
    if s.len() > 0 && !candidate_before(x, s[0]) {
        let t = s.drop_first();
        lemma_candidate_position(t, x);
        assert forall|i: int| 0 <= i < candidate_position(s, x) implies !candidate_before(
            x,
            #[trigger] s[i],
        ) by {
            if i > 0 {
                assert(s[i] == t[i - 1]);
            }
        }
        if candidate_position(s, x) < s.len() {
            assert(s[candidate_position(s, x) as int] == t[candidate_position(t, x) as int]);
        }
    }
}

/// Sorting the candidates keeps each of them, and no candidate comes after one
/// that it is visited before.
pub proof fn lemma_sort_candidates(s: Seq<CandidateView>)
    ensures
        sort_candidates(s).len() == s.len(),
        sort_candidates(s).to_multiset() == s.to_multiset(),
        candidates_sorted(sort_candidates(s)),
    decreases s.len(),
{
    broadcast use vstd::seq_lib::to_multiset_insert, vstd::seq_lib::to_multiset_build;

    if s.len() > 0 {
        let t = sort_candidates(s.drop_last());
        let x = s.last();
        lemma_sort_candidates(s.drop_last());
        lemma_candidate_position(t, x);
        let p = candidate_position(t, x) as int;
        let r = t.insert(p, x);
        assert(s.drop_last().push(x) == s);
        assert forall|i: int, j: int| 0 <= i < j < r.len() implies !candidate_before(
            #[trigger] r[j],
            #[trigger] r[i],
        ) by {
            if j < p {
                assert(r[i] == t[i] && r[j] == t[j]);
            } else if j == p {
                assert(r[i] == t[i]);
            } else if i == p {
                assert(r[j] == t[j - 1]);
                if candidate_before(t[j - 1], x) {
                    assert(p < t.len());
                    if p < j - 1 {
                        assert(!candidate_before(t[j - 1], t[p]));
                    }
                }
            } else if i < p {
                assert(r[i] == t[i] && r[j] == t[j - 1]);
            } else {
                assert(r[i] == t[i - 1] && r[j] == t[j - 1]);
            }
        }
    }
}

fn candidate_before_exec(a: &GlobalExploreCandidate, b: &GlobalExploreCandidate) -> (r: bool)
    ensures
        r == candidate_before(a@, b@),
{
    a.kind.score > b.kind.score || (a.kind.score == b.kind.score && a.source_index
        < b.source_index)
}

proof fn lemma_candidate_position_skip(s: Seq<CandidateView>, x: CandidateView, j: int)
    requires
        0 <= j < s.len(),
        !candidate_before(x, s[j]),
    ensures
        candidate_position(s.skip(j), x) == 1 + candidate_position(s.skip(j + 1), x),
{
    assert(s.skip(j)[0] == s[j]);
    assert(s.skip(j).drop_first() == s.skip(j + 1));
}

/// The candidates in visiting order (see [`sort_candidates`]).
pub fn sort_global_explore_candidates(candidates: Vec<GlobalExploreCandidate>) -> (r: Vec<
    GlobalExploreCandidate,
>)
    ensures
        candidates_view(r@) == sort_candidates(candidates_view(candidates@)),
{
    let ghost all = candidates_view(candidates@);
    let mut sorted: Vec<GlobalExploreCandidate> = Vec::new();
    let mut k: usize = 0;
    while k < candidates.len()
        invariant
            k <= candidates@.len(),
            all == candidates_view(candidates@),
            candidates_view(sorted@) == sort_candidates(all.take(k as int)),
        decreases candidates.len() - k,
    {
        assert(all.take(k as int + 1).drop_last() == all.take(k as int));
        assert(all.take(k as int + 1).last() == candidates@[k as int]@);
        let x = candidates[k].copy();
        let ghost sv = candidates_view(sorted@);
        let mut j: usize = 0;
        assert(sv.skip(0) == sv);
        while j < sorted.len() && !candidate_before_exec(&x, &sorted[j])
            invariant
                j <= sorted@.len(),
                sv == candidates_view(sorted@),
                candidate_position(sv, x@) == j + candidate_position(sv.skip(j as int), x@),
            decreases sorted.len() - j,
        {
            proof {
                lemma_candidate_position_skip(sv, x@, j as int);
            }
            j += 1;
        }
        proof {
            if j < sorted@.len() {
                assert(sv.skip(j as int)[0] == sv[j as int]);
            } else {
                assert(sv.skip(j as int).len() == 0);
            }
        }
        let ghost xv = x@;
        sorted.insert(j, x);
        proof {
            assert(candidates_view(sorted@) =~= sv.insert(j as int, xv));
        }
        k += 1;
    }
    assert(all.take(candidates@.len() as int) == all);
    sorted
}

/// The state of the visit of candidates for one request of the gathered explore page.
pub struct GlobalExploreScanView {
    pub start_cursor: nat,
    pub next_cursor: nat,
    pub stop_cursor: nat,
    pub candidates: nat,
    pub concurrent: nat,
    pub limit: nat,
    pub failed: nat,
}

/// The visit of candidates for one request of the gathered explore page:
/// from the cursor, at most `scan_limit` candidates, `concurrent` at a time,
/// until `limit` books were gathered.
pub struct GlobalExploreScan {
    start_cursor: usize,
    next_cursor: usize,
    stop_cursor: usize,
    candidates: usize,
    concurrent: usize,
    limit: usize,
    failed: usize,
}

impl View for GlobalExploreScan {
    type V = GlobalExploreScanView;

    closed spec fn view(&self) -> GlobalExploreScanView {
        GlobalExploreScanView {
            start_cursor: self.start_cursor as nat,
            next_cursor: self.next_cursor as nat,
            stop_cursor: self.stop_cursor as nat,
            candidates: self.candidates as nat,
            concurrent: self.concurrent as nat,
            limit: self.limit as nat,
            failed: self.failed as nat,
        }
    }
}

/// The visit's positions are in order, and no more sources failed than
/// candidates were handed out since the start.
pub open spec fn scan_counted(v: GlobalExploreScanView) -> bool {
    &&& v.start_cursor <= v.next_cursor <= v.stop_cursor <= v.candidates
    &&& v.failed <= v.next_cursor - v.start_cursor
}

/// The smaller of two numbers.
pub open spec fn min_of(a: int, b: int) -> int {
    if a <= b {
        a
    } else {
        b
    }
}

impl GlobalExploreScan {
    #[verifier::type_invariant]
    closed spec fn ordered(self) -> bool {
        scan_counted(self@)
    }

    /// The visit of `candidates` candidates from `cursor` (see [`ExploreGlobalParams`]).
    pub fn new(cursor: usize, scan_limit: usize, concurrent: usize, limit: usize, candidates: usize) -> (r:
        GlobalExploreScan)
        ensures
            r@ == (GlobalExploreScanView {
                start_cursor: min_of(cursor as int, candidates as int) as nat,
                next_cursor: min_of(cursor as int, candidates as int) as nat,
                stop_cursor: min_of(
                    min_of(cursor + scan_limit, usize::MAX as int),
                    candidates as int,
                ) as nat,
                candidates: candidates as nat,
                concurrent: concurrent as nat,
                limit: limit as nat,
                failed: 0,
            }),
    {
        let end = cursor.saturating_add(scan_limit);
        let stop_cursor = if end < candidates {
            end
        } else {
            candidates
        };
        let next_cursor = if cursor < candidates {
            cursor
        } else {
            candidates
        };
        GlobalExploreScan {
            start_cursor: next_cursor,
            next_cursor,
            stop_cursor,
            candidates,
            concurrent,
            limit,
            failed: 0,
        }
    }

    /// The next batch of candidates to visit, with `gathered` books so far:
    /// none once `limit` books were gathered or the window is used up, else
    /// the next `concurrent` candidates (fewer at the end of the window).
    pub fn next_batch(&mut self, gathered: usize) -> (r: Option<(usize, usize)>)
        ensures
            ({
                let s = old(self)@;
                if gathered < s.limit && s.next_cursor < s.stop_cursor {
                    let end = min_of((s.next_cursor + s.concurrent) as int, s.stop_cursor as int);
                    r == Some((s.next_cursor as usize, end as usize)) && final(self)@ == (
                    GlobalExploreScanView { next_cursor: end as nat, ..s })
                } else {
                    r is None && final(self)@ == s
                }
            }),
            scan_counted(final(self)@),
    {
        proof {
            use_type_invariant(&*self);
        }
        if gathered < self.limit && self.next_cursor < self.stop_cursor {
            let start = self.next_cursor;
            let end = if self.stop_cursor - start <= self.concurrent {
                self.stop_cursor
            } else {
                start + self.concurrent
            };
            self.next_cursor = end;
            Some((start, end))
        } else {
            None
        }
    }

    /// A visited source could not be read: one of the candidates handed out
    /// since the start that was not yet counted as failed.
    pub fn record_failure(&mut self)
        requires
            old(self)@.failed < old(self)@.next_cursor - old(self)@.start_cursor,
        ensures
            final(self)@ == (GlobalExploreScanView { failed: old(self)@.failed + 1, ..old(self)@ }),
            scan_counted(final(self)@),
    {
        proof {
            use_type_invariant(&*self);
        }
        self.failed = self.failed + 1;
    }

    /// The position to continue from.
    pub fn next_cursor(&self) -> (r: usize)
        ensures
            r == self@.next_cursor,
            scan_counted(self@),
    {
        proof {
            use_type_invariant(self);
        }
        self.next_cursor
    }

    /// The answer with the ranked `books`: where to continue, whether
    /// candidates remain after it, and how many sources could not be read.
    pub fn response(&self, books: Vec<SearchBook>) -> (r: ExploreBookGlobalResponse)
        ensures
            r.books@ == books@,
            r.next_cursor == self@.next_cursor,
            r.has_more == (self@.next_cursor < self@.candidates),
            r.failed == self@.failed,
            self@.start_cursor <= r.next_cursor <= self@.stop_cursor <= self@.candidates,
            r.failed <= r.next_cursor - self@.start_cursor,
    {
        proof {
            use_type_invariant(self);
        }
        ExploreBookGlobalResponse {
            books,
            next_cursor: self.next_cursor,
            has_more: self.next_cursor < self.candidates,
            failed: self.failed,
        }
    }
}

/// The hits of one explore listing: each book with the listing's score and
/// its position in the listing.
pub open spec fn listing_hits(books: Seq<SearchBookView>, score: int) -> Seq<ExploreHitView> {
    Seq::new(
        books.len(),
        |i: int| ExploreHitView { book: books[i], category_score: score, position: i as nat },
    )
}

/// The hits of one explore listing (see [`listing_hits`]).
pub fn explore_listing_hits(books: Vec<SearchBook>, category_score: i32) -> (r: Vec<
    GlobalExploreBookHit,
>)
    ensures
        crate::explore::hits_view(r@) == listing_hits(
            crate::available::books_view(books@),
            category_score as int,
        ),
{
    let ghost bv = crate::available::books_view(books@);
    let mut out: Vec<GlobalExploreBookHit> = Vec::new();
    let mut i: usize = 0;
    while i < books.len()
        invariant
            i <= books@.len(),
            bv == crate::available::books_view(books@),
            crate::explore::hits_view(out@) == listing_hits(bv, category_score as int).take(
                i as int,
            ),
        decreases books.len() - i,
    {
        let ghost before = crate::explore::hits_view(out@);
        let hit = GlobalExploreBookHit { book: books[i].copy(), category_score, position: i };
        assert(bv[i as int] == books@[i as int]@);
        assert(hit@ == listing_hits(bv, category_score as int)[i as int]);
        out.push(hit);
        assert(crate::explore::hits_view(out@) =~= before.push(hit@));
        assert(crate::explore::hits_view(out@) =~= listing_hits(bv, category_score as int).take(
            i as int + 1,
        ));
        i += 1;
    }
    out
}

} // verus!
