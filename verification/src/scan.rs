//! The scans that search many book sources a few at a time and stream what
//! they find: their parameters, the next step they take, and how each answer
//! moves them on.
use vstd::prelude::*;
use crate::available::{
    available_source_matches_target, books_view, concurrent_count_of,
    effective_available_concurrent_count, effective_available_result_limit, matches_target,
    result_limit_of, AVAILABLE_SOURCE_SSE_RESULT_LIMIT, NO_BOOK_MESSAGE,
};
use crate::model::{opt_view, Book, SearchBook, SearchBookView};
use crate::requests::{
    GetAvailableBookSourceRequest, SearchBookMultiSseRequest,
    SearchBookSourceSseRequest,
};
use crate::text::{chars_of, trim_chars, trim_ws};

verus! {

/// What a scan does next.
#[derive(Debug, PartialEq, Eq, Structural)]
pub enum ScanStep {
    /// Start searching the source at this position.
    Spawn(usize),
    /// Wait for a running search to answer.
    Await,
    /// Stop scanning.
    Finish,
}

/// A text parameter that counts only when not blank.
pub open spec fn non_blank(o: Option<Seq<char>>) -> Option<Seq<char>> {
    match o {
        Some(s) => if trim_ws(s).len() == 0 {
            None
        } else {
            Some(s)
        },
        None => None,
    }
}

/// A text parameter, dropped when blank (see [`non_blank`]).
pub fn non_blank_param(o: &Option<String>) -> (r: Option<String>)
    ensures
        opt_view(r) == non_blank(opt_view(*o)),
{
    match o {
        Some(s) => if trim_chars(&chars_of(s.as_str())).len() == 0 {
            None
        } else {
            Some(s.clone())
        },
        None => None,
    }
}

/// The parameters of the streamed search across book sources.
#[derive(Debug)]
pub struct MultiSearchParams {
    /// The query (empty when none).
    pub key: String,
    /// The name the found candidates are stored under (the query when none).
    pub name_for_write: String,
    /// The author the found candidates are stored under (empty when none).
    pub author_for_write: String,
    /// The position of the last source searched before (-1 when none).
    pub last_index: i32,
    /// How many results end the scan (50 by default, at least 1).
    pub search_size: usize,
    /// How many sources are searched at once (10 by default, at least 1).
    pub concurrent: usize,
    /// The one source to search, when given and not blank.
    pub book_source_url: Option<String>,
    /// The source group to search, when given and not blank.
    pub book_source_group: Option<String>,
}

/// At least 1.
pub open spec fn at_least_one(v: int) -> int {
    if v < 1 {
        1
    } else {
        v
    }
}

fn text_or_empty(o: &Option<String>) -> (r: String)
    ensures
        r@ == match opt_view(*o) {
            Some(s) => s,
            None => Seq::empty(),
        },
{
    match o {
        Some(s) => s.clone(),
        None => String::new(),
    }
}

/// The parameters of the streamed search across book sources, with their defaults.
pub fn multi_search_params(req: &SearchBookMultiSseRequest) -> (r: MultiSearchParams)
    ensures
        r.key@ == match opt_view(req.key) {
            Some(k) => k,
            None => Seq::empty(),
        },
        r.name_for_write@ == match opt_view(req.name) {
            Some(n) => n,
            None => r.key@,
        },
        r.author_for_write@ == match opt_view(req.author) {
            Some(a) => a,
            None => Seq::empty(),
        },
        r.last_index == match req.last_index {
            Some(v) => v as int,
            None => -1,
        },
        r.search_size as int == at_least_one(
            match req.search_size {
                Some(v) => v as int,
                None => 50,
            },
        ),
        r.concurrent as int == at_least_one(
            match req.concurrent_count {
                Some(v) => v as int,
                None => 10,
            },
        ),
        opt_view(r.book_source_url) == non_blank(opt_view(req.book_source_url)),
        opt_view(r.book_source_group) == non_blank(opt_view(req.book_source_group)),
{
    let key = text_or_empty(&req.key);
    let name_for_write = match &req.name {
        Some(n) => n.clone(),
        None => key.clone(),
    };
    let search_size: i32 = match req.search_size {
        Some(v) => v,
        None => 50,
    };
    let concurrent: i32 = match req.concurrent_count {
        Some(v) => v,
        None => 10,
    };
    MultiSearchParams {
        key,
        name_for_write,
        author_for_write: text_or_empty(&req.author),
        last_index: match req.last_index {
            Some(v) => v,
            None => -1,
        },
        search_size: if search_size < 1 {
            1
        } else {
            search_size as usize
        },
        concurrent: if concurrent < 1 {
            1
        } else {
            concurrent as usize
        },
        book_source_url: non_blank_param(&req.book_source_url),
        book_source_group: non_blank_param(&req.book_source_group),
    }
}

/// The state of the streamed search across book sources.
pub struct MultiSearchScanView {
    pub next_index: int,
    pub last_index: int,
    pub total: nat,
    pub stop_adding: bool,
    pub sources: nat,
    pub search_size: nat,
    pub concurrent: nat,
}

/// The streamed search across book sources: sources are searched from the
/// position after the last one searched before, a few at a time; no new search
/// starts once `search_size` results were handed out.
pub struct MultiSearchScan {
    next_index: i32,
    last_index: i32,
    total: usize,
    stop_adding: bool,
    sources: usize,
    search_size: usize,
    concurrent: usize,
}

impl View for MultiSearchScan {
    type V = MultiSearchScanView;

    closed spec fn view(&self) -> MultiSearchScanView {
        MultiSearchScanView {
            next_index: self.next_index as int,
            last_index: self.last_index as int,
            total: self.total as nat,
            stop_adding: self.stop_adding,
            sources: self.sources as nat,
            search_size: self.search_size as nat,
            concurrent: self.concurrent as nat,
        }
    }
}

/// Whether a position (read as an unsigned index) names one of `n` sources.
pub open spec fn position_in(i: int, n: nat) -> bool {
    ((i as i32) as usize) < n
}

impl MultiSearchScan {
    #[verifier::type_invariant]
    closed spec fn small(self) -> bool {
        self.sources < 0x7fff_ffff
    }

    /// A scan of `sources` sources after position `last_index`.
    pub fn new(last_index: i32, sources: usize, search_size: usize, concurrent: usize) -> (r:
        MultiSearchScan)
        requires
            last_index < i32::MAX,
            sources < 0x7fff_ffff,
        ensures
            r@ == (MultiSearchScanView {
                next_index: last_index + 1,
                last_index: last_index as int,
                total: 0,
                stop_adding: false,
                sources: sources as nat,
                search_size: search_size as nat,
                concurrent: concurrent as nat,
            }),
    {
        MultiSearchScan {
            next_index: last_index + 1,
            last_index,
            total: 0,
            stop_adding: false,
            sources,
            search_size,
            concurrent,
        }
    }

    /// The next step, with `running` searches under way: start the next source
    /// while new searches may start, fewer than the allowed number run and a
    /// source remains; else wait while a search runs; else stop.
    pub fn next_step(&mut self, running: usize) -> (r: ScanStep)
        ensures
            ({
                let s = old(self)@;
                let in_range = position_in(s.next_index, s.sources);
                if !in_range && running == 0 {
                    r == ScanStep::Finish && final(self)@ == s
                } else if !s.stop_adding && running < s.concurrent && in_range {
                    r == ScanStep::Spawn(s.next_index as usize) && final(self)@ == (MultiSearchScanView {
                        next_index: s.next_index + 1,
                        ..s
                    })
                } else if running > 0 {
                    r == ScanStep::Await && final(self)@ == s
                } else {
                    r == ScanStep::Finish && final(self)@ == s
                }
            }),
    {
        proof {
            use_type_invariant(&*self);
        }
        let in_range = (self.next_index as usize) < self.sources;
        if !in_range && running == 0 {
            return ScanStep::Finish;
        }
        if !self.stop_adding && running < self.concurrent && in_range {
            let i = self.next_index as usize;
            self.next_index = self.next_index + 1;
            return ScanStep::Spawn(i);
        }
        if running > 0 {
            ScanStep::Await
        } else {
            ScanStep::Finish
        }
    }

    /// A search answered with `handed_out` new results: it becomes the last
    /// source searched, the results count, and reaching `search_size` stops new searches.
    pub fn record_results(&mut self, source_index: i32, handed_out: usize)
        requires
            old(self)@.total + handed_out <= usize::MAX,
        ensures
            ({
                let s = old(self)@;
                let total = s.total + handed_out;
                final(self)@ == (MultiSearchScanView {
                    last_index: source_index as int,
                    total: total as nat,
                    stop_adding: s.stop_adding || total >= s.search_size,
                    ..s
                })
            }),
    {
        proof {
            use_type_invariant(&*self);
        }
        self.last_index = source_index;
        self.total = self.total + handed_out;
        if self.total >= self.search_size {
            self.stop_adding = true;
        }
    }

    /// A search failed: it still becomes the last source searched.
    pub fn record_failure(&mut self, source_index: i32)
        ensures
            final(self)@ == (MultiSearchScanView { last_index: source_index as int, ..old(self)@ }),
    {
        proof {
            use_type_invariant(&*self);
        }
        self.last_index = source_index;
    }

    /// The position of the last source searched.
    pub fn last_index(&self) -> (r: i32)
        ensures
            r as int == self@.last_index,
    {
        self.last_index
    }

    /// How many results were handed out.
    pub fn total(&self) -> (r: usize)
        ensures
            r as int == self@.total,
    {
        self.total
    }
}

/// The parameters of the streamed search for other sources of a shelf book.
#[derive(Debug)]
pub struct SourceSearchParams {
    /// The shelf book's URL (empty when none).
    pub book_url: String,
    /// The position of the last source searched before (-1 when none).
    pub last_index: i32,
    /// How many matching results end the scan (30 by default, at least 1).
    pub search_size: usize,
    /// Whether stored candidates are replaced even when nothing is found.
    pub refresh: bool,
    /// How many sources are searched at once: twice the size, at least 24
    /// (the largest `usize` where twice the size does not fit).
    pub concurrent: usize,
    /// The source group to search, when given and not blank.
    pub book_source_group: Option<String>,
}

/// The parameters of the streamed search for other sources, with their defaults.
pub fn source_search_params(req: &SearchBookSourceSseRequest) -> (r: SourceSearchParams)
    ensures
        r.book_url@ == match opt_view(req.url) {
            Some(u) => u,
            None => Seq::empty(),
        },
        r.last_index == match req.last_index {
            Some(v) => v as int,
            None => -1,
        },
        r.search_size as int == at_least_one(
            match req.search_size {
                Some(v) => v as int,
                None => 30,
            },
        ),
        r.refresh == (match req.refresh {
            Some(v) => v,
            None => 0,
        } > 0),
        r.concurrent as int == if r.search_size * 2 > usize::MAX {
            usize::MAX as int
        } else if r.search_size * 2 > 24 {
            r.search_size * 2
        } else {
            24
        },
        opt_view(r.book_source_group) == non_blank(opt_view(req.book_source_group)),
{
    let size: i32 = match req.search_size {
        Some(v) => v,
        None => 30,
    };
    let search_size: usize = if size < 1 {
        1
    } else {
        size as usize
    };
    let concurrent: usize = if search_size > usize::MAX / 2 {
        usize::MAX
    } else if search_size * 2 > 24 {
        search_size * 2
    } else {
        24
    };
    SourceSearchParams {
        book_url: text_or_empty(&req.url),
        last_index: match req.last_index {
            Some(v) => v,
            None => -1,
        },
        search_size,
        refresh: match req.refresh {
            Some(v) => v,
            None => 0,
        } > 0,
        concurrent,
        book_source_group: non_blank_param(&req.book_source_group),
    }
}

/// The error when a search for other sources names no book.
pub const NO_BOOK_URL_MESSAGE: &'static str = "请输入书籍链接";

/// The shelf book URL a search for other sources starts from, or the error
/// when it is blank.
pub fn source_search_book_url(params: &SourceSearchParams) -> (r: Result<String, String>)
    ensures
        if trim_ws(params.book_url@).len() == 0 {
            r matches Err(e) && e@ == NO_BOOK_URL_MESSAGE@
        } else {
            r matches Ok(u) && u@ == params.book_url@
        },
{
    if trim_chars(&chars_of(params.book_url.as_str())).len() == 0 {
        Err(NO_BOOK_URL_MESSAGE.to_string())
    } else {
        Ok(params.book_url.clone())
    }
}

/// The shelf book a search for other sources is for: the one found (when the
/// shelf could be read), else the error that the book is unknown.
pub fn source_search_book(found: Option<Book>) -> (r: Result<Book, String>)
    ensures
        match r {
            Ok(b) => found matches Some(f) && b@ == f@,
            Err(e) => found is None && e@ == NO_BOOK_MESSAGE@,
        },
{
    match found {
        Some(b) => Ok(b),
        None => Err(NO_BOOK_MESSAGE.to_string()),
    }
}

/// The state of the streamed search for other sources of a shelf book.
pub struct SourceSearchScanView {
    pub next_index: int,
    pub last_index: int,
    pub total: nat,
    pub done: bool,
    pub sources: nat,
    pub search_size: nat,
    pub concurrent: nat,
}

/// The streamed search for other sources of a shelf book: sources are searched
/// from the position after the last one searched before; the last source
/// started counts as searched; the scan ends once `search_size` matches were found.
pub struct SourceSearchScan {
    next_index: i32,
    last_index: i32,
    total: usize,
    done: bool,
    sources: usize,
    search_size: usize,
    concurrent: usize,
}

impl View for SourceSearchScan {
    type V = SourceSearchScanView;

    closed spec fn view(&self) -> SourceSearchScanView {
        SourceSearchScanView {
            next_index: self.next_index as int,
            last_index: self.last_index as int,
            total: self.total as nat,
            done: self.done,
            sources: self.sources as nat,
            search_size: self.search_size as nat,
            concurrent: self.concurrent as nat,
        }
    }
}

impl SourceSearchScan {
    #[verifier::type_invariant]
    closed spec fn small(self) -> bool {
        self.sources < 0x7fff_ffff
    }

    /// A scan of `sources` sources after position `last_index`.
    pub fn new(last_index: i32, sources: usize, search_size: usize, concurrent: usize) -> (r:
        SourceSearchScan)
        requires
            last_index < i32::MAX,
            sources < 0x7fff_ffff,
        ensures
            r@ == (SourceSearchScanView {
                next_index: last_index + 1,
                last_index: last_index as int,
                total: 0,
                done: false,
                sources: sources as nat,
                search_size: search_size as nat,
                concurrent: concurrent as nat,
            }),
    {
        SourceSearchScan {
            next_index: last_index + 1,
            last_index,
            total: 0,
            done: false,
            sources,
            search_size,
            concurrent,
        }
    }

    /// The next step, with `running` searches under way: stop once done; start
    /// the next source (which becomes the last searched) while fewer than the
    /// allowed number run and a source remains; else wait while a search runs;
    /// else stop.
    pub fn next_step(&mut self, running: usize) -> (r: ScanStep)
        ensures
            ({
                let s = old(self)@;
                let in_range = position_in(s.next_index, s.sources);
                if s.done || (!in_range && running == 0) {
                    r == ScanStep::Finish && final(self)@ == s
                } else if running < s.concurrent && in_range {
                    r == ScanStep::Spawn(s.next_index as usize) && final(self)@ == (SourceSearchScanView {
                        next_index: s.next_index + 1,
                        last_index: s.next_index,
                        ..s
                    })
                } else if running > 0 {
                    r == ScanStep::Await && final(self)@ == s
                } else {
                    r == ScanStep::Finish && final(self)@ == s
                }
            }),
    {
        proof {
            use_type_invariant(&*self);
        }
        let in_range = (self.next_index as usize) < self.sources;
        if self.done || (!in_range && running == 0) {
            return ScanStep::Finish;
        }
        if running < self.concurrent && in_range {
            let i = self.next_index as usize;
            self.last_index = self.next_index;
            self.next_index = self.next_index + 1;
            return ScanStep::Spawn(i);
        }
        if running > 0 {
            ScanStep::Await
        } else {
            ScanStep::Finish
        }
    }

    /// A search answered with `matches` results of the book: they count, and
    /// reaching `search_size` ends the scan.
    pub fn record_matches(&mut self, matches: usize)
        requires
            old(self)@.total + matches <= usize::MAX,
        ensures
            ({
                let s = old(self)@;
                let total = s.total + matches;
                final(self)@ == (SourceSearchScanView {
                    total: total as nat,
                    done: s.done || total >= s.search_size,
                    ..s
                })
            }),
    {
        proof {
            use_type_invariant(&*self);
        }
        self.total = self.total + matches;
        if self.total >= self.search_size {
            self.done = true;
        }
    }

    /// The position of the last source started.
    pub fn last_index(&self) -> (r: i32)
        ensures
            r as int == self@.last_index,
    {
        self.last_index
    }
}

/// The parameters of a lookup of other sources of a book.
#[derive(Debug)]
pub struct AvailableLookupParams {
    /// Whether a refresh was asked for.
    pub refresh: bool,
    /// Whether the answer is a page (a limit, a position or a refresh was given).
    pub paged: bool,
    /// The page size for a paged answer; no limit otherwise.
    pub result_limit: usize,
    /// How many sources are searched at once.
    pub concurrent: usize,
    /// The position of the first source to search.
    pub cursor: usize,
    /// The position of the last source searched before (-1 when none).
    pub last_index: i32,
}

/// The parameters of a lookup of other sources, with their defaults.
pub fn available_lookup_params(req: &GetAvailableBookSourceRequest) -> (r: AvailableLookupParams)
    requires
        req.last_index != Some(i32::MAX),
    ensures
        r.refresh == (match req.refresh {
            Some(v) => v,
            None => 0,
        } > 0),
        r.paged == !(!r.refresh && req.result_limit is None && req.last_index is None),
        r.result_limit as int == if r.paged {
            result_limit_of(req.result_limit)
        } else {
            usize::MAX as int
        },
        r.concurrent as int == concurrent_count_of(req.concurrent_count),
        r.last_index == match req.last_index {
            Some(v) => v as int,
            None => -1,
        },
        r.cursor as int == if r.last_index + 1 < 0 {
            0
        } else {
            r.last_index + 1
        },
{
    let refresh = match req.refresh {
        Some(v) => v,
        None => 0,
    } > 0;
    let paged = !crate::available::should_use_available_source_cache(
        refresh,
        req.result_limit,
        req.last_index,
    );
    let result_limit = if paged {
        effective_available_result_limit(req.result_limit)
    } else {
        usize::MAX
    };
    let last_index: i32 = match req.last_index {
        Some(v) => v,
        None => -1,
    };
    let next = last_index + 1;
    let cursor: usize = if next < 0 {
        0
    } else {
        next as usize
    };
    AvailableLookupParams {
        refresh,
        paged,
        result_limit,
        concurrent: effective_available_concurrent_count(req.concurrent_count),
        cursor,
        last_index,
    }
}

/// Whether a streamed lookup may answer from stored candidates: no refresh and
/// no earlier position.
pub fn available_stream_uses_cache(req: &GetAvailableBookSourceRequest) -> (r: bool)
    ensures
        r == (!(match req.refresh {
            Some(v) => v,
            None => 0,
        } > 0) && match req.last_index {
            Some(v) => v as int,
            None => -1,
        } < 0),
{
    let refresh = match req.refresh {
        Some(v) => v,
        None => 0,
    } > 0;
    let last: i32 = match req.last_index {
        Some(v) => v,
        None => -1,
    };
    !refresh && last < 0
}

/// The state of a streamed lookup of other sources.
pub struct AvailableStreamView {
    pub next_index: int,
    pub last_index: int,
    pub emitted: nat,
    pub sources: nat,
    pub concurrent: nat,
}

/// A streamed lookup of other sources: sources are searched from the position
/// after the last one searched before, a few at a time, until 20 results were
/// handed out.
pub struct AvailableStream {
    next_index: usize,
    last_index: i32,
    emitted: usize,
    sources: usize,
    concurrent: usize,
}

impl View for AvailableStream {
    type V = AvailableStreamView;

    closed spec fn view(&self) -> AvailableStreamView {
        AvailableStreamView {
            next_index: self.next_index as int,
            last_index: self.last_index as int,
            emitted: self.emitted as nat,
            sources: self.sources as nat,
            concurrent: self.concurrent as nat,
        }
    }
}

impl AvailableStream {
    #[verifier::type_invariant]
    closed spec fn bounded(self) -> bool {
        &&& self.emitted <= AVAILABLE_SOURCE_SSE_RESULT_LIMIT
        &&& self.sources < 0x7fff_ffff
        &&& self.next_index <= 0x7fff_ffff
    }

    /// A lookup of `sources` sources after position `last_index`.
    pub fn new(last_index: i32, sources: usize, concurrent: usize) -> (r: AvailableStream)
        requires
            last_index < i32::MAX,
            sources < 0x7fff_ffff,
        ensures
            r@ == (AvailableStreamView {
                next_index: if last_index + 1 < 0 {
                    0
                } else {
                    last_index + 1
                },
                last_index: last_index as int,
                emitted: 0,
                sources: sources as nat,
                concurrent: concurrent as nat,
            }),
    {
        let next = last_index + 1;
        let next_index: usize = if next < 0 {
            0
        } else {
            next as usize
        };
        AvailableStream { next_index, last_index, emitted: 0, sources, concurrent }
    }

    /// The next step, with `running` searches under way: start the next source
    /// while fewer than the allowed number run, a source remains and fewer than
    /// 20 results were handed out; then stop once 20 were handed out or nothing
    /// runs; else wait.
    pub fn next_step(&mut self, running: usize) -> (r: ScanStep)
        ensures
            ({
                let s = old(self)@;
                if running < s.concurrent && s.next_index < s.sources && s.emitted
                    < AVAILABLE_SOURCE_SSE_RESULT_LIMIT {
                    r == ScanStep::Spawn(s.next_index as usize) && final(self)@ == (AvailableStreamView {
                        next_index: s.next_index + 1,
                        ..s
                    })
                } else if s.emitted >= AVAILABLE_SOURCE_SSE_RESULT_LIMIT || running == 0 {
                    r == ScanStep::Finish && final(self)@ == s
                } else {
                    r == ScanStep::Await && final(self)@ == s
                }
            }),
    {
        proof {
            use_type_invariant(&*self);
        }
        if running < self.concurrent && self.next_index < self.sources && self.emitted
            < AVAILABLE_SOURCE_SSE_RESULT_LIMIT {
            let i = self.next_index;
            self.next_index = self.next_index + 1;
            return ScanStep::Spawn(i);
        }
        if self.emitted >= AVAILABLE_SOURCE_SSE_RESULT_LIMIT || running == 0 {
            ScanStep::Finish
        } else {
            ScanStep::Await
        }
    }

    /// How many more results may be handed out.
    pub fn remaining(&self) -> (r: usize)
        ensures
            r == AVAILABLE_SOURCE_SSE_RESULT_LIMIT - self@.emitted,
    {
        proof {
            use_type_invariant(self);
        }
        AVAILABLE_SOURCE_SSE_RESULT_LIMIT - self.emitted
    }

    /// A search of the source at `source_index` answered and `handed_out`
    /// results went out: the last position is the larger one.
    pub fn record(&mut self, source_index: i32, handed_out: usize)
        requires
            old(self)@.emitted + handed_out <= AVAILABLE_SOURCE_SSE_RESULT_LIMIT,
        ensures
            final(self)@ == (AvailableStreamView {
                last_index: if source_index as int > old(self)@.last_index {
                    source_index as int
                } else {
                    old(self)@.last_index
                },
                emitted: (old(self)@.emitted + handed_out) as nat,
                ..old(self)@
            }),
    {
        proof {
            use_type_invariant(&*self);
        }
        if source_index > self.last_index {
            self.last_index = source_index;
        }
        self.emitted = self.emitted + handed_out;
    }

    /// Whether more sources remain to be searched, with `running` searches under way.
    pub fn has_more(&self, running: usize) -> (r: bool)
        ensures
            r == (self@.next_index < self@.sources || running > 0),
    {
        self.next_index < self.sources || running > 0
    }

    /// The last position a finished lookup reports: when more remain, at least
    /// the position before the next one.
    pub fn end_last_index(&self, running: usize) -> (r: i32)
        ensures
            r as int == if self@.next_index < self@.sources || running > 0 {
                if self@.next_index - 1 > self@.last_index {
                    self@.next_index - 1
                } else {
                    self@.last_index
                }
            } else {
                self@.last_index
            },
    {
        proof {
            use_type_invariant(self);
        }
        if self.next_index < self.sources || running > 0 {
            let before_next: i32 = self.next_index as i32 - 1;
            if before_next > self.last_index {
                before_next
            } else {
                self.last_index
            }
        } else {
            self.last_index
        }
    }
}

/// The hits of a list that are the target book, in order (see [`matches_target`]).
pub open spec fn target_hits(list: Seq<SearchBookView>, name: Seq<char>, author: Seq<char>) -> Seq<
    SearchBookView,
> {
    list.filter(|b: SearchBookView| matches_target(b, name, author))
}

/// The hits of a list that are the target book (see [`target_hits`]).
pub fn target_matches(list: &Vec<SearchBook>, name: &str, author: &str) -> (r: Vec<SearchBook>)
    ensures
        books_view(r@) == target_hits(books_view(list@), name@, author@),
{
    let ghost lv = books_view(list@);
    let ghost pred = |b: SearchBookView| matches_target(b, name@, author@);
    let mut out: Vec<SearchBook> = Vec::new();
    let mut i: usize = 0;
    proof {
        reveal(Seq::filter);
        assert(lv.take(0).filter(pred) =~= Seq::<SearchBookView>::empty());
        assert(books_view(out@) =~= Seq::<SearchBookView>::empty());
    }
    while i < list.len()
        invariant
            i <= list@.len(),
            lv == books_view(list@),
            pred == (|b: SearchBookView| matches_target(b, name@, author@)),
            books_view(out@) == lv.take(i as int).filter(pred),
        decreases list.len() - i,
    {
        proof {
            reveal(Seq::filter);
            assert(lv.take(i as int + 1).drop_last() == lv.take(i as int));
            assert(lv.take(i as int + 1).last() == list@[i as int]@);
        }
        if available_source_matches_target(&list[i], name, author) {
            let ghost before = books_view(out@);
            out.push(list[i].copy());
            assert(books_view(out@) =~= before.push(list@[i as int]@));
        }
        i += 1;
    }
    assert(lv.take(list@.len() as int) == lv);
    out
}

/// What the answers of one batch of searches add to a lookup: the answers
/// are taken in source order from position `index`; a search that never
/// answered counts for nothing; every other one, while fewer than `limit`
/// results were found, becomes the last source searched and adds its hits of
/// the target book, as many as still fit.
pub open spec fn absorb_slots(
    results: Seq<SearchBookView>,
    last: int,
    index: int,
    slots: Seq<Option<Vec<SearchBook>>>,
    name: Seq<char>,
    author: Seq<char>,
    limit: nat,
) -> (Seq<SearchBookView>, int)
    decreases slots.len(),
{
    if slots.len() == 0 || results.len() >= limit {
        (results, last)
    } else {
        match slots[0] {
            None => absorb_slots(results, last, index + 1, slots.drop_first(), name, author, limit),
            Some(list) => {
                let m = target_hits(books_view(list@), name, author);
                let room = limit - results.len();
                let taken = if m.len() <= room {
                    m
                } else {
                    m.take(room)
                };
                absorb_slots(results + taken, index, index + 1, slots.drop_first(), name, author, limit)
            },
        }
    }
}

/// A batch only adds to the results found before, and never past `limit`.
pub proof fn lemma_absorb_slots(
    results: Seq<SearchBookView>,
    last: int,
    index: int,
    slots: Seq<Option<Vec<SearchBook>>>,
    name: Seq<char>,
    author: Seq<char>,
    limit: nat,
)
    requires
        results.len() <= limit,
    ensures
        absorb_slots(results, last, index, slots, name, author, limit).0.len() <= limit,
        absorb_slots(results, last, index, slots, name, author, limit).0.len() >= results.len(),
        absorb_slots(results, last, index, slots, name, author, limit).0.take(results.len() as int)
            == results,
    decreases slots.len(),
{
    if slots.len() > 0 && results.len() < limit {
        match slots[0] {
            None => {
                lemma_absorb_slots(results, last, index + 1, slots.drop_first(), name, author, limit);
            },
            Some(list) => {
                let m = target_hits(books_view(list@), name, author);
                let room = limit - results.len();
                let taken = if m.len() <= room {
                    m
                } else {
                    m.take(room)
                };
                let next = results + taken;
                lemma_absorb_slots(next, index, index + 1, slots.drop_first(), name, author, limit);
                let r = absorb_slots(next, index, index + 1, slots.drop_first(), name, author, limit).0;
                assert(r.take(results.len() as int) =~= r.take(next.len() as int).take(
                    results.len() as int,
                ));
                assert(next.take(results.len() as int) =~= results);
            },
        }
    } else {
        assert(results.take(results.len() as int) =~= results);
    }
}

/// The state of a lookup of other sources of a book, a batch of sources at a time.
pub struct AvailableLookupView {
    pub cursor: nat,
    pub last_index: int,
    pub results: Seq<SearchBookView>,
    pub result_limit: nat,
    pub concurrent: nat,
    pub sources: nat,
    pub done: bool,
}

/// A lookup of other sources of a book: batches of `concurrent` sources from
/// the cursor, until the sources run out or `result_limit` results were found.
pub struct AvailableLookup {
    cursor: usize,
    last_index: i32,
    results: Vec<SearchBook>,
    result_limit: usize,
    concurrent: usize,
    sources: usize,
    done: bool,
}

impl View for AvailableLookup {
    type V = AvailableLookupView;

    closed spec fn view(&self) -> AvailableLookupView {
        AvailableLookupView {
            cursor: self.cursor as nat,
            last_index: self.last_index as int,
            results: books_view(self.results@),
            result_limit: self.result_limit as nat,
            concurrent: self.concurrent as nat,
            sources: self.sources as nat,
            done: self.done,
        }
    }
}

impl AvailableLookup {
    #[verifier::type_invariant]
    closed spec fn small(self) -> bool {
        self.sources < 0x7fff_ffff
    }

    /// A lookup of `sources` sources from `cursor` (see [`AvailableLookupParams`]).
    pub fn new(cursor: usize, last_index: i32, result_limit: usize, concurrent: usize, sources: usize) -> (r:
        AvailableLookup)
        requires
            sources < 0x7fff_ffff,
        ensures
            r@ == (AvailableLookupView {
                cursor: cursor as nat,
                last_index: last_index as int,
                results: Seq::empty(),
                result_limit: result_limit as nat,
                concurrent: concurrent as nat,
                sources: sources as nat,
                done: false,
            }),
    {
        let results: Vec<SearchBook> = Vec::new();
        assert(books_view(results@) =~= Seq::<SearchBookView>::empty());
        AvailableLookup { cursor, last_index, results, result_limit, concurrent, sources, done: false }
    }

    /// The next batch of sources to search: none once done or when no source
    /// remains, else the next `concurrent` sources (fewer at the end).
    pub fn next_batch(&mut self) -> (r: Option<(usize, usize)>)
        ensures
            ({
                let s = old(self)@;
                if !s.done && s.cursor < s.sources {
                    let end: int = if s.cursor + s.concurrent < s.sources {
                        (s.cursor + s.concurrent) as int
                    } else {
                        s.sources as int
                    };
                    r == Some((s.cursor as usize, end as usize)) && final(self)@ == (
                    AvailableLookupView { cursor: end as nat, ..s })
                } else {
                    r is None && final(self)@ == s
                }
            }),
    {
        proof {
            use_type_invariant(&*self);
        }
        if !self.done && self.cursor < self.sources {
            let start = self.cursor;
            let end = if self.sources - start <= self.concurrent {
                self.sources
            } else {
                start + self.concurrent
            };
            self.cursor = end;
            Some((start, end))
        } else {
            None
        }
    }

    /// The answers of the batch that starts at `start`, one slot per source
    /// in order (`None` for a search that never answered, an empty list for one
    /// that failed), for the book `name` by `author` (see [`absorb_slots`]); the
    /// lookup is done once `result_limit` results were found.
    pub fn absorb(&mut self, start: usize, slots: Vec<Option<Vec<SearchBook>>>, name: &str, author: &str)
        requires
            start + slots@.len() <= old(self)@.sources,
        ensures
            ({
                let s = old(self)@;
                let (results, last) = absorb_slots(
                    s.results,
                    s.last_index,
                    start as int,
                    slots@,
                    name@,
                    author@,
                    s.result_limit,
                );
                final(self)@ == (AvailableLookupView {
                    results,
                    last_index: last,
                    done: s.done || results.len() >= s.result_limit,
                    ..s
                })
            }),
    {
        proof {
            use_type_invariant(&*self);
        }
        let ghost all = slots@;
        let ghost goal = absorb_slots(
            books_view(self.results@),
            self.last_index as int,
            start as int,
            all,
            name@,
            author@,
            self.result_limit as nat,
        );
        let limit = self.result_limit;
        let mut results: Vec<SearchBook> = Vec::new();
        std::mem::swap(&mut results, &mut self.results);
        let mut last = self.last_index;
        let mut k: usize = 0;
        assert(all.skip(0) == all);
        while k < slots.len() && results.len() < limit
            invariant
                k <= slots@.len(),
                all == slots@,
                start + all.len() < 0x7fff_ffff,
                goal == absorb_slots(
                    books_view(results@),
                    last as int,
                    start + k,
                    all.skip(k as int),
                    name@,
                    author@,
                    limit as nat,
                ),
            decreases slots.len() - k,
        {
            assert(all.skip(k as int)[0] == all[k as int]);
            assert(all.skip(k as int).drop_first() == all.skip(k + 1));
            match &slots[k] {
                None => {},
                Some(list) => {
                    let m = target_matches(list, name, author);
                    let ghost r0 = books_view(results@);
                    let ghost mv = books_view(m@);
                    let room: usize = limit - results.len();
                    let mut j: usize = 0;
                    while j < m.len() && results.len() < limit
                        invariant
                            j <= m@.len(),
                            mv == books_view(m@),
                            room == limit - r0.len(),
                            j <= room,
                            books_view(results@) == r0 + mv.take(j as int),
                        decreases m.len() - j,
                    {
                        let ghost before = books_view(results@);
                        results.push(m[j].copy());
                        assert(books_view(results@) =~= before.push(mv[j as int]));
                        assert(mv.take(j as int + 1) =~= mv.take(j as int).push(mv[j as int]));
                        j += 1;
                    }
                    proof {
                        if mv.len() <= room {
                            assert(j == mv.len());
                            assert(mv.take(j as int) == mv);
                        } else {
                            assert(j == room);
                        }
                    }
                    last = (start + k) as i32;
                },
            }
            k += 1;
        }
        proof {
            if k == slots@.len() {
                assert(all.skip(k as int).len() == 0);
            }
        }
        self.results = results;
        self.last_index = last;
        if self.results.len() >= limit {
            self.done = true;
        }
    }

    /// Whether sources remain after the last batch.
    pub fn has_more(&self) -> (r: bool)
        ensures
            r == (self@.cursor < self@.sources),
    {
        self.cursor < self.sources
    }

    /// The position of the last source whose answer counted.
    pub fn last_index(&self) -> (r: i32)
        ensures
            r as int == self@.last_index,
    {
        self.last_index
    }

    /// Whether the results are stored as the book's candidates: when there
    /// are some, or when a refresh was asked for.
    pub fn stores_results(&self, refresh: bool) -> (r: bool)
        ensures
            r == (self@.results.len() > 0 || refresh),
    {
        self.results.len() > 0 || refresh
    }

    /// The results found.
    pub fn into_results(self) -> (r: Vec<SearchBook>)
        ensures
            books_view(r@) == self@.results,
    {
        self.results
    }
}

} // verus!
