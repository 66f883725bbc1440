//! The parameters that clients send to the reader's endpoints, and the shapes
//! of the answers that carry more than a plain list.
use vstd::prelude::*;
use crate::model::{BookSource, SearchBook};

verus! {

/// Parameters of a search in one book source.
#[derive(Debug)]
pub struct SearchBookRequest {
    pub key: Option<String>,
    pub page: Option<i32>,
    pub book_source_url: Option<String>,
    pub book_source: Option<BookSource>,
}

/// Parameters of a search across several book sources.
#[derive(Debug)]
pub struct SearchBookMultiRequest {
    pub key: Option<String>,
    pub page: Option<i32>,
    pub book_source_urls: Option<Vec<String>>,
    pub book_source_group: Option<String>,
}

/// Parameters of one explore listing of a book source.
#[derive(Debug)]
pub struct ExploreBookRequest {
    pub rule_find_url: Option<String>,
    pub page: Option<i32>,
    pub book_source_url: Option<String>,
    pub book_source: Option<BookSource>,
}

/// Parameters of the explore listing gathered over all book sources.
#[derive(Debug)]
pub struct ExploreBookGlobalRequest {
    pub category: Option<String>,
    pub cursor: Option<usize>,
    pub page: Option<i32>,
    pub limit: Option<usize>,
    pub concurrent_count: Option<usize>,
    pub scan_limit: Option<usize>,
}

/// The answer of the explore listing gathered over all book sources.
#[derive(Debug)]
pub struct ExploreBookGlobalResponse {
    pub books: Vec<SearchBook>,
    pub next_cursor: usize,
    pub has_more: bool,
    pub failed: usize,
}

/// Parameters of a book detail request.
#[derive(Debug)]
pub struct BookInfoRequest {
    pub url: Option<String>,
    pub book_source_url: Option<String>,
    pub book_source: Option<BookSource>,
}

/// Parameters of a chapter list request.
#[derive(Debug)]
pub struct ChapterListRequest {
    pub toc_url: Option<String>,
    pub book_url: Option<String>,
    pub book_source_url: Option<String>,
    pub book_source: Option<BookSource>,
    pub refresh: Option<i32>,
}

/// Parameters of a chapter content request.
#[derive(Debug)]
pub struct BookContentRequest {
    pub chapter_url: Option<String>,
    pub book_source_url: Option<String>,
    pub book_source: Option<BookSource>,
    pub index: Option<i32>,
    pub refresh: Option<i32>,
}

/// Parameters of a cache deletion request.
#[derive(Debug)]
pub struct DeleteCacheRequest {
    pub chapter_url: Option<String>,
    pub url: Option<String>,
    pub book_url: Option<String>,
}

/// Parameters of a reading progress update.
#[derive(Debug)]
pub struct SaveBookProgressRequest {
    pub url: Option<String>,
    pub book_url: Option<String>,
    pub index: Option<i32>,
    pub position: Option<i32>,
    pub search_book: Option<SearchBookRef>,
}

/// A reference to a search hit by its book URL.
#[derive(Debug)]
pub struct SearchBookRef {
    pub book_url: Option<String>,
}

/// Parameters of a shelf book lookup.
#[derive(Debug)]
pub struct GetShelfBookRequest {
    pub url: Option<String>,
}

/// Parameters of a cover request.
#[derive(Debug)]
pub struct CoverQuery {
    pub path: Option<String>,
}

/// Parameters of a chapter caching run.
#[derive(Debug)]
pub struct CacheBookRequest {
    pub url: Option<String>,
    pub book_url: Option<String>,
    pub toc_url: Option<String>,
    pub count: Option<i32>,
    pub refresh: Option<i32>,
    pub concurrent_count: Option<i32>,
}

/// Parameters of the streamed search across book sources.
#[derive(Debug)]
pub struct SearchBookMultiSseRequest {
    pub key: Option<String>,
    pub name: Option<String>,
    pub author: Option<String>,
    pub book_source_url: Option<String>,
    pub book_source_group: Option<String>,
    pub last_index: Option<i32>,
    pub search_size: Option<i32>,
    pub concurrent_count: Option<i32>,
}

/// Parameters of the streamed search for other sources of a shelf book.
#[derive(Debug)]
pub struct SearchBookSourceSseRequest {
    pub url: Option<String>,
    pub book_source_group: Option<String>,
    pub last_index: Option<i32>,
    pub search_size: Option<i32>,
    pub refresh: Option<i32>,
}

/// Parameters of a book source debug run.
#[derive(Debug)]
pub struct BookSourceDebugRequest {
    pub book_source_url: Option<String>,
    pub keyword: Option<String>,
}

/// Parameters of a lookup of the other sources that carry a book.
#[derive(Debug)]
pub struct GetAvailableBookSourceRequest {
    pub url: Option<String>,
    pub name: Option<String>,
    pub author: Option<String>,
    pub origin: Option<String>,
    pub refresh: Option<i32>,
    pub last_index: Option<i32>,
    pub result_limit: Option<i32>,
    pub concurrent_count: Option<i32>,
}

/// A page of the other sources that carry a book.
#[derive(Debug)]
pub struct AvailableBookSourceResponse {
    pub books: Vec<SearchBook>,
    pub last_index: i32,
    pub has_more: bool,
}

/// Parameters of a switch of a shelf book to another source.
#[derive(Debug, Default)]
pub struct SetBookSourceRequest {
    pub book_url: Option<String>,
    pub new_url: Option<String>,
    pub book_source_url: Option<String>,
}

/// Candidates from a client's local cache, to be stored and merged.
#[derive(Debug)]
pub struct SyncBookSourceCandidatesRequest {
    pub url: String,
    pub name: Option<String>,
    pub author: Option<String>,
    pub candidates: Vec<SearchBook>,
}

/// The URL of a remote subscription.
#[derive(Debug)]
pub struct RemoteSubscriptionUrlParam {
    pub url: String,
}

} // verus!
