//! The table of the API's routes: each path, the handler for each method,
//! and which handler a request reaches.
use vstd::prelude::*;
use crate::text::{chars_of, same_chars, starts_with, starts_with_chars};

verus! {

/// The method of a request, as far as routing tells them apart.
#[derive(Debug, Clone, Copy, PartialEq, Eq)]
pub enum HttpMethod {
    Get,
    /// Served by the GET handler of a route.
    Head,
    Post,
    /// Any other method: only a route that takes every method serves it.
    Other,
}

/// A route: its path (a prefix, for a route that ends in a wildcard segment)
/// and the names of its handlers.
#[derive(Debug, Clone, Copy)]
pub struct Route {
    pub path: &'static str,
    /// The path is a prefix that must be followed by at least one more character.
    pub prefix: bool,
    pub get: Option<&'static str>,
    pub post: Option<&'static str>,
    /// The handler for every method.
    pub any: Option<&'static str>,
}

/// The view of a [`Route`].
pub struct RouteView {
    pub path: Seq<char>,
    pub prefix: bool,
    pub get: Option<Seq<char>>,
    pub post: Option<Seq<char>>,
    pub any: Option<Seq<char>>,
}

/// The view of an optional handler name.
pub open spec fn name_view(o: Option<&'static str>) -> Option<Seq<char>> {
    match o {
        Some(s) => Some(s@),
        None => None,
    }
}

impl View for Route {
    type V = RouteView;

    open spec fn view(&self) -> RouteView {
        RouteView {
            path: self.path@,
            prefix: self.prefix,
            get: name_view(self.get),
            post: name_view(self.post),
            any: name_view(self.any),
        }
    }
}

/// The views of a list of routes.
pub open spec fn routes_view(v: Seq<Route>) -> Seq<RouteView> {
    v.map_values(|r: Route| r@)
}

/// How many routes the API has.
pub const ROUTE_COUNT: usize = 111;

/// The API's route at position `i` (the last one for any position past it).
pub open spec fn route_at(i: int) -> RouteView {
    if i == 0 {
        RouteView { path: "/health"@, prefix: false, get: Some("health"@), post: None, any: None }
    } else if i == 1 {
        RouteView { path: "/reader3/getBookSource"@, prefix: false, get: Some("get_book_source"@), post: Some("get_book_source"@), any: None }
    } else if i == 2 {
        RouteView { path: "/reader3/getBookSources"@, prefix: false, get: Some("get_book_sources"@), post: Some("get_book_sources"@), any: None }
    } else if i == 3 {
        RouteView { path: "/reader3/getDefaultBookSourceOwner"@, prefix: false, get: Some("get_default_book_source_owner"@), post: None, any: None }
    } else if i == 4 {
        RouteView { path: "/reader3/loginBookSource"@, prefix: false, get: None, post: Some("login_book_source"@), any: None }
    } else if i == 5 {
        RouteView { path: "/reader3/getExploreKinds"@, prefix: false, get: None, post: Some("get_explore_kinds"@), any: None }
    } else if i == 6 {
        RouteView { path: "/reader3/testBookSources"@, prefix: false, get: None, post: Some("test_book_sources"@), any: None }
    } else if i == 7 {
        RouteView { path: "/reader3/deleteInvalidBookSources"@, prefix: false, get: None, post: Some("delete_invalid_book_sources"@), any: None }
    } else if i == 8 {
        RouteView { path: "/reader3/bookSourceProxy"@, prefix: false, get: None, post: None, any: Some("book_source_proxy"@) }
    } else if i == 9 {
        RouteView { path: "/reader3/bookSourceClientLog"@, prefix: false, get: None, post: None, any: Some("book_source_client_log"@) }
    } else if i == 10 {
        RouteView { path: "/reader3/saveBookSource"@, prefix: false, get: None, post: Some("save_book_source"@), any: None }
    } else if i == 11 {
        RouteView { path: "/reader3/saveBookSources"@, prefix: false, get: None, post: Some("save_book_sources"@), any: None }
    } else if i == 12 {
        RouteView { path: "/reader3/deleteBookSource"@, prefix: false, get: None, post: Some("delete_book_source"@), any: None }
    } else if i == 13 {
        RouteView { path: "/reader3/deleteBookSources"@, prefix: false, get: None, post: Some("delete_book_sources"@), any: None }
    } else if i == 14 {
        RouteView { path: "/reader3/deleteAllBookSources"@, prefix: false, get: None, post: Some("delete_all_book_sources"@), any: None }
    } else if i == 15 {
        RouteView { path: "/reader3/setAsDefaultBookSources"@, prefix: false, get: None, post: Some("set_as_default_book_sources"@), any: None }
    } else if i == 16 {
        RouteView { path: "/reader3/readRemoteSourceFile"@, prefix: false, get: None, post: Some("read_remote_source_file"@), any: None }
    } else if i == 17 {
        RouteView { path: "/reader3/readSourceFile"@, prefix: false, get: None, post: Some("read_source_file"@), any: None }
    } else if i == 18 {
        RouteView { path: "/reader3/searchBook"@, prefix: false, get: Some("search_book"@), post: Some("search_book"@), any: None }
    } else if i == 19 {
        RouteView { path: "/reader3/exploreBook"@, prefix: false, get: Some("explore_book"@), post: Some("explore_book"@), any: None }
    } else if i == 20 {
        RouteView { path: "/reader3/exploreBookGlobal"@, prefix: false, get: None, post: Some("explore_book_global"@), any: None }
    } else if i == 21 {
        RouteView { path: "/reader3/searchBookMulti"@, prefix: false, get: Some("search_book_multi"@), post: Some("search_book_multi"@), any: None }
    } else if i == 22 {
        RouteView { path: "/reader3/getBookshelf"@, prefix: false, get: Some("get_bookshelf"@), post: None, any: None }
    } else if i == 23 {
        RouteView { path: "/reader3/getShelfBook"@, prefix: false, get: Some("get_shelf_book"@), post: Some("get_shelf_book"@), any: None }
    } else if i == 24 {
        RouteView { path: "/reader3/getShelfBookWithCacheInfo"@, prefix: false, get: Some("get_shelf_book_with_cache_info"@), post: None, any: None }
    } else if i == 25 {
        RouteView { path: "/reader3/getBookGroups"@, prefix: false, get: Some("get_book_groups"@), post: Some("get_book_groups"@), any: None }
    } else if i == 26 {
        RouteView { path: "/reader3/saveBookGroup"@, prefix: false, get: None, post: Some("save_book_group"@), any: None }
    } else if i == 27 {
        RouteView { path: "/reader3/saveBookGroupOrder"@, prefix: false, get: None, post: Some("save_book_group_order"@), any: None }
    } else if i == 28 {
        RouteView { path: "/reader3/deleteBookGroup"@, prefix: false, get: None, post: Some("delete_book_group"@), any: None }
    } else if i == 29 {
        RouteView { path: "/reader3/saveBookGroupId"@, prefix: false, get: None, post: Some("save_book_group_id"@), any: None }
    } else if i == 30 {
        RouteView { path: "/reader3/addBookGroupMulti"@, prefix: false, get: None, post: Some("add_book_group_multi"@), any: None }
    } else if i == 31 {
        RouteView { path: "/reader3/removeBookGroupMulti"@, prefix: false, get: None, post: Some("remove_book_group_multi"@), any: None }
    } else if i == 32 {
        RouteView { path: "/reader3/uploadTxtBook"@, prefix: false, get: None, post: Some("upload_txt_book"@), any: None }
    } else if i == 33 {
        RouteView { path: "/reader3/uploadEpubBook"@, prefix: false, get: None, post: Some("upload_epub_book"@), any: None }
    } else if i == 34 {
        RouteView { path: "/reader3/uploadMobiBook"@, prefix: false, get: None, post: Some("upload_mobi_book"@), any: None }
    } else if i == 35 {
        RouteView { path: "/reader3/uploadPdfBook"@, prefix: false, get: None, post: Some("upload_pdf_book"@), any: None }
    } else if i == 36 {
        RouteView { path: "/reader3/saveBook"@, prefix: false, get: None, post: Some("save_book"@), any: None }
    } else if i == 37 {
        RouteView { path: "/reader3/saveBooks"@, prefix: false, get: None, post: Some("save_books"@), any: None }
    } else if i == 38 {
        RouteView { path: "/reader3/setBookSource"@, prefix: false, get: None, post: Some("set_book_source"@), any: None }
    } else if i == 39 {
        RouteView { path: "/reader3/deleteBook"@, prefix: false, get: None, post: Some("delete_book"@), any: None }
    } else if i == 40 {
        RouteView { path: "/reader3/deleteBooks"@, prefix: false, get: None, post: Some("delete_books"@), any: None }
    } else if i == 41 {
        RouteView { path: "/reader3/saveBookProgress"@, prefix: false, get: None, post: Some("save_book_progress"@), any: None }
    } else if i == 42 {
        RouteView { path: "/reader3/getBookInfo"@, prefix: false, get: Some("get_book_info"@), post: Some("get_book_info"@), any: None }
    } else if i == 43 {
        RouteView { path: "/reader3/getChapterList"@, prefix: false, get: Some("get_chapter_list"@), post: Some("get_chapter_list"@), any: None }
    } else if i == 44 {
        RouteView { path: "/reader3/getBookContent"@, prefix: false, get: Some("get_book_content"@), post: Some("get_book_content"@), any: None }
    } else if i == 45 {
        RouteView { path: "/reader3/deleteBookCache"@, prefix: false, get: None, post: Some("delete_book_cache"@), any: None }
    } else if i == 46 {
        RouteView { path: "/reader3/getInvalidBookSources"@, prefix: false, get: None, post: Some("get_invalid_book_sources"@), any: None }
    } else if i == 47 {
        RouteView { path: "/reader3/cacheBookSSE"@, prefix: false, get: Some("cache_book_sse"@), post: Some("cache_book_sse"@), any: None }
    } else if i == 48 {
        RouteView { path: "/reader3/searchBookMultiSSE"@, prefix: false, get: Some("search_book_multi_sse"@), post: None, any: None }
    } else if i == 49 {
        RouteView { path: "/reader3/searchBookSourceSSE"@, prefix: false, get: Some("search_book_source_sse"@), post: None, any: None }
    } else if i == 50 {
        RouteView { path: "/reader3/getAvailableBookSource"@, prefix: false, get: Some("get_available_book_source"@), post: Some("get_available_book_source"@), any: None }
    } else if i == 51 {
        RouteView { path: "/reader3/getAvailableBookSources"@, prefix: false, get: Some("get_available_book_sources"@), post: None, any: None }
    } else if i == 52 {
        RouteView { path: "/reader3/getAvailableBookSourceSSE"@, prefix: false, get: Some("get_available_book_source_sse"@), post: None, any: None }
    } else if i == 53 {
        RouteView { path: "/reader3/bookSourceDebugSSE"@, prefix: false, get: Some("book_source_debug_sse"@), post: None, any: None }
    } else if i == 54 {
        RouteView { path: "/reader3/cover"@, prefix: false, get: Some("get_book_cover"@), post: None, any: None }
    } else if i == 55 {
        RouteView { path: "/reader3/getRssSources"@, prefix: false, get: Some("get_rss_sources"@), post: None, any: None }
    } else if i == 56 {
        RouteView { path: "/reader3/saveRssSource"@, prefix: false, get: None, post: Some("save_rss_source"@), any: None }
    } else if i == 57 {
        RouteView { path: "/reader3/saveRssSources"@, prefix: false, get: None, post: Some("save_rss_sources"@), any: None }
    } else if i == 58 {
        RouteView { path: "/reader3/deleteRssSource"@, prefix: false, get: None, post: Some("delete_rss_source"@), any: None }
    } else if i == 59 {
        RouteView { path: "/reader3/deleteRssSources"@, prefix: false, get: None, post: Some("delete_rss_sources"@), any: None }
    } else if i == 60 {
        RouteView { path: "/reader3/readRemoteRssSourceFile"@, prefix: false, get: None, post: Some("read_remote_rss_source_file"@), any: None }
    } else if i == 61 {
        RouteView { path: "/reader3/readRssSourceFile"@, prefix: false, get: None, post: Some("read_rss_source_file"@), any: None }
    } else if i == 62 {
        RouteView { path: "/reader3/getRssArticles"@, prefix: false, get: Some("get_rss_articles"@), post: Some("get_rss_articles"@), any: None }
    } else if i == 63 {
        RouteView { path: "/reader3/getRssContent"@, prefix: false, get: Some("get_rss_content"@), post: Some("get_rss_content"@), any: None }
    } else if i == 64 {
        RouteView { path: "/reader3/getBookmarks"@, prefix: false, get: Some("get_bookmarks"@), post: None, any: None }
    } else if i == 65 {
        RouteView { path: "/reader3/saveBookmark"@, prefix: false, get: None, post: Some("save_bookmark"@), any: None }
    } else if i == 66 {
        RouteView { path: "/reader3/saveBookmarks"@, prefix: false, get: None, post: Some("save_bookmarks"@), any: None }
    } else if i == 67 {
        RouteView { path: "/reader3/deleteBookmark"@, prefix: false, get: None, post: Some("delete_bookmark"@), any: None }
    } else if i == 68 {
        RouteView { path: "/reader3/deleteBookmarks"@, prefix: false, get: None, post: Some("delete_bookmarks"@), any: None }
    } else if i == 69 {
        RouteView { path: "/reader3/ai/book/memory"@, prefix: false, get: Some("get_ai_book_memory"@), post: None, any: None }
    } else if i == 70 {
        RouteView { path: "/reader3/ai/book/chapter-memory"@, prefix: false, get: Some("get_ai_book_chapter_memory"@), post: None, any: None }
    } else if i == 71 {
        RouteView { path: "/reader3/ai/book/memory/reset"@, prefix: false, get: None, post: Some("reset_ai_book_memory"@), any: None }
    } else if i == 72 {
        RouteView { path: "/reader3/ai/book/enabled"@, prefix: false, get: None, post: Some("set_ai_book_enabled"@), any: None }
    } else if i == 73 {
        RouteView { path: "/reader3/ai/book/chapter-memory/generate"@, prefix: false, get: None, post: Some("generate_ai_book_chapter_memory"@), any: None }
    } else if i == 74 {
        RouteView { path: "/reader3/ai/book/map/generate"@, prefix: false, get: None, post: Some("generate_ai_book_map"@), any: None }
    } else if i == 75 {
        RouteView { path: "/reader3/ai/book/catchup/start"@, prefix: false, get: None, post: Some("start_ai_book_catchup"@), any: None }
    } else if i == 76 {
        RouteView { path: "/reader3/ai/book/catchup/status"@, prefix: false, get: Some("get_ai_book_catchup_status"@), post: None, any: None }
    } else if i == 77 {
        RouteView { path: "/reader3/ai/book/catchup/cancel"@, prefix: false, get: None, post: Some("cancel_ai_book_catchup"@), any: None }
    } else if i == 78 {
        RouteView { path: "/reader3/ai/model/config"@, prefix: false, get: Some("get_ai_model_config"@), post: Some("save_ai_model_config"@), any: None }
    } else if i == 79 {
        RouteView { path: "/reader3/ai/chapter-summary"@, prefix: false, get: Some("get_chapter_summary"@), post: None, any: None }
    } else if i == 80 {
        RouteView { path: "/reader3/ai/chapter-summary/generate"@, prefix: false, get: None, post: Some("generate_chapter_summary"@), any: None }
    } else if i == 81 {
        RouteView { path: "/reader3/ai/chapter-summary/config"@, prefix: false, get: Some("get_chapter_summary_config"@), post: Some("save_chapter_summary_config"@), any: None }
    } else if i == 82 {
        RouteView { path: "/reader3/ai/proxy"@, prefix: false, get: None, post: Some("ai_proxy"@), any: None }
    } else if i == 83 {
        RouteView { path: "/reader3/ai/proxy/image"@, prefix: false, get: None, post: Some("ai_proxy_image"@), any: None }
    } else if i == 84 {
        RouteView { path: "/reader3/getReplaceRules"@, prefix: false, get: Some("get_replace_rules"@), post: None, any: None }
    } else if i == 85 {
        RouteView { path: "/reader3/saveReplaceRule"@, prefix: false, get: None, post: Some("save_replace_rule"@), any: None }
    } else if i == 86 {
        RouteView { path: "/reader3/saveReplaceRules"@, prefix: false, get: None, post: Some("save_replace_rules"@), any: None }
    } else if i == 87 {
        RouteView { path: "/reader3/deleteReplaceRule"@, prefix: false, get: None, post: Some("delete_replace_rule"@), any: None }
    } else if i == 88 {
        RouteView { path: "/reader3/deleteReplaceRules"@, prefix: false, get: None, post: Some("delete_replace_rules"@), any: None }
    } else if i == 89 {
        RouteView { path: "/reader3/getWebdavFileList"@, prefix: false, get: Some("get_webdav_file_list"@), post: None, any: None }
    } else if i == 90 {
        RouteView { path: "/reader3/getWebdavFile"@, prefix: false, get: Some("get_webdav_file"@), post: None, any: None }
    } else if i == 91 {
        RouteView { path: "/reader3/uploadFileToWebdav"@, prefix: false, get: None, post: Some("upload_file_to_webdav"@), any: None }
    } else if i == 92 {
        RouteView { path: "/reader3/deleteWebdavFile"@, prefix: false, get: None, post: Some("delete_webdav_file"@), any: None }
    } else if i == 93 {
        RouteView { path: "/reader3/deleteWebdavFileList"@, prefix: false, get: None, post: Some("delete_webdav_file_list"@), any: None }
    } else if i == 94 {
        RouteView { path: "/reader3/webdav/"@, prefix: true, get: None, post: None, any: Some("webdav_handler"@) }
    } else if i == 95 {
        RouteView { path: "/reader3/login"@, prefix: false, get: None, post: Some("login"@), any: None }
    } else if i == 96 {
        RouteView { path: "/reader3/logout"@, prefix: false, get: None, post: Some("logout"@), any: None }
    } else if i == 97 {
        RouteView { path: "/reader3/getUserInfo"@, prefix: false, get: Some("get_user_info"@), post: None, any: None }
    } else if i == 98 {
        RouteView { path: "/reader3/getVersionUpdate"@, prefix: false, get: Some("get_version_update"@), post: None, any: None }
    } else if i == 99 {
        RouteView { path: "/reader3/dismissVersionUpdate"@, prefix: false, get: None, post: Some("dismiss_version_update"@), any: None }
    } else if i == 100 {
        RouteView { path: "/reader3/saveUserConfig"@, prefix: false, get: None, post: Some("save_user_config"@), any: None }
    } else if i == 101 {
        RouteView { path: "/reader3/getUserConfig"@, prefix: false, get: Some("get_user_config"@), post: None, any: None }
    } else if i == 102 {
        RouteView { path: "/reader3/getUserList"@, prefix: false, get: Some("get_user_list"@), post: None, any: None }
    } else if i == 103 {
        RouteView { path: "/reader3/deleteUsers"@, prefix: false, get: None, post: Some("delete_users"@), any: None }
    } else if i == 104 {
        RouteView { path: "/reader3/addUser"@, prefix: false, get: None, post: Some("add_user"@), any: None }
    } else if i == 105 {
        RouteView { path: "/reader3/resetPassword"@, prefix: false, get: None, post: Some("reset_password"@), any: None }
    } else if i == 106 {
        RouteView { path: "/reader3/changePassword"@, prefix: false, get: None, post: Some("change_password"@), any: None }
    } else if i == 107 {
        RouteView { path: "/reader3/updateUser"@, prefix: false, get: None, post: Some("update_user"@), any: None }
    } else if i == 108 {
        RouteView { path: "/reader3/uploadFile"@, prefix: false, get: None, post: Some("upload_file"@), any: None }
    } else if i == 109 {
        RouteView { path: "/reader3/deleteFile"@, prefix: false, get: None, post: Some("delete_file"@), any: None }
    } else {
        RouteView { path: "/reader3/getTxtTocRules"@, prefix: false, get: Some("get_txt_toc_rules"@), post: None, any: None }
    }
}

/// The API's routes.
pub open spec fn route_table() -> Seq<RouteView> {
    Seq::new(ROUTE_COUNT as nat, |i: int| route_at(i))
}

/// The API's route at position `i` (see [`route_at`]).
pub fn route_entry(i: usize) -> (r: Route)
    ensures
        r@ == route_at(i as int),
{
    match i {
        0 => Route { path: "/health", prefix: false, get: Some("health"), post: None, any: None },
        1 => Route { path: "/reader3/getBookSource", prefix: false, get: Some("get_book_source"), post: Some("get_book_source"), any: None },
        2 => Route { path: "/reader3/getBookSources", prefix: false, get: Some("get_book_sources"), post: Some("get_book_sources"), any: None },
        3 => Route { path: "/reader3/getDefaultBookSourceOwner", prefix: false, get: Some("get_default_book_source_owner"), post: None, any: None },
        4 => Route { path: "/reader3/loginBookSource", prefix: false, get: None, post: Some("login_book_source"), any: None },
        5 => Route { path: "/reader3/getExploreKinds", prefix: false, get: None, post: Some("get_explore_kinds"), any: None },
        6 => Route { path: "/reader3/testBookSources", prefix: false, get: None, post: Some("test_book_sources"), any: None },
        7 => Route { path: "/reader3/deleteInvalidBookSources", prefix: false, get: None, post: Some("delete_invalid_book_sources"), any: None },
        8 => Route { path: "/reader3/bookSourceProxy", prefix: false, get: None, post: None, any: Some("book_source_proxy") },
        9 => Route { path: "/reader3/bookSourceClientLog", prefix: false, get: None, post: None, any: Some("book_source_client_log") },
        10 => Route { path: "/reader3/saveBookSource", prefix: false, get: None, post: Some("save_book_source"), any: None },
        11 => Route { path: "/reader3/saveBookSources", prefix: false, get: None, post: Some("save_book_sources"), any: None },
        12 => Route { path: "/reader3/deleteBookSource", prefix: false, get: None, post: Some("delete_book_source"), any: None },
        13 => Route { path: "/reader3/deleteBookSources", prefix: false, get: None, post: Some("delete_book_sources"), any: None },
        14 => Route { path: "/reader3/deleteAllBookSources", prefix: false, get: None, post: Some("delete_all_book_sources"), any: None },
        15 => Route { path: "/reader3/setAsDefaultBookSources", prefix: false, get: None, post: Some("set_as_default_book_sources"), any: None },
        16 => Route { path: "/reader3/readRemoteSourceFile", prefix: false, get: None, post: Some("read_remote_source_file"), any: None },
        17 => Route { path: "/reader3/readSourceFile", prefix: false, get: None, post: Some("read_source_file"), any: None },
        18 => Route { path: "/reader3/searchBook", prefix: false, get: Some("search_book"), post: Some("search_book"), any: None },
        19 => Route { path: "/reader3/exploreBook", prefix: false, get: Some("explore_book"), post: Some("explore_book"), any: None },
        20 => Route { path: "/reader3/exploreBookGlobal", prefix: false, get: None, post: Some("explore_book_global"), any: None },
        21 => Route { path: "/reader3/searchBookMulti", prefix: false, get: Some("search_book_multi"), post: Some("search_book_multi"), any: None },
        22 => Route { path: "/reader3/getBookshelf", prefix: false, get: Some("get_bookshelf"), post: None, any: None },
        23 => Route { path: "/reader3/getShelfBook", prefix: false, get: Some("get_shelf_book"), post: Some("get_shelf_book"), any: None },
        24 => Route { path: "/reader3/getShelfBookWithCacheInfo", prefix: false, get: Some("get_shelf_book_with_cache_info"), post: None, any: None },
        25 => Route { path: "/reader3/getBookGroups", prefix: false, get: Some("get_book_groups"), post: Some("get_book_groups"), any: None },
        26 => Route { path: "/reader3/saveBookGroup", prefix: false, get: None, post: Some("save_book_group"), any: None },
        27 => Route { path: "/reader3/saveBookGroupOrder", prefix: false, get: None, post: Some("save_book_group_order"), any: None },
        28 => Route { path: "/reader3/deleteBookGroup", prefix: false, get: None, post: Some("delete_book_group"), any: None },
        29 => Route { path: "/reader3/saveBookGroupId", prefix: false, get: None, post: Some("save_book_group_id"), any: None },
        30 => Route { path: "/reader3/addBookGroupMulti", prefix: false, get: None, post: Some("add_book_group_multi"), any: None },
        31 => Route { path: "/reader3/removeBookGroupMulti", prefix: false, get: None, post: Some("remove_book_group_multi"), any: None },
        32 => Route { path: "/reader3/uploadTxtBook", prefix: false, get: None, post: Some("upload_txt_book"), any: None },
        33 => Route { path: "/reader3/uploadEpubBook", prefix: false, get: None, post: Some("upload_epub_book"), any: None },
        34 => Route { path: "/reader3/uploadMobiBook", prefix: false, get: None, post: Some("upload_mobi_book"), any: None },
        35 => Route { path: "/reader3/uploadPdfBook", prefix: false, get: None, post: Some("upload_pdf_book"), any: None },
        36 => Route { path: "/reader3/saveBook", prefix: false, get: None, post: Some("save_book"), any: None },
        37 => Route { path: "/reader3/saveBooks", prefix: false, get: None, post: Some("save_books"), any: None },
        38 => Route { path: "/reader3/setBookSource", prefix: false, get: None, post: Some("set_book_source"), any: None },
        39 => Route { path: "/reader3/deleteBook", prefix: false, get: None, post: Some("delete_book"), any: None },
        40 => Route { path: "/reader3/deleteBooks", prefix: false, get: None, post: Some("delete_books"), any: None },
        41 => Route { path: "/reader3/saveBookProgress", prefix: false, get: None, post: Some("save_book_progress"), any: None },
        42 => Route { path: "/reader3/getBookInfo", prefix: false, get: Some("get_book_info"), post: Some("get_book_info"), any: None },
        43 => Route { path: "/reader3/getChapterList", prefix: false, get: Some("get_chapter_list"), post: Some("get_chapter_list"), any: None },
        44 => Route { path: "/reader3/getBookContent", prefix: false, get: Some("get_book_content"), post: Some("get_book_content"), any: None },
        45 => Route { path: "/reader3/deleteBookCache", prefix: false, get: None, post: Some("delete_book_cache"), any: None },
        46 => Route { path: "/reader3/getInvalidBookSources", prefix: false, get: None, post: Some("get_invalid_book_sources"), any: None },
        47 => Route { path: "/reader3/cacheBookSSE", prefix: false, get: Some("cache_book_sse"), post: Some("cache_book_sse"), any: None },
        48 => Route { path: "/reader3/searchBookMultiSSE", prefix: false, get: Some("search_book_multi_sse"), post: None, any: None },
        49 => Route { path: "/reader3/searchBookSourceSSE", prefix: false, get: Some("search_book_source_sse"), post: None, any: None },
        50 => Route { path: "/reader3/getAvailableBookSource", prefix: false, get: Some("get_available_book_source"), post: Some("get_available_book_source"), any: None },
        51 => Route { path: "/reader3/getAvailableBookSources", prefix: false, get: Some("get_available_book_sources"), post: None, any: None },
        52 => Route { path: "/reader3/getAvailableBookSourceSSE", prefix: false, get: Some("get_available_book_source_sse"), post: None, any: None },
        53 => Route { path: "/reader3/bookSourceDebugSSE", prefix: false, get: Some("book_source_debug_sse"), post: None, any: None },
        54 => Route { path: "/reader3/cover", prefix: false, get: Some("get_book_cover"), post: None, any: None },
        55 => Route { path: "/reader3/getRssSources", prefix: false, get: Some("get_rss_sources"), post: None, any: None },
        56 => Route { path: "/reader3/saveRssSource", prefix: false, get: None, post: Some("save_rss_source"), any: None },
        57 => Route { path: "/reader3/saveRssSources", prefix: false, get: None, post: Some("save_rss_sources"), any: None },
        58 => Route { path: "/reader3/deleteRssSource", prefix: false, get: None, post: Some("delete_rss_source"), any: None },
        59 => Route { path: "/reader3/deleteRssSources", prefix: false, get: None, post: Some("delete_rss_sources"), any: None },
        60 => Route { path: "/reader3/readRemoteRssSourceFile", prefix: false, get: None, post: Some("read_remote_rss_source_file"), any: None },
        61 => Route { path: "/reader3/readRssSourceFile", prefix: false, get: None, post: Some("read_rss_source_file"), any: None },
        62 => Route { path: "/reader3/getRssArticles", prefix: false, get: Some("get_rss_articles"), post: Some("get_rss_articles"), any: None },
        63 => Route { path: "/reader3/getRssContent", prefix: false, get: Some("get_rss_content"), post: Some("get_rss_content"), any: None },
        64 => Route { path: "/reader3/getBookmarks", prefix: false, get: Some("get_bookmarks"), post: None, any: None },
        65 => Route { path: "/reader3/saveBookmark", prefix: false, get: None, post: Some("save_bookmark"), any: None },
        66 => Route { path: "/reader3/saveBookmarks", prefix: false, get: None, post: Some("save_bookmarks"), any: None },
        67 => Route { path: "/reader3/deleteBookmark", prefix: false, get: None, post: Some("delete_bookmark"), any: None },
        68 => Route { path: "/reader3/deleteBookmarks", prefix: false, get: None, post: Some("delete_bookmarks"), any: None },
        69 => Route { path: "/reader3/ai/book/memory", prefix: false, get: Some("get_ai_book_memory"), post: None, any: None },
        70 => Route { path: "/reader3/ai/book/chapter-memory", prefix: false, get: Some("get_ai_book_chapter_memory"), post: None, any: None },
        71 => Route { path: "/reader3/ai/book/memory/reset", prefix: false, get: None, post: Some("reset_ai_book_memory"), any: None },
        72 => Route { path: "/reader3/ai/book/enabled", prefix: false, get: None, post: Some("set_ai_book_enabled"), any: None },
        73 => Route { path: "/reader3/ai/book/chapter-memory/generate", prefix: false, get: None, post: Some("generate_ai_book_chapter_memory"), any: None },
        74 => Route { path: "/reader3/ai/book/map/generate", prefix: false, get: None, post: Some("generate_ai_book_map"), any: None },
        75 => Route { path: "/reader3/ai/book/catchup/start", prefix: false, get: None, post: Some("start_ai_book_catchup"), any: None },
        76 => Route { path: "/reader3/ai/book/catchup/status", prefix: false, get: Some("get_ai_book_catchup_status"), post: None, any: None },
        77 => Route { path: "/reader3/ai/book/catchup/cancel", prefix: false, get: None, post: Some("cancel_ai_book_catchup"), any: None },
        78 => Route { path: "/reader3/ai/model/config", prefix: false, get: Some("get_ai_model_config"), post: Some("save_ai_model_config"), any: None },
        79 => Route { path: "/reader3/ai/chapter-summary", prefix: false, get: Some("get_chapter_summary"), post: None, any: None },
        80 => Route { path: "/reader3/ai/chapter-summary/generate", prefix: false, get: None, post: Some("generate_chapter_summary"), any: None },
        81 => Route { path: "/reader3/ai/chapter-summary/config", prefix: false, get: Some("get_chapter_summary_config"), post: Some("save_chapter_summary_config"), any: None },
        82 => Route { path: "/reader3/ai/proxy", prefix: false, get: None, post: Some("ai_proxy"), any: None },
        83 => Route { path: "/reader3/ai/proxy/image", prefix: false, get: None, post: Some("ai_proxy_image"), any: None },
        84 => Route { path: "/reader3/getReplaceRules", prefix: false, get: Some("get_replace_rules"), post: None, any: None },
        85 => Route { path: "/reader3/saveReplaceRule", prefix: false, get: None, post: Some("save_replace_rule"), any: None },
        86 => Route { path: "/reader3/saveReplaceRules", prefix: false, get: None, post: Some("save_replace_rules"), any: None },
        87 => Route { path: "/reader3/deleteReplaceRule", prefix: false, get: None, post: Some("delete_replace_rule"), any: None },
        88 => Route { path: "/reader3/deleteReplaceRules", prefix: false, get: None, post: Some("delete_replace_rules"), any: None },
        89 => Route { path: "/reader3/getWebdavFileList", prefix: false, get: Some("get_webdav_file_list"), post: None, any: None },
        90 => Route { path: "/reader3/getWebdavFile", prefix: false, get: Some("get_webdav_file"), post: None, any: None },
        91 => Route { path: "/reader3/uploadFileToWebdav", prefix: false, get: None, post: Some("upload_file_to_webdav"), any: None },
        92 => Route { path: "/reader3/deleteWebdavFile", prefix: false, get: None, post: Some("delete_webdav_file"), any: None },
        93 => Route { path: "/reader3/deleteWebdavFileList", prefix: false, get: None, post: Some("delete_webdav_file_list"), any: None },
        94 => Route { path: "/reader3/webdav/", prefix: true, get: None, post: None, any: Some("webdav_handler") },
        95 => Route { path: "/reader3/login", prefix: false, get: None, post: Some("login"), any: None },
        96 => Route { path: "/reader3/logout", prefix: false, get: None, post: Some("logout"), any: None },
        97 => Route { path: "/reader3/getUserInfo", prefix: false, get: Some("get_user_info"), post: None, any: None },
        98 => Route { path: "/reader3/getVersionUpdate", prefix: false, get: Some("get_version_update"), post: None, any: None },
        99 => Route { path: "/reader3/dismissVersionUpdate", prefix: false, get: None, post: Some("dismiss_version_update"), any: None },
        100 => Route { path: "/reader3/saveUserConfig", prefix: false, get: None, post: Some("save_user_config"), any: None },
        101 => Route { path: "/reader3/getUserConfig", prefix: false, get: Some("get_user_config"), post: None, any: None },
        102 => Route { path: "/reader3/getUserList", prefix: false, get: Some("get_user_list"), post: None, any: None },
        103 => Route { path: "/reader3/deleteUsers", prefix: false, get: None, post: Some("delete_users"), any: None },
        104 => Route { path: "/reader3/addUser", prefix: false, get: None, post: Some("add_user"), any: None },
        105 => Route { path: "/reader3/resetPassword", prefix: false, get: None, post: Some("reset_password"), any: None },
        106 => Route { path: "/reader3/changePassword", prefix: false, get: None, post: Some("change_password"), any: None },
        107 => Route { path: "/reader3/updateUser", prefix: false, get: None, post: Some("update_user"), any: None },
        108 => Route { path: "/reader3/uploadFile", prefix: false, get: None, post: Some("upload_file"), any: None },
        109 => Route { path: "/reader3/deleteFile", prefix: false, get: None, post: Some("delete_file"), any: None },
        _ => Route { path: "/reader3/getTxtTocRules", prefix: false, get: Some("get_txt_toc_rules"), post: None, any: None },
    }
}

/// The API's routes (see [`route_table`]).
pub fn api_routes() -> (r: Vec<Route>)
    ensures
        routes_view(r@) == route_table(),
{
    let mut v: Vec<Route> = Vec::new();
    let mut i: usize = 0;
    while i < ROUTE_COUNT
        invariant
            i <= ROUTE_COUNT,
            v@.len() == i,
            forall|j: int| 0 <= j < i ==> #[trigger] v@[j]@ == route_at(j),
        decreases ROUTE_COUNT - i,
    {
        v.push(route_entry(i));
        i += 1;
    }
    assert(routes_view(v@) =~= route_table());
    v
}

/// Where a request goes.
#[derive(Debug, Clone, Copy, PartialEq, Eq)]
pub enum RouteOutcome {
    /// The handler with this name serves it.
    Handler(&'static str),
    /// A route has the path but no handler for the method.
    MethodNotAllowed,
    /// No route has the path: the static files are searched.
    Unrouted,
}

/// The view of a [`RouteOutcome`].
pub enum OutcomeView {
    Handler(Seq<char>),
    MethodNotAllowed,
    Unrouted,
}

impl View for RouteOutcome {
    type V = OutcomeView;

    open spec fn view(&self) -> OutcomeView {
        match self {
            RouteOutcome::Handler(h) => OutcomeView::Handler(h@),
            RouteOutcome::MethodNotAllowed => OutcomeView::MethodNotAllowed,
            RouteOutcome::Unrouted => OutcomeView::Unrouted,
        }
    }
}

/// Whether a route has this path: the same path, or, for a prefix route, a
/// path that goes on after the prefix.
pub open spec fn route_matches(r: RouteView, path: Seq<char>) -> bool {
    if r.prefix {
        path.len() > r.path.len() && starts_with(path, r.path)
    } else {
        path == r.path
    }
}

/// The handler of a route for a method: its GET handler for GET and HEAD,
/// its POST handler for POST, else its handler for every method.
pub open spec fn method_outcome(r: RouteView, m: HttpMethod) -> OutcomeView {
    let h = match m {
        HttpMethod::Get | HttpMethod::Head => if r.get is Some {
            r.get
        } else {
            r.any
        },
        HttpMethod::Post => if r.post is Some {
            r.post
        } else {
            r.any
        },
        HttpMethod::Other => r.any,
    };
    match h {
        Some(n) => OutcomeView::Handler(n),
        None => OutcomeView::MethodNotAllowed,
    }
}

/// Where a request goes: the first route with its path decides.
pub open spec fn dispatch(routes: Seq<RouteView>, m: HttpMethod, path: Seq<char>) -> OutcomeView
    decreases routes.len(),
{
    if routes.len() == 0 {
        OutcomeView::Unrouted
    } else if route_matches(routes[0], path) {
        method_outcome(routes[0], m)
    } else {
        dispatch(routes.drop_first(), m, path)
    }
}

fn route_matches_exec(r: &Route, path: &Vec<char>) -> (b: bool)
    ensures
        b == route_matches(r@, path@),
{
    let rp = chars_of(r.path);
    if r.prefix {
        path.len() > rp.len() && starts_with_chars(path, &rp)
    } else {
        same_chars(path, &rp)
    }
}

fn method_outcome_exec(r: &Route, m: HttpMethod) -> (o: RouteOutcome)
    ensures
        o@ == method_outcome(r@, m),
{
    let h = match m {
        HttpMethod::Get | HttpMethod::Head => if r.get.is_some() {
            r.get
        } else {
            r.any
        },
        HttpMethod::Post => if r.post.is_some() {
            r.post
        } else {
            r.any
        },
        HttpMethod::Other => r.any,
    };
    match h {
        Some(n) => RouteOutcome::Handler(n),
        None => RouteOutcome::MethodNotAllowed,
    }
}

/// Where a request with this method and path goes (see [`dispatch`]).
pub fn route_request(routes: &[Route], m: HttpMethod, path: &str) -> (o: RouteOutcome)
    ensures
        o@ == dispatch(routes_view(routes@), m, path@),
{
    let p = chars_of(path);
    let ghost all = routes_view(routes@);
    let mut i: usize = 0;
    assert(all.skip(0) == all);
    while i < routes.len()
        invariant
            i <= routes@.len(),
            all == routes_view(routes@),
            p@ == path@,
            dispatch(all, m, path@) == dispatch(all.skip(i as int), m, path@),
        decreases routes.len() - i,
    {
        let ghost rest = all.skip(i as int);
        assert(rest.len() > 0);
        assert(rest[0] == routes@[i as int]@);
        assert(rest.drop_first() == all.skip(i + 1));
        assert(dispatch(rest, m, path@) == if route_matches(rest[0], path@) {
            method_outcome(rest[0], m)
        } else {
            dispatch(rest.drop_first(), m, path@)
        });
        if route_matches_exec(&routes[i], &p) {
            return method_outcome_exec(&routes[i], m);
        }
        i += 1;
    }
    RouteOutcome::Unrouted
}

} // verus!
