use reader_next::available::{
    lookup_stored_answer, shelf_lookup_after_name, shelf_lookup_after_url, shelf_lookup_start,
    stream_excluded_origin, stream_stored_answer, ShelfLookupStep,
};
use reader_next::explore_scan::GlobalExploreScan;
use reader_next::model::{Book, BookSource, SearchBook};
use reader_next::reading::{
    cache_book_origin, cache_chapter_range, indexed_chapter_step, progress_chapters,
    IndexedChapter, ProgressChapters,
};
use reader_next::requests::GetAvailableBookSourceRequest;
use reader_next::scan::{source_search_book, source_search_book_url, SourceSearchParams};
use reader_next::shelf::{shelf_book_required, source_required, stale_entry_after_switch};

fn shelf_book(url: &str, origin: &str, name: &str, author: &str) -> Book {
    Book {
        book_url: url.to_string(),
        origin: origin.to_string(),
        name: name.to_string(),
        author: author.to_string(),
        ..Book::default()
    }
}

fn hit(name: &str, author: &str, origin: &str, url: &str) -> SearchBook {
    SearchBook {
        name: name.to_string(),
        author: author.to_string(),
        origin: origin.to_string(),
        book_url: url.to_string(),
        ..SearchBook::default()
    }
}

fn lookup_request(url: Option<&str>, name: Option<&str>, author: Option<&str>) -> GetAvailableBookSourceRequest {
    GetAvailableBookSourceRequest {
        url: url.map(|s| s.to_string()),
        name: name.map(|s| s.to_string()),
        author: author.map(|s| s.to_string()),
        origin: None,
        refresh: None,
        last_index: None,
        result_limit: None,
        concurrent_count: None,
    }
}

fn urls(list: &[&str]) -> Vec<String> {
    list.iter().map(|s| s.to_string()).collect()
}

#[test]
fn a_chapter_index_beyond_the_list_reads_the_whole_list_once() {
    let list = urls(&["c0", "c1"]);
    assert!(matches!(indexed_chapter_step(1, &list, false), IndexedChapter::Found(u) if u == "c1"));
    assert!(matches!(indexed_chapter_step(2, &list, false), IndexedChapter::ReadFullList));
    assert!(matches!(indexed_chapter_step(-1, &list, false), IndexedChapter::ReadFullList));
    assert!(matches!(
        indexed_chapter_step(2, &list, true),
        IndexedChapter::OutOfRange(m) if m == "chapter index out of range (max: 2)"
    ));
    let full = urls(&["c0", "c1", "c2"]);
    assert!(matches!(indexed_chapter_step(2, &full, true), IndexedChapter::Found(u) if u == "c2"));
}

#[test]
fn a_caching_run_needs_a_shelf_book_with_a_source_and_chapters() {
    assert_eq!(cache_book_origin(&None), Err("请先加入书架".to_string()));
    assert_eq!(
        cache_book_origin(&Some(shelf_book("b", "  ", "n", "a"))),
        Err("未配置书源".to_string())
    );
    assert_eq!(cache_book_origin(&Some(shelf_book("b", "src", "n", "a"))), Ok("src".to_string()));
    let list = urls(&["c0", "c1", "c2", "c3"]);
    assert_eq!(cache_chapter_range(&list, &Some("c1".to_string()), 2), Ok((1, 3)));
    assert_eq!(cache_chapter_range(&list, &Some("zz".to_string()), 0), Ok((0, 4)));
    assert_eq!(cache_chapter_range(&list, &None, 9), Ok((0, 4)));
    assert_eq!(
        cache_chapter_range(&Vec::new(), &None, 0),
        Err("没有找到需要缓存的章节".to_string())
    );
}

#[test]
fn progress_reads_remote_titles_only_with_a_toc_url() {
    let plain = shelf_book("https://example.com/b", "src", "n", "a");
    assert_eq!(progress_chapters(&plain), ProgressChapters::NoTitles);
    let with_toc = Book {
        toc_url: Some("https://example.com/toc".to_string()),
        ..plain
    };
    assert_eq!(progress_chapters(&with_toc), ProgressChapters::Remote);
}

#[test]
fn shelf_book_and_source_must_exist() {
    assert_eq!(shelf_book_required(None).unwrap_err(), "书籍未加入书架");
    assert_eq!(shelf_book_required(Some(shelf_book("b", "s", "n", "a"))).unwrap().book_url, "b");
    assert_eq!(source_required(None).unwrap_err(), "书源不存在");
    let src = BookSource {
        book_source_url: "s".to_string(),
        ..BookSource::default()
    };
    assert_eq!(source_required(Some(src)).unwrap().book_source_url, "s");
}

#[test]
fn a_switched_book_under_a_new_url_drops_the_old_entry() {
    let saved = shelf_book("new", "s", "n", "a");
    let stale = stale_entry_after_switch(&"old".to_string(), &saved).unwrap();
    assert_eq!(stale.book_url, "old");
    assert_eq!(stale.name, "");
    assert!(stale_entry_after_switch(&"new".to_string(), &saved).is_none());
}

#[test]
fn a_lookup_finds_its_book_by_url_then_name_then_the_request() {
    let req = lookup_request(Some("u"), Some("书"), Some("人"));
    assert!(matches!(shelf_lookup_start(&req), ShelfLookupStep::ByUrl(u) if u == "u"));
    assert!(matches!(
        shelf_lookup_after_url(&req, None),
        ShelfLookupStep::ByNameAuthor(n, a) if n == "书" && a == "人"
    ));
    assert!(matches!(
        shelf_lookup_after_url(&req, Some(shelf_book("u", "s", "书", "人"))),
        ShelfLookupStep::Found(b) if b.book_url == "u"
    ));
    assert!(matches!(
        shelf_lookup_after_name(&req, None),
        ShelfLookupStep::Found(b) if b.book_url == "u" && b.name == "书" && b.author == "人"
    ));
    let no_url = lookup_request(None, Some("书"), None);
    assert!(matches!(
        shelf_lookup_start(&no_url),
        ShelfLookupStep::Missing(m) if m == "书籍信息错误"
    ));
    let nothing = lookup_request(None, None, None);
    assert!(matches!(shelf_lookup_start(&nothing), ShelfLookupStep::Missing(_)));
}

#[test]
fn stored_candidates_answer_a_lookup_when_they_could_be_read() {
    assert!(lookup_stored_answer(None, "书", "人").is_none());
    let stored = vec![
        hit("书", "人", "s1", "1"),
        hit("书", "人", "s1", "1"),
        hit("别的", "人", "s2", "2"),
    ];
    let answer = lookup_stored_answer(Some(stored), "书", "人").unwrap();
    assert_eq!(answer.len(), 1);
    assert_eq!(answer[0].origin, "s1");
    assert!(lookup_stored_answer(Some(Vec::new()), "书", "人").unwrap().is_empty());
}

#[test]
fn a_streamed_lookup_leaves_out_the_books_own_source() {
    let book = shelf_book("u", "own", "书", "人");
    assert_eq!(stream_excluded_origin(&book, true), Some("own".to_string()));
    let blank = shelf_book("u", " ", "书", "人");
    assert_eq!(stream_excluded_origin(&blank, true), None);
    assert_eq!(stream_excluded_origin(&blank, false), Some(" ".to_string()));
    let stored = vec![hit("书", "人", "own", "1"), hit("书", "人", "other", "2")];
    let answer = stream_stored_answer(Some(stored), &book).unwrap();
    assert_eq!(answer.len(), 1);
    assert_eq!(answer[0].origin, "other");
    assert!(stream_stored_answer(Some(vec![hit("书", "人", "own", "1")]), &book).is_none());
    assert!(stream_stored_answer(None, &book).is_none());
}

#[test]
fn a_search_for_other_sources_needs_a_book() {
    let params = |url: &str| SourceSearchParams {
        book_url: url.to_string(),
        last_index: -1,
        search_size: 30,
        refresh: false,
        concurrent: 60,
        book_source_group: None,
    };
    assert_eq!(source_search_book_url(&params(" ")), Err("请输入书籍链接".to_string()));
    assert_eq!(source_search_book_url(&params("u")), Ok("u".to_string()));
    assert_eq!(source_search_book(None).unwrap_err(), "书籍信息错误");
    assert_eq!(source_search_book(Some(shelf_book("u", "s", "n", "a"))).unwrap().book_url, "u");
}

#[test]
fn explore_failures_stay_within_the_candidates_handed_out() {
    let mut scan = GlobalExploreScan::new(2, 10, 3, 5, 20);
    assert_eq!(scan.next_batch(0), Some((2, 5)));
    scan.record_failure();
    scan.record_failure();
    scan.record_failure();
    let r = scan.response(Vec::new());
    assert_eq!(r.failed, 3);
    assert_eq!(r.next_cursor, 5);
    assert!(r.has_more);
}
