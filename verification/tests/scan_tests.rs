use reader_next::model::SearchBook;
use reader_next::requests::{
    GetAvailableBookSourceRequest, SearchBookMultiSseRequest, SearchBookSourceSseRequest,
};
use reader_next::scan::{
    available_lookup_params, available_stream_uses_cache, multi_search_params, non_blank_param,
    source_search_params, target_matches, AvailableLookup, AvailableStream, MultiSearchScan,
    ScanStep, SourceSearchScan,
};

fn multi_request() -> SearchBookMultiSseRequest {
    SearchBookMultiSseRequest {
        key: None,
        name: None,
        author: None,
        book_source_url: None,
        book_source_group: None,
        last_index: None,
        search_size: None,
        concurrent_count: None,
    }
}

fn lookup_request() -> GetAvailableBookSourceRequest {
    GetAvailableBookSourceRequest {
        url: None,
        name: None,
        author: None,
        origin: None,
        refresh: None,
        last_index: None,
        result_limit: None,
        concurrent_count: None,
    }
}

fn hit(name: &str, author: &str, origin: &str, url: &str) -> SearchBook {
    SearchBook {
        name: name.to_string(),
        author: author.to_string(),
        origin: origin.to_string(),
        book_url: url.to_string(),
        ..SearchBook::default()
    }
}

#[test]
fn blank_text_parameters_are_dropped() {
    assert_eq!(non_blank_param(&Some("  \t".to_string())), None);
    assert_eq!(non_blank_param(&None), None);
    assert_eq!(non_blank_param(&Some(" g ".to_string())), Some(" g ".to_string()));
}

#[test]
fn multi_search_params_take_their_defaults() {
    let p = multi_search_params(&multi_request());
    assert_eq!(p.key, "");
    assert_eq!(p.name_for_write, "");
    assert_eq!(p.author_for_write, "");
    assert_eq!(p.last_index, -1);
    assert_eq!(p.search_size, 50);
    assert_eq!(p.concurrent, 10);
    assert_eq!(p.book_source_url, None);
    assert_eq!(p.book_source_group, None);
}

#[test]
fn multi_search_params_raise_small_sizes_and_default_the_name_to_the_key() {
    let mut req = multi_request();
    req.key = Some("仙".to_string());
    req.search_size = Some(0);
    req.concurrent_count = Some(-3);
    req.last_index = Some(7);
    req.book_source_group = Some("  ".to_string());
    let p = multi_search_params(&req);
    assert_eq!(p.name_for_write, "仙");
    assert_eq!(p.search_size, 1);
    assert_eq!(p.concurrent, 1);
    assert_eq!(p.last_index, 7);
    assert_eq!(p.book_source_group, None);
}

#[test]
fn multi_search_scan_starts_after_the_last_index_and_respects_concurrency() {
    let mut scan = MultiSearchScan::new(1, 5, 2, 2);
    assert_eq!(scan.next_step(0), ScanStep::Spawn(2));
    assert_eq!(scan.next_step(1), ScanStep::Spawn(3));
    assert_eq!(scan.next_step(2), ScanStep::Await);
    scan.record_results(3, 1);
    assert_eq!(scan.last_index(), 3);
    assert_eq!(scan.next_step(1), ScanStep::Spawn(4));
    scan.record_failure(2);
    assert_eq!(scan.last_index(), 2);
    assert_eq!(scan.next_step(1), ScanStep::Await);
    assert_eq!(scan.next_step(0), ScanStep::Finish);
}

#[test]
fn multi_search_scan_stops_adding_once_enough_results_came() {
    let mut scan = MultiSearchScan::new(-1, 10, 3, 4);
    assert_eq!(scan.next_step(0), ScanStep::Spawn(0));
    scan.record_results(0, 3);
    assert_eq!(scan.total(), 3);
    assert_eq!(scan.next_step(0), ScanStep::Finish);
}

#[test]
fn source_search_params_double_the_size_for_concurrency() {
    let req = SearchBookSourceSseRequest {
        url: Some("u".to_string()),
        book_source_group: None,
        last_index: None,
        search_size: None,
        refresh: Some(1),
    };
    let p = source_search_params(&req);
    assert_eq!(p.book_url, "u");
    assert_eq!(p.search_size, 30);
    assert_eq!(p.concurrent, 60);
    assert!(p.refresh);
    assert_eq!(p.last_index, -1);
    let small = SearchBookSourceSseRequest {
        url: None,
        book_source_group: Some("g".to_string()),
        last_index: Some(4),
        search_size: Some(5),
        refresh: None,
    };
    let q = source_search_params(&small);
    assert_eq!(q.concurrent, 24);
    assert_eq!(q.book_url, "");
    assert!(!q.refresh);
    assert_eq!(q.book_source_group, Some("g".to_string()));
}

#[test]
fn source_search_scan_counts_the_started_source_as_searched() {
    let mut scan = SourceSearchScan::new(-1, 3, 1, 2);
    assert_eq!(scan.next_step(0), ScanStep::Spawn(0));
    assert_eq!(scan.last_index(), 0);
    assert_eq!(scan.next_step(1), ScanStep::Spawn(1));
    assert_eq!(scan.last_index(), 1);
    scan.record_matches(1);
    assert_eq!(scan.next_step(1), ScanStep::Finish);
}

#[test]
fn available_lookup_params_page_only_when_asked() {
    let p = available_lookup_params(&lookup_request());
    assert!(!p.paged);
    assert_eq!(p.result_limit, usize::MAX);
    assert_eq!(p.concurrent, 8);
    assert_eq!(p.cursor, 0);
    assert_eq!(p.last_index, -1);
    let mut req = lookup_request();
    req.last_index = Some(4);
    req.result_limit = Some(500);
    let q = available_lookup_params(&req);
    assert!(q.paged);
    assert_eq!(q.result_limit, 100);
    assert_eq!(q.cursor, 5);
}

#[test]
fn available_stream_uses_cache_only_for_a_first_plain_request() {
    assert!(available_stream_uses_cache(&lookup_request()));
    let mut req = lookup_request();
    req.refresh = Some(1);
    assert!(!available_stream_uses_cache(&req));
    let mut req = lookup_request();
    req.last_index = Some(0);
    assert!(!available_stream_uses_cache(&req));
}

#[test]
fn available_stream_hands_out_at_most_twenty_results() {
    let mut stream = AvailableStream::new(-1, 30, 2);
    assert_eq!(stream.next_step(0), ScanStep::Spawn(0));
    assert_eq!(stream.next_step(1), ScanStep::Spawn(1));
    assert_eq!(stream.next_step(2), ScanStep::Await);
    assert_eq!(stream.remaining(), 20);
    stream.record(1, 20);
    assert_eq!(stream.remaining(), 0);
    assert_eq!(stream.next_step(1), ScanStep::Finish);
    assert!(stream.has_more(1));
    assert_eq!(stream.end_last_index(1), 1);
    stream.record(0, 0);
    assert_eq!(stream.end_last_index(0), 1);
}

#[test]
fn available_stream_reports_the_position_before_the_next_source() {
    let mut stream = AvailableStream::new(3, 10, 1);
    assert_eq!(stream.next_step(0), ScanStep::Spawn(4));
    assert_eq!(stream.end_last_index(0), 4);
    let done = AvailableStream::new(20, 10, 1);
    assert!(!done.has_more(0));
    assert_eq!(done.end_last_index(0), 20);
}

#[test]
fn target_matches_keeps_only_the_target_book() {
    let list = vec![
        hit("深空彼岸", "辰东", "a", "1"),
        hit("深空彼岸", "别人", "b", "2"),
        hit("深空 彼岸", "作者：辰东", "c", "3"),
    ];
    let m = target_matches(&list, "深空彼岸", "辰东");
    let origins: Vec<&str> = m.iter().map(|b| b.origin.as_str()).collect();
    assert_eq!(origins, vec!["a", "c"]);
}

#[test]
fn available_lookup_takes_batches_in_source_order_until_the_limit() {
    let mut lookup = AvailableLookup::new(0, -1, 3, 2, 5);
    assert_eq!(lookup.next_batch(), Some((0, 2)));
    let slots = vec![
        Some(vec![hit("书", "甲", "s0", "u0"), hit("别的书", "甲", "s0", "x")]),
        Some(vec![hit("书", "甲", "s1", "u1")]),
    ];
    lookup.absorb(0, slots, "书", "甲");
    assert_eq!(lookup.last_index(), 1);
    assert!(lookup.has_more());
    assert_eq!(lookup.next_batch(), Some((2, 4)));
    let slots = vec![
        None,
        Some(vec![hit("书", "甲", "s3", "u3"), hit("书", "甲", "s3", "u3b")]),
    ];
    lookup.absorb(2, slots, "书", "甲");
    assert_eq!(lookup.last_index(), 3);
    assert!(lookup.stores_results(false));
    assert_eq!(lookup.next_batch(), None);
    assert!(lookup.has_more());
    let results = lookup.into_results();
    let urls: Vec<&str> = results.iter().map(|b| b.book_url.as_str()).collect();
    assert_eq!(urls, vec!["u0", "u1", "u3"]);
}

#[test]
fn available_lookup_counts_failed_searches_as_searched() {
    let mut lookup = AvailableLookup::new(2, 1, usize::MAX, 8, 3);
    assert_eq!(lookup.next_batch(), Some((2, 3)));
    lookup.absorb(2, vec![Some(Vec::new())], "书", "甲");
    assert_eq!(lookup.last_index(), 2);
    assert!(!lookup.has_more());
    assert!(!lookup.stores_results(false));
    assert!(lookup.stores_results(true));
    assert_eq!(lookup.next_batch(), None);
}
