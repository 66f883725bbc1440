use reader_next::explore::GlobalExploreKindSelection;
use reader_next::explore_scan::{
    explore_global_params, explore_listing_hits, global_explore_candidates,
    sort_global_explore_candidates, GlobalExploreCandidate, GlobalExploreScan,
};
use reader_next::model::{BookSource, ExploreKind, SearchBook};
use reader_next::requests::ExploreBookGlobalRequest;

fn request() -> ExploreBookGlobalRequest {
    ExploreBookGlobalRequest {
        category: None,
        cursor: None,
        page: None,
        limit: None,
        concurrent_count: None,
        scan_limit: None,
    }
}

fn candidate(source_index: usize, score: i32) -> GlobalExploreCandidate {
    GlobalExploreCandidate {
        source_index,
        kind: GlobalExploreKindSelection {
            title: format!("t{source_index}"),
            url: format!("/u{source_index}"),
            score,
        },
    }
}

fn explorable(url: &str) -> BookSource {
    BookSource {
        book_source_url: url.to_string(),
        enabled_explore: Some(true),
        explore_url: Some("x".to_string()),
        ..BookSource::default()
    }
}

fn kind(title: &str, url: &str) -> ExploreKind {
    ExploreKind {
        title: title.to_string(),
        url: Some(url.to_string()),
        style: None,
    }
}

#[test]
fn explore_global_params_take_their_defaults() {
    let p = explore_global_params(&request());
    assert_eq!(p.category, "mixed");
    assert_eq!(p.cursor, 0);
    assert_eq!(p.page, 1);
    assert_eq!(p.limit, 20);
    assert_eq!(p.concurrent, 16);
    assert_eq!(p.scan_limit, 96);
}

#[test]
fn explore_global_params_clamp_to_their_bounds() {
    let mut req = request();
    req.category = Some("fantasy".to_string());
    req.page = Some(0);
    req.limit = Some(1000);
    req.concurrent_count = Some(0);
    req.scan_limit = Some(500);
    req.cursor = Some(7);
    let p = explore_global_params(&req);
    assert_eq!(p.category, "fantasy");
    assert_eq!(p.page, 1);
    assert_eq!(p.limit, 100);
    assert_eq!(p.concurrent, 1);
    assert_eq!(p.scan_limit, 120);
    assert_eq!(p.cursor, 7);
    let mut req = request();
    req.concurrent_count = Some(30);
    req.scan_limit = Some(2);
    let q = explore_global_params(&req);
    assert_eq!(q.concurrent, 24);
    assert_eq!(q.scan_limit, 24);
}

#[test]
fn global_explore_candidates_skip_sources_without_a_fitting_listing() {
    let sources = vec![
        explorable("a"),
        BookSource::default(),
        explorable("c"),
        explorable("d"),
    ];
    let kinds = vec![
        Some(vec![kind("玄幻排行榜", "/rank")]),
        Some(vec![kind("玄幻排行榜", "/rank")]),
        None,
        Some(vec![kind("玄幻", "/x"), kind("都市", "/y")]),
    ];
    let c = global_explore_candidates("fantasy", &sources, &kinds);
    let indices: Vec<usize> = c.iter().map(|c| c.source_index).collect();
    assert_eq!(indices, vec![0, 3]);
    assert_eq!(c[0].kind.url, "/rank");
    assert_eq!(c[1].kind.url, "/x");
}

#[test]
fn candidates_are_visited_best_score_first_then_by_source() {
    let sorted = sort_global_explore_candidates(vec![
        candidate(0, 10),
        candidate(1, 30),
        candidate(2, 10),
        candidate(3, 30),
    ]);
    let order: Vec<usize> = sorted.iter().map(|c| c.source_index).collect();
    assert_eq!(order, vec![1, 3, 0, 2]);
}

#[test]
fn global_explore_scan_visits_a_window_in_batches() {
    let mut scan = GlobalExploreScan::new(1, 5, 2, 10, 10);
    assert_eq!(scan.next_batch(0), Some((1, 3)));
    assert_eq!(scan.next_batch(4), Some((3, 5)));
    assert_eq!(scan.next_batch(4), Some((5, 6)));
    assert_eq!(scan.next_batch(4), None);
    scan.record_failure();
    let r = scan.response(Vec::new());
    assert_eq!(r.next_cursor, 6);
    assert!(r.has_more);
    assert_eq!(r.failed, 1);
}

#[test]
fn global_explore_scan_stops_once_enough_books_were_gathered() {
    let mut scan = GlobalExploreScan::new(0, 96, 16, 20, 40);
    assert_eq!(scan.next_batch(0), Some((0, 16)));
    assert_eq!(scan.next_batch(20), None);
    assert_eq!(scan.next_cursor(), 16);
    let past = GlobalExploreScan::new(50, 96, 16, 20, 40);
    assert_eq!(past.next_cursor(), 40);
    assert!(!past.response(Vec::new()).has_more);
}

#[test]
fn listing_hits_keep_positions_and_score() {
    let books = vec![
        SearchBook { name: "a".to_string(), ..SearchBook::default() },
        SearchBook { name: "b".to_string(), ..SearchBook::default() },
    ];
    let hits = explore_listing_hits(books, 28);
    assert_eq!(hits.len(), 2);
    assert_eq!(hits[1].book.name, "b");
    assert_eq!(hits[1].position, 1);
    assert_eq!(hits[0].category_score, 28);
}
