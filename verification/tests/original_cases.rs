use reader_next::available::{
    build_available_book_source_response, cache_count_for_shelf_display, fallback_available_book,
    should_use_available_source_cache, take_available_source_cached_matches,
    take_available_source_sse_matches,
};
use reader_next::explore::{
    merge_global_explore_books, select_global_explore_kind, GlobalExploreBookHit,
};
use reader_next::keyset::KeySet;
use reader_next::model::{Book, ExploreKind, SearchBook};
use reader_next::requests::GetAvailableBookSourceRequest;
use reader_next::search::{merge_search_results, take_search_book_multi_sse_batch};
use reader_next::shelf::book_matches_delete_target;

#[test]
fn delete_target_matches_by_book_url() {
    let shelf_book = Book {
        book_url: "https://example.test/book/1".to_string(),
        name: "A".to_string(),
        author: "B".to_string(),
        ..Book::default()
    };
    let target = Book {
        book_url: "https://example.test/book/1".to_string(),
        ..Book::default()
    };

    assert!(book_matches_delete_target(&shelf_book, &target));
}

#[test]
fn delete_target_matches_by_name_and_author() {
    let shelf_book = Book {
        book_url: "https://example.test/book/1".to_string(),
        name: "A".to_string(),
        author: "B".to_string(),
        ..Book::default()
    };
    let target = Book {
        name: "A".to_string(),
        author: "B".to_string(),
        ..Book::default()
    };

    assert!(book_matches_delete_target(&shelf_book, &target));
}

#[test]
fn merge_search_results_ranks_exact_matches_first_and_filters_noise() {
    let books = vec![
        SearchBook {
            name: "修什么仙造作啊".to_string(),
            author: "雏禾".to_string(),
            origin: "source-a".to_string(),
            book_url: "a".to_string(),
            ..SearchBook::default()
        },
        SearchBook {
            name: "没钱修什么仙".to_string(),
            author: "封七月".to_string(),
            origin: "source-b".to_string(),
            book_url: "b".to_string(),
            ..SearchBook::default()
        },
        SearchBook {
            name: "我在异界没钱修什么仙".to_string(),
            author: "一只鱼".to_string(),
            origin: "source-c".to_string(),
            book_url: "c".to_string(),
            ..SearchBook::default()
        },
    ];

    let merged = merge_search_results("没钱修什么仙", books);
    let names: Vec<String> = merged.into_iter().map(|book| book.name).collect();

    assert_eq!(names, vec!["没钱修什么仙", "我在异界没钱修什么仙"]);
}

#[test]
fn merge_search_results_collects_duplicate_sources() {
    let books = vec![
        SearchBook {
            name: "没钱修什么仙".to_string(),
            author: "封七月".to_string(),
            origin: "source-a".to_string(),
            book_url: "url-a".to_string(),
            ..SearchBook::default()
        },
        SearchBook {
            name: "没钱修什么仙".to_string(),
            author: "封七月".to_string(),
            origin: "source-b".to_string(),
            book_url: "url-b".to_string(),
            cover_url: Some("cover.jpg".to_string()),
            ..SearchBook::default()
        },
    ];

    let merged = merge_search_results("没钱修什么仙", books);

    assert_eq!(merged.len(), 1);
    assert_eq!(merged[0].name, "没钱修什么仙");
    assert_eq!(merged[0].cover_url.as_deref(), Some("cover.jpg"));
    assert!(merged[0].book_source_urls.as_ref().is_some_and(|urls| {
        urls.contains(&"source-a".to_string()) && urls.contains(&"source-b".to_string())
    }));
}

#[test]
fn take_search_book_multi_sse_batch_filters_noise_and_tracks_seen_results() {
    let books = vec![
        SearchBook {
            name: "修什么仙造作啊".to_string(),
            author: "雏禾".to_string(),
            origin: "source-a".to_string(),
            book_url: "a".to_string(),
            ..SearchBook::default()
        },
        SearchBook {
            name: "没钱修什么仙".to_string(),
            author: "封七月".to_string(),
            origin: "source-b".to_string(),
            book_url: "b".to_string(),
            ..SearchBook::default()
        },
        SearchBook {
            name: "我在异界没钱修什么仙".to_string(),
            author: "一只鱼".to_string(),
            origin: "source-c".to_string(),
            book_url: "c".to_string(),
            ..SearchBook::default()
        },
    ];
    let mut seen = KeySet::new();

    let batch = take_search_book_multi_sse_batch("没钱修什么仙", books.clone(), &mut seen);
    let duplicate_batch = take_search_book_multi_sse_batch("没钱修什么仙", books, &mut seen);
    let names: Vec<String> = batch.into_iter().map(|book| book.name).collect();

    assert_eq!(names, vec!["没钱修什么仙", "我在异界没钱修什么仙"]);
    assert!(duplicate_batch.is_empty());
    assert_eq!(seen.len(), 2);
}

#[test]
fn take_search_book_multi_sse_batch_drops_weak_only_source_results() {
    let books = vec![
        SearchBook {
            name: "普通玄幻".to_string(),
            author: "作者甲".to_string(),
            origin: "source-a".to_string(),
            book_url: "a".to_string(),
            ..SearchBook::default()
        },
        SearchBook {
            name: "冷门修仙".to_string(),
            author: "作者乙".to_string(),
            origin: "source-b".to_string(),
            book_url: "b".to_string(),
            ..SearchBook::default()
        },
    ];
    let mut seen = KeySet::new();

    let batch = take_search_book_multi_sse_batch("不存在的冷门书名", books, &mut seen);

    assert!(batch.is_empty());
    assert!(seen.is_empty());
}

#[test]
fn available_book_source_limits_result_count_and_reports_more() {
    let books: Vec<SearchBook> = (0..25)
        .map(|index| SearchBook {
            name: format!("Book {index}"),
            author: if index == 3 {
                "作者：Author".to_string()
            } else {
                "Author".to_string()
            },
            ..SearchBook::default()
        })
        .collect();

    let response = build_available_book_source_response(books, 11, true, Some(20));

    assert_eq!(response.books.len(), 20);
    assert_eq!(response.books[0].name, "Book 0");
    assert_eq!(response.books[19].name, "Book 19");
    assert_eq!(response.last_index, 11);
    assert!(response.has_more);
}

#[test]
fn local_txt_books_do_not_report_remote_cache_count_for_shelf_display() {
    let book = Book {
        origin: "local-txt".to_string(),
        book_url: "local-txt:abc".to_string(),
        ..Book::default()
    };

    assert_eq!(cache_count_for_shelf_display(&book, 42), 0);
}

#[test]
fn available_book_source_paged_requests_skip_complete_cache() {
    assert!(should_use_available_source_cache(false, None, None));
    assert!(!should_use_available_source_cache(true, None, None));
    assert!(!should_use_available_source_cache(false, Some(20), None));
    assert!(!should_use_available_source_cache(false, None, Some(0)));
}

#[test]
fn available_book_source_can_fallback_to_request_book() {
    let req = GetAvailableBookSourceRequest {
        url: Some("https://example.test/book/1".to_string()),
        name: Some("深空彼岸".to_string()),
        author: Some("辰东".to_string()),
        origin: Some("https://source.test".to_string()),
        refresh: None,
        last_index: None,
        result_limit: None,
        concurrent_count: None,
    };

    let book = fallback_available_book(&req).expect("fallback book");

    assert_eq!(book.book_url, "https://example.test/book/1");
    assert_eq!(book.name, "深空彼岸");
    assert_eq!(book.author, "辰东");
    assert_eq!(book.origin, "https://source.test");
}

#[test]
fn available_book_source_cache_ignores_current_source_only_results() {
    let cached = vec![SearchBook {
        name: "深空彼岸".to_string(),
        author: "作者：辰东".to_string(),
        origin: "https://m.22biqu.com/".to_string(),
        book_url: "https://m.22biqu.com/biqu2986/".to_string(),
        ..SearchBook::default()
    }];

    let matches = take_available_source_cached_matches(
        cached,
        Some("https://m.22biqu.com/"),
        "深空彼岸",
        "辰东",
        5,
    );

    assert!(matches.is_empty());
}

#[test]
fn available_book_source_cache_drops_wrong_name_or_author() {
    let cached = vec![
        SearchBook {
            name: "深空彼岸".to_string(),
            author: "辰东".to_string(),
            origin: "source-a".to_string(),
            book_url: "a".to_string(),
            ..SearchBook::default()
        },
        SearchBook {
            name: "深空彼岸".to_string(),
            author: "别人".to_string(),
            origin: "source-b".to_string(),
            book_url: "b".to_string(),
            ..SearchBook::default()
        },
        SearchBook {
            name: "错书".to_string(),
            author: "辰东".to_string(),
            origin: "source-c".to_string(),
            book_url: "c".to_string(),
            ..SearchBook::default()
        },
    ];

    let matches = take_available_source_cached_matches(cached, None, "深空彼岸", "辰东", 5);

    assert_eq!(matches.len(), 1);
    assert_eq!(matches[0].origin, "source-a");
}

#[test]
fn available_book_source_sse_takes_matches_until_limit() {
    let books: Vec<SearchBook> = (0..8)
        .map(|index| SearchBook {
            name: if index == 0 {
                "Other".to_string()
            } else {
                "Book".to_string()
            },
            author: if index == 3 {
                "作者：Author".to_string()
            } else {
                "Author".to_string()
            },
            origin: if index == 2 {
                "current-source".to_string()
            } else {
                format!("source-{index}")
            },
            book_url: format!("book-{index}"),
            ..SearchBook::default()
        })
        .collect();
    let mut seen = KeySet::new();

    let matches = take_available_source_sse_matches(
        books,
        "Book",
        "Author",
        Some("current-source"),
        &mut seen,
        5,
    );

    assert_eq!(matches.len(), 5);
    assert_eq!(matches[0].origin, "source-1");
    assert_eq!(matches[1].origin, "source-3");
    assert_eq!(matches[4].origin, "source-6");
    assert_eq!(seen.len(), 5);
}

#[test]
fn global_explore_selects_hot_category_for_requested_category() {
    let kinds = vec![
        explore_kind("玄幻魔法", "/xuanhuan"),
        explore_kind("玄幻排行榜", "/xuanhuan-rank"),
        explore_kind("都市排行", "/urban-rank"),
    ];

    let selected = select_global_explore_kind("fantasy", &kinds).expect("selected kind");

    assert_eq!(selected.title, "玄幻排行榜");
    assert_eq!(selected.url, "/xuanhuan-rank");
}

#[test]
fn global_explore_ranks_books_seen_in_more_sources_first() {
    let ranked = merge_global_explore_books(
        vec![
            global_hit("单源热门", "甲", "source-a", "a", 40, 0),
            global_hit("多源热门", "乙", "source-b", "b", 20, 1),
            global_hit("多源热门", "乙", "source-c", "c", 20, 2),
        ],
        10,
    );

    assert_eq!(ranked[0].name, "多源热门");
    assert!(ranked[0].book_source_urls.as_ref().is_some_and(|urls| {
        urls.contains(&"source-b".to_string()) && urls.contains(&"source-c".to_string())
    }));
}

#[test]
fn global_explore_drops_empty_book_names() {
    let ranked = merge_global_explore_books(
        vec![
            global_hit("", "甲", "source-a", "a", 40, 0),
            global_hit("正常书", "乙", "source-b", "b", 20, 1),
        ],
        10,
    );

    assert_eq!(ranked.len(), 1);
    assert_eq!(ranked[0].name, "正常书");
}

fn explore_kind(title: &str, url: &str) -> ExploreKind {
    ExploreKind {
        title: title.to_string(),
        url: Some(url.to_string()),
        style: None,
    }
}

fn global_hit(
    name: &str,
    author: &str,
    origin: &str,
    book_url: &str,
    category_score: i32,
    position: usize,
) -> GlobalExploreBookHit {
    GlobalExploreBookHit {
        book: SearchBook {
            name: name.to_string(),
            author: author.to_string(),
            origin: origin.to_string(),
            book_url: book_url.to_string(),
            ..SearchBook::default()
        },
        category_score,
        position,
    }
}
