use reader_next::available::{
    available_source_matches_target, available_source_sse_result_key,
    effective_available_concurrent_count, effective_available_result_limit,
    normalize_available_author, normalize_available_book_name, take_available_source_sse_matches,
};
use reader_next::explore::{
    compact_global_text, find_global_explore_category, keyword_hits, merge_global_explore_books,
    score_global_explore_kind, source_supports_global_explore, GlobalExploreBookHit,
    GlobalExploreCategory,
};
use reader_next::form::{
    form_value, resolve_book_content_request, resolve_chapter_list_request,
    resolve_delete_cache_request, resolve_explore_book_request, resolve_search_book_request,
    resolve_set_book_source_request,
};
use reader_next::keyset::KeySet;
use reader_next::local::{is_local_book, local_format, local_origin, LocalFormat};
use reader_next::model::{Book, BookSource, SearchBook};
use reader_next::numbers::{parse_i32, push_signed_decimal};
use reader_next::reading::{
    apply_reading_progress, cache_book_params, chapter_index_in_range,
    chapter_index_out_of_range_message, chapters_to_cache, delete_cache_toc_urls,
    plan_book_content, plan_book_info, plan_chapter_list, progress_chapters, progress_target,
    root_toc_url, serves_cached_chapters, shelf_cache_toc_urls, CacheProgress, chapters_to_fetch, toc_url_of_book, BookInfoTarget, ChapterListTarget, ContentTarget,
    ProgressChapters,
};
use reader_next::relevance::{filter_strong_search_results, score_search_book};
use reader_next::requests::{
    BookContentRequest, BookInfoRequest, CacheBookRequest, ChapterListRequest,
    DeleteCacheRequest, ExploreBookRequest, SaveBookProgressRequest, SearchBookRef,
    SearchBookRequest, SetBookSourceRequest,
};
use reader_next::search::{merge_search_results, take_search_book_multi_sse_batch};
use reader_next::text::{chars_of, is_whitespace_char, lowercase_chars, string_of, trim_chars};
use reader_next::urls::{extract_root_domain, normalize_source_url, repair_encoded_url};

fn hit(name: &str, author: &str, origin: &str, url: &str) -> SearchBook {
    SearchBook {
        name: name.to_string(),
        author: author.to_string(),
        origin: origin.to_string(),
        book_url: url.to_string(),
        ..SearchBook::default()
    }
}

fn search_request() -> SearchBookRequest {
    SearchBookRequest {
        key: Some("query-key".to_string()),
        page: Some(4),
        book_source_url: None,
        book_source: None,
    }
}

#[test]
fn white_space_agrees_with_std_for_every_char() {
    for code in 0u32..=0x10FFFF {
        if let Some(c) = char::from_u32(code) {
            assert_eq!(is_whitespace_char(c), c.is_whitespace(), "U+{code:04X}");
        }
    }
}

#[test]
fn trimming_agrees_with_str_trim() {
    for s in ["", "  ", " a b ", "\u{3000}书\u{3000}", "\tx\n", "abc"] {
        assert_eq!(string_of(&trim_chars(&chars_of(s))), s.trim());
    }
}

#[test]
fn lowercasing_agrees_with_str_to_lowercase() {
    for s in ["ABC", "Straße", "İx", "ÀÉ书", ""] {
        assert_eq!(string_of(&lowercase_chars(&chars_of(s))), s.to_lowercase());
    }
}

#[test]
fn key_sets_remember_inserted_keys() {
    let mut set = KeySet::new();
    assert!(set.is_empty());
    assert!(set.insert("a".to_string()));
    assert!(!set.insert("a".to_string()));
    assert!(set.insert("b".to_string()));
    assert!(set.contains(&"a".to_string()));
    assert!(!set.contains(&"c".to_string()));
    assert_eq!(set.len(), 2);
}

#[test]
fn uploaded_books_are_told_apart_by_origin_and_url() {
    assert_eq!(local_origin(LocalFormat::Pdf), "local-pdf");
    assert!(is_local_book(LocalFormat::Epub, "x", "local-epub:1"));
    assert!(!is_local_book(LocalFormat::Epub, "local-epubx", "epub:1"));
    assert_eq!(local_format("local-mobi", "u"), Some(LocalFormat::Mobi));
    assert_eq!(local_format("local-pdf", "local-txt:1"), Some(LocalFormat::Txt));
    assert_eq!(local_format("https://s.test", "https://b.test"), None);
}

#[test]
fn urls_are_normalized_and_repaired() {
    assert_eq!(normalize_source_url("  https://s.test///  "), "https://s.test");
    assert_eq!(normalize_source_url("/"), "");
    assert_eq!(repair_encoded_url(" https://b.test/1 "), "https://b.test/1");
    assert_eq!(extract_root_domain("m.22biqu.com"), "22biqu");
    assert_eq!(extract_root_domain("localhost"), "localhost");
    assert_eq!(extract_root_domain("a..b"), "");
}

#[test]
fn decimal_numbers_parse_as_std_does() {
    for s in ["0", "-0", "+7", "2147483647", "-2147483648", "2147483648", "", "-", "1a", " 1", "0012"] {
        assert_eq!(parse_i32(s), s.parse::<i32>().ok(), "{s:?}");
    }
}

#[test]
fn available_limits_are_clamped() {
    assert_eq!(effective_available_result_limit(None), 20);
    assert_eq!(effective_available_result_limit(Some(0)), 1);
    assert_eq!(effective_available_result_limit(Some(1000)), 100);
    assert_eq!(effective_available_concurrent_count(None), 8);
    assert_eq!(effective_available_concurrent_count(Some(-5)), 1);
    assert_eq!(effective_available_concurrent_count(Some(99)), 20);
}

#[test]
fn target_names_and_authors_are_normalized() {
    assert_eq!(normalize_available_book_name(" 深空 彼岸 "), "深空彼岸");
    assert_eq!(normalize_available_author("作者：辰东"), "辰东");
    assert_eq!(normalize_available_author("作者: 辰东"), "辰东");
    assert_eq!(normalize_available_author("作者辰东"), "辰东");
    assert_eq!(normalize_available_author("::辰东"), "辰东");
    assert!(available_source_matches_target(
        &hit("深空 彼岸", "作者：辰东", "s", "u"),
        "深空彼岸",
        "辰东"
    ));
    assert_eq!(
        available_source_sse_result_key(&hit("n", "a", "src", "url")),
        "src::url"
    );
}

#[test]
fn streamed_lookup_matches_skip_seen_and_excluded_results() {
    let mut seen = KeySet::new();
    let books = vec![
        hit("书", "甲", "mine", "1"),
        hit("书", "甲", "s1", "1"),
        hit("书", "甲", "s1", "1"),
        hit("书", "乙", "s2", "2"),
        hit("书", "甲", "s3", "3"),
    ];
    let first = take_available_source_sse_matches(books, "书", "甲", Some("mine"), &mut seen, 5);
    let keys: Vec<String> = first.iter().map(available_source_sse_result_key).collect();
    assert_eq!(keys, vec!["s1::1".to_string(), "s3::3".to_string()]);
    let again = take_available_source_sse_matches(
        vec![hit("书", "甲", "s1", "1"), hit("书", "甲", "s4", "4")],
        "书",
        "甲",
        None,
        &mut seen,
        5,
    );
    assert_eq!(again.len(), 1);
    assert_eq!(again[0].origin, "s4");
    assert_eq!(seen.len(), 3);
}

#[test]
fn search_scores_follow_the_title_and_author() {
    let q = "没钱修什么仙";
    assert_eq!(score_search_book(q, &hit("没钱修什么仙", "x", "s", "u")).score, 100);
    assert_eq!(score_search_book(q, &hit("我在异界没钱修什么仙", "x", "s", "u")).score, 80);
    assert_eq!(score_search_book("封七月", &hit("书", "封 七月", "s", "u")).score, 70);
    assert_eq!(score_search_book(q, &hit("修什么仙", "x", "s", "u")).score, 60);
    assert_eq!(score_search_book(q, &hit("仙", "x", "s", "u")).score, 0);
    assert_eq!(score_search_book("", &hit("仙", "x", "s", "u")).score, 0);
    let ranked = filter_strong_search_results(
        q,
        vec![
            hit("修什么仙", "a", "s", "1"),
            hit("别的", "b", "s", "2"),
            hit("没钱修什么仙", "c", "s", "3"),
        ],
    );
    let urls: Vec<&str> = ranked.iter().map(|b| b.book_url.as_str()).collect();
    assert_eq!(urls, vec!["3", "1"]);
}

#[test]
fn a_repeated_sse_batch_hands_out_nothing() {
    let mut seen = KeySet::new();
    let books = || {
        vec![
            hit("没钱修什么仙", "封七月", "a", "1"),
            hit("没钱修什么仙", "封七月", "b", "2"),
            hit("无关", "某人", "c", "3"),
        ]
    };
    let first = take_search_book_multi_sse_batch("没钱修什么仙", books(), &mut seen);
    assert_eq!(first.len(), 1);
    assert_eq!(seen.len(), 1);
    let second = take_search_book_multi_sse_batch("没钱修什么仙", books(), &mut seen);
    assert!(second.is_empty());
    assert_eq!(seen.len(), 1);
    assert!(seen.contains(&"没钱修什么仙::封七月".to_string()));
}

#[test]
fn merged_books_list_each_source_once_in_order() {
    let books = vec![
        hit("没钱修什么仙", "封七月", "source-a", "1"),
        hit("没钱修什么仙 ", " 封七月", "source-b", "2"),
        hit("没钱修什么仙", "封七月", "source-a", "3"),
        hit("无关", "某人", "source-d", "4"),
        hit(" 没钱修什么仙", "封七月", "source-c", "5"),
    ];
    let merged = merge_search_results("没钱修什么仙", books);
    assert_eq!(merged.len(), 1);
    assert_eq!(merged[0].book_url, "1");
    assert_eq!(
        merged[0].book_source_urls,
        Some(vec![
            "source-a".to_string(),
            "source-b".to_string(),
            "source-c".to_string()
        ])
    );
}

#[test]
fn a_book_from_one_source_keeps_no_source_list() {
    let merged = merge_search_results("没钱修什么仙", vec![hit("没钱修什么仙", "封七月", "source-a", "1")]);
    assert_eq!(merged.len(), 1);
    assert_eq!(merged[0].book_source_urls, None);
}

#[test]
fn explore_categories_are_found_by_key_or_title() {
    assert_eq!(find_global_explore_category("fantasy"), GlobalExploreCategory::Fantasy);
    assert_eq!(find_global_explore_category("玄幻"), GlobalExploreCategory::Fantasy);
    assert_eq!(find_global_explore_category("nothing"), GlobalExploreCategory::Mixed);
    assert_eq!(GlobalExploreCategory::SciFi.key(), "sci-fi");
    assert_eq!(compact_global_text(" 玄幻 · 排行/榜 "), "玄幻排行榜");
    assert_eq!(keyword_hits("玄幻排行榜", &["排行", "榜", "热门"]), 2);
}

#[test]
fn explore_listings_score_by_category() {
    assert_eq!(score_global_explore_kind(GlobalExploreCategory::Mixed, "全部"), Some(1));
    assert_eq!(score_global_explore_kind(GlobalExploreCategory::Mixed, "热门"), Some(28));
    assert_eq!(score_global_explore_kind(GlobalExploreCategory::Rank, "全部"), None);
    assert_eq!(score_global_explore_kind(GlobalExploreCategory::Rank, "排行榜"), Some(46));
    assert_eq!(score_global_explore_kind(GlobalExploreCategory::Fantasy, "玄幻最新"), Some(15));
    assert_eq!(score_global_explore_kind(GlobalExploreCategory::Fantasy, "都市"), None);
}

#[test]
fn only_enabled_sources_with_an_explore_url_take_part() {
    let mut s = BookSource {
        enabled_explore: Some(true),
        explore_url: Some("x".to_string()),
        ..BookSource::default()
    };
    assert!(source_supports_global_explore(&s));
    s.enabled = Some(false);
    assert!(!source_supports_global_explore(&s));
    s.enabled = None;
    s.explore_url = Some("  ".to_string());
    assert!(!source_supports_global_explore(&s));
    assert!(!source_supports_global_explore(&BookSource::default()));
}

#[test]
fn gathered_explore_books_respect_the_limit() {
    let hits: Vec<GlobalExploreBookHit> = (0..5)
        .map(|i| GlobalExploreBookHit {
            book: hit(&format!("书{i}"), "a", "s", &format!("u{i}")),
            category_score: 10,
            position: i,
        })
        .collect();
    let books = merge_global_explore_books(hits, 3);
    let names: Vec<&str> = books.iter().map(|b| b.name.as_str()).collect();
    assert_eq!(names, vec!["书0", "书1", "书2"]);
}

#[test]
fn form_fields_take_the_last_value_given() {
    let pairs = vec![
        ("origin".to_string(), "a".to_string()),
        ("x".to_string(), "b".to_string()),
        ("bookSourceUrl".to_string(), "c".to_string()),
    ];
    assert_eq!(form_value(&pairs, &vec!["bookSourceUrl", "origin"]), Some("c".to_string()));
    assert_eq!(form_value(&pairs, &vec!["key"]), None);
}

#[test]
fn search_requests_read_a_form_body() {
    let r = resolve_search_book_request(search_request(), b"key=%E4%BB%99&page=x&origin=o", None);
    assert_eq!(r.key, Some("仙".to_string()));
    assert_eq!(r.page, None);
    assert_eq!(r.book_source_url, Some("o".to_string()));
    let r = resolve_search_book_request(search_request(), b"", None);
    assert_eq!(r.key, Some("query-key".to_string()));
    assert_eq!(r.page, Some(4));
    let r = resolve_search_book_request(search_request(), &[0xff, 0xfe], None);
    assert_eq!(r.key, Some("query-key".to_string()));
    let json = SearchBookRequest {
        key: Some("json".to_string()),
        page: None,
        book_source_url: None,
        book_source: None,
    };
    let r = resolve_search_book_request(search_request(), b"{}", Some(json));
    assert_eq!(r.key, Some("json".to_string()));
    assert_eq!(r.page, None);
}

#[test]
fn explore_requests_keep_the_query_page_unless_the_form_gives_one() {
    let query = ExploreBookRequest {
        rule_find_url: Some("/q".to_string()),
        page: Some(2),
        book_source_url: None,
        book_source: None,
    };
    let r = resolve_explore_book_request(query, b"page=abc&ruleFindUrl=%2Ff", None);
    assert_eq!(r.rule_find_url, Some("/f".to_string()));
    assert_eq!(r.page, Some(2));
}

#[test]
fn other_requests_read_their_form_fields() {
    let list = resolve_chapter_list_request(
        ChapterListRequest {
            toc_url: None,
            book_url: None,
            book_source_url: None,
            book_source: None,
            refresh: None,
        },
        b"url=b&tocUrl=t&refresh=1",
        None,
    );
    assert_eq!(list.book_url, Some("b".to_string()));
    assert_eq!(list.toc_url, Some("t".to_string()));
    assert_eq!(list.refresh, Some(1));
    let content = resolve_book_content_request(
        BookContentRequest {
            chapter_url: Some("q".to_string()),
            book_source_url: None,
            book_source: None,
            index: None,
            refresh: None,
        },
        b"href=h&index=3",
        None,
    );
    assert_eq!(content.chapter_url, Some("h".to_string()));
    assert_eq!(content.index, Some(3));
    let merged = resolve_book_content_request(
        BookContentRequest {
            chapter_url: Some("q".to_string()),
            book_source_url: None,
            book_source: None,
            index: None,
            refresh: None,
        },
        b"{}",
        Some(BookContentRequest {
            chapter_url: Some("j".to_string()),
            book_source_url: None,
            book_source: None,
            index: Some(9),
            refresh: None,
        }),
    );
    assert_eq!(merged.chapter_url, Some("q".to_string()));
    assert_eq!(merged.index, Some(9));
    let cache = resolve_delete_cache_request(
        DeleteCacheRequest {
            chapter_url: None,
            url: None,
            book_url: None,
        },
        b"bookUrl=b",
        None,
    );
    assert_eq!(cache.book_url, Some("b".to_string()));
    let switch = resolve_set_book_source_request(
        SetBookSourceRequest::default(),
        b"url=o&newUrl=n&bookSourceUrl=s",
        None,
    );
    assert_eq!(switch.book_url, Some("o".to_string()));
    assert_eq!(switch.new_url, Some("n".to_string()));
    assert_eq!(switch.book_source_url, Some("s".to_string()));
}

#[test]
fn book_details_come_from_uploads_or_sources() {
    let local = plan_book_info(&BookInfoRequest {
        url: Some(" local-epub:1 ".to_string()),
        book_source_url: None,
        book_source: None,
    })
    .unwrap();
    assert!(matches!(local, BookInfoTarget::Local { format: LocalFormat::Epub, ref url } if url == "local-epub:1"));
    let remote = plan_book_info(&BookInfoRequest {
        url: Some("https://b.test".to_string()),
        book_source_url: None,
        book_source: None,
    })
    .unwrap();
    assert!(matches!(remote, BookInfoTarget::Remote { ref url } if url == "https://b.test"));
    let missing = plan_book_info(&BookInfoRequest {
        url: None,
        book_source_url: None,
        book_source: None,
    });
    assert_eq!(missing.unwrap_err(), "url required");
}

#[test]
fn chapter_lists_prefer_the_toc_url() {
    let plan = plan_chapter_list(&ChapterListRequest {
        toc_url: Some(" t ".to_string()),
        book_url: Some("b".to_string()),
        book_source_url: None,
        book_source: None,
        refresh: Some(1),
    })
    .unwrap();
    assert!(plan.refresh);
    assert!(matches!(plan.target, ChapterListTarget::Toc { ref toc_url } if toc_url == "t"));
    let plan = plan_chapter_list(&ChapterListRequest {
        toc_url: None,
        book_url: None,
        book_source_url: Some("local-txt".to_string()),
        book_source: None,
        refresh: None,
    });
    assert_eq!(plan.unwrap_err(), "tocUrl or bookUrl required");
    let plan = plan_chapter_list(&ChapterListRequest {
        toc_url: None,
        book_url: None,
        book_source_url: None,
        book_source: None,
        refresh: None,
    })
    .unwrap();
    assert!(matches!(plan.target, ChapterListTarget::Missing));
    assert_eq!(toc_url_of_book("b", &None), "b");
    assert_eq!(toc_url_of_book("b", &Some(" t ".to_string())), "t");
}

#[test]
fn chapter_content_targets_depend_on_the_url() {
    let request = |url: &str, index: Option<i32>, origin: Option<&str>| BookContentRequest {
        chapter_url: Some(url.to_string()),
        book_source_url: origin.map(|o| o.to_string()),
        book_source: None,
        index,
        refresh: None,
    };
    let plan = plan_book_content(&request("local-txt:abc ", Some(3), None)).unwrap();
    assert!(matches!(plan.target, ContentTarget::Local { format: LocalFormat::Txt, ref chapter_url } if chapter_url == "local-txt:abc#3"));
    let plan = plan_book_content(&request("local-pdf:x", Some(-4), None)).unwrap();
    assert!(matches!(plan.target, ContentTarget::Local { format: LocalFormat::Pdf, ref chapter_url } if chapter_url == "local-pdf:x#0"));
    let plan = plan_book_content(&request("local-txt:abc#7", Some(3), None)).unwrap();
    assert!(matches!(plan.target, ContentTarget::Local { ref chapter_url, .. } if chapter_url == "local-txt:abc#7"));
    let plan = plan_book_content(&request("https://b.test/1", Some(2), None)).unwrap();
    assert!(matches!(plan.target, ContentTarget::ByIndex { ref book_url, index: 2 } if book_url == "https://b.test/1"));
    let plan = plan_book_content(&request("https://b.test/read/1", Some(2), None)).unwrap();
    assert!(matches!(plan.target, ContentTarget::ByChapterUrl { .. }));
    let missing = plan_book_content(&BookContentRequest {
        chapter_url: None,
        book_source_url: None,
        book_source: None,
        index: None,
        refresh: None,
    });
    assert_eq!(missing.unwrap_err(), "chapterUrl required");
    assert!(chapter_index_in_range(2, 3));
    assert!(!chapter_index_in_range(3, 3));
    assert!(!chapter_index_in_range(-1, 3));
    assert_eq!(chapter_index_out_of_range_message(12), "chapter index out of range (max: 12)");
}

#[test]
fn progress_updates_record_the_chapter() {
    let req = SaveBookProgressRequest {
        url: None,
        book_url: None,
        index: Some(1),
        position: Some(40),
        search_book: Some(SearchBookRef {
            book_url: Some(" u ".to_string()),
        }),
    };
    assert_eq!(progress_target(&req), Ok(("u".to_string(), 1)));
    let no_index = SaveBookProgressRequest {
        url: Some("u".to_string()),
        book_url: None,
        index: None,
        position: None,
        search_book: None,
    };
    assert_eq!(progress_target(&no_index), Err("index required".to_string()));
    let shelf = Book {
        book_url: "u".to_string(),
        ..Book::default()
    };
    assert_eq!(progress_chapters(&shelf), ProgressChapters::NoTitles);
    let titles = Some(vec!["一".to_string(), "二".to_string(), "三".to_string()]);
    let updated = apply_reading_progress(&shelf, 1, Some(40), &titles, 1_700_000_000);
    assert_eq!(updated.dur_chapter_index, Some(1));
    assert_eq!(updated.dur_chapter_title, Some("二".to_string()));
    assert_eq!(updated.total_chapter_num, Some(3));
    assert_eq!(updated.latest_chapter_title, Some("三".to_string()));
    assert_eq!(updated.dur_chapter_pos, Some(40));
    assert_eq!(updated.dur_chapter_time, Some(1_700_000_000));
}

#[test]
fn chapter_caching_picks_a_range() {
    let req = CacheBookRequest {
        url: None,
        book_url: Some("b".to_string()),
        toc_url: None,
        count: None,
        refresh: None,
        concurrent_count: Some(0),
    };
    assert_eq!(cache_book_params(&req), Ok(("b".to_string(), false, 1)));
    let urls: Vec<String> = ["c0", "c1", "c2", "c3"].iter().map(|s| s.to_string()).collect();
    assert_eq!(chapters_to_cache(&urls, &Some("c1".to_string()), 2), (1, 3));
    assert_eq!(chapters_to_cache(&urls, &Some("zz".to_string()), 0), (0, 4));
    assert_eq!(chapters_to_cache(&urls, &None, 10), (0, 4));
    assert_eq!(delete_cache_toc_urls(&"b".to_string(), &Some("t".to_string())), vec!["b", "t"]);
    assert_eq!(delete_cache_toc_urls(&"b".to_string(), &Some("b".to_string())), vec!["b"]);
    let book = Book {
        book_url: "b".to_string(),
        toc_url: Some("t".to_string()),
        ..Book::default()
    };
    assert_eq!(shelf_cache_toc_urls(&book), vec!["t", "b"]);
}

#[test]
fn decimal_text_reads_back_as_the_same_number() {
    for v in [0i32, 7, -7, 10, -10, 2147483647, -2147483648, 1_000_000] {
        let mut out = Vec::new();
        push_signed_decimal(v as i64, &mut out);
        let text = string_of(&out);
        assert_eq!(text, v.to_string());
        assert_eq!(parse_i32(&text), Some(v));
    }
}

#[test]
fn stored_chapter_lists_answer_unless_refreshed() {
    assert!(serves_cached_chapters(false, Some(3)));
    assert!(!serves_cached_chapters(true, Some(3)));
    assert!(!serves_cached_chapters(false, Some(0)));
    assert!(!serves_cached_chapters(false, None));
}

#[test]
fn caching_runs_count_fetched_and_failed_chapters() {
    let mut p = CacheProgress::start(2, 3);
    assert!(!p.finished());
    p.record(true);
    p.record(false);
    assert!(!p.finished());
    p.record(true);
    assert!(p.finished());
    assert_eq!((p.cached(), p.success(), p.failed(), p.pending()), (4, 2, 1, 3));
    let book = Book {
        book_url: "b".to_string(),
        ..Book::default()
    };
    assert_eq!(root_toc_url(&book), "b");
    let with_toc = Book {
        toc_url: Some("t".to_string()),
        ..book
    };
    assert_eq!(root_toc_url(&with_toc), "t");
}

#[test]
fn caching_runs_fetch_the_chapters_not_stored() {
    let stored = vec![true, false, false, true, false];
    assert_eq!(chapters_to_fetch(&stored, false), vec![1, 2, 4]);
    assert_eq!(chapters_to_fetch(&stored, true), vec![0, 1, 2, 3, 4]);
    let mut p = CacheProgress::for_chapters(&stored, false);
    assert_eq!((p.cached(), p.pending()), (2, 3));
    p.record(true);
    p.record(true);
    p.record(false);
    assert!(p.finished());
    assert_eq!((p.cached(), p.success(), p.failed()), (4, 2, 1));
    let fresh = CacheProgress::for_chapters(&stored, true);
    assert_eq!((fresh.cached(), fresh.pending()), (0, 5));
}
