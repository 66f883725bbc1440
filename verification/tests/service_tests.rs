use reader_next::debug::{debug_keyword, debug_source, found_items_message};
use reader_next::events::{json_end, json_err, json_msg};
use reader_next::model::{BookSource, SearchBook, SearchRule};
use reader_next::local::{is_upload_field, upload_file_name, LocalFormat};
use reader_next::query::{
    cover_path, explore_query, gather_hits, has_search_key, search_query, shelf_book_url,
    sources_in_group,
};
use reader_next::requests::{BookSourceDebugRequest, CoverQuery, GetShelfBookRequest};
use reader_next::subscription::subscription_url;

fn grouped(url: &str, group: Option<&str>) -> BookSource {
    BookSource {
        book_source_url: url.to_string(),
        book_source_group: group.map(|g| g.to_string()),
        ..BookSource::default()
    }
}

#[test]
fn event_texts_are_compact_json() {
    assert_eq!(json_err("未配置书源"), r#"{"errorMsg":"未配置书源"}"#);
    assert_eq!(json_msg("start search"), r#"{"msg":"start search"}"#);
    assert_eq!(json_end(-1), r#"{"lastIndex":-1}"#);
    assert_eq!(json_end(42), r#"{"lastIndex":42}"#);
}

#[test]
fn event_texts_escape_quotes_and_control_characters() {
    assert_eq!(json_err("a\"b\nc"), "{\"errorMsg\":\"a\\\"b\\nc\"}");
    let v: serde_json::Value = serde_json::from_str(&json_msg("x\\y")).unwrap();
    assert_eq!(v["msg"], "x\\y");
}

#[test]
fn every_escape_of_an_event_text() {
    assert_eq!(
        json_msg("\u{8}\t\n\u{c}\r\u{0}\u{1f}\u{1b}\\\"/\u{7f}é"),
        "{\"msg\":\"\\b\\t\\n\\f\\r\\u0000\\u001f\\u001b\\\\\\\"/\u{7f}é\"}"
    );
    assert_eq!(json_msg(""), "{\"msg\":\"\"}");
}

#[test]
fn debug_search_needs_a_source() {
    let req = BookSourceDebugRequest {
        book_source_url: Some(" ".to_string()),
        keyword: None,
    };
    assert_eq!(debug_source(&req), Err("未配置书源".to_string()));
    let req = BookSourceDebugRequest {
        book_source_url: None,
        keyword: None,
    };
    assert_eq!(debug_source(&req), Err("未配置书源".to_string()));
    let req = BookSourceDebugRequest {
        book_source_url: Some("https://s.test".to_string()),
        keyword: None,
    };
    assert_eq!(debug_source(&req), Ok("https://s.test".to_string()));
}

#[test]
fn debug_search_falls_back_to_the_source_check_keyword() {
    let source = BookSource {
        rule_search: Some(SearchRule {
            check_key_word: Some("我的".to_string()),
        }),
        ..BookSource::default()
    };
    assert_eq!(debug_keyword(&None, &source), Ok("我的".to_string()));
    assert_eq!(
        debug_keyword(&Some(" ".to_string()), &source),
        Ok("我的".to_string())
    );
    assert_eq!(
        debug_keyword(&Some("仙".to_string()), &source),
        Ok("仙".to_string())
    );
    assert_eq!(
        debug_keyword(&None, &BookSource::default()),
        Err("请输入搜索关键词".to_string())
    );
    assert_eq!(found_items_message(0), "found 0 items");
    assert_eq!(found_items_message(135), "found 135 items");
}

#[test]
fn search_and_explore_queries_need_their_text() {
    let q = search_query(&Some("仙".to_string()), None).unwrap();
    assert_eq!(q.text, "仙");
    assert_eq!(q.page, 1);
    assert_eq!(search_query(&None, Some(2)).unwrap_err(), "key required");
    let e = explore_query(&Some("/rank".to_string()), Some(3)).unwrap();
    assert_eq!(e.text, "/rank");
    assert_eq!(e.page, 3);
    assert_eq!(explore_query(&None, None).unwrap_err(), "ruleFindUrl required");
    assert!(has_search_key(" 仙 "));
    assert!(!has_search_key(" \t"));
}

#[test]
fn sources_of_a_group_contain_its_name() {
    let sources = vec![
        grouped("a", Some("精品,男频")),
        grouped("b", None),
        grouped("c", Some("女频")),
        grouped("d", Some("男频")),
    ];
    let kept = sources_in_group(sources, "男频");
    let urls: Vec<&str> = kept.iter().map(|s| s.book_source_url.as_str()).collect();
    assert_eq!(urls, vec!["a", "d"]);
    let all = sources_in_group(vec![grouped("a", None), grouped("b", Some("x"))], "");
    assert_eq!(all.len(), 2);
}

#[test]
fn gathered_hits_follow_source_order_and_skip_failures() {
    let a = SearchBook {
        name: "a".to_string(),
        ..SearchBook::default()
    };
    let b = SearchBook {
        name: "b".to_string(),
        ..SearchBook::default()
    };
    let c = SearchBook {
        name: "c".to_string(),
        ..SearchBook::default()
    };
    let hits = gather_hits(vec![Some(vec![a, b]), None, Some(vec![]), Some(vec![c])]);
    let names: Vec<&str> = hits.iter().map(|b| b.name.as_str()).collect();
    assert_eq!(names, vec!["a", "b", "c"]);
}

#[test]
fn subscription_urls_are_trimmed_and_required() {
    assert_eq!(
        subscription_url("  https://r.test/s.json \n"),
        Ok("https://r.test/s.json".to_string())
    );
    assert_eq!(subscription_url("   "), Err("url is required".to_string()));
    assert_eq!(subscription_url(""), Err("url is required".to_string()));
}

#[test]
fn uploads_take_the_file_field_and_a_default_name() {
    assert!(is_upload_field(Some("file")));
    assert!(!is_upload_field(Some("files")));
    assert!(!is_upload_field(None));
    assert_eq!(upload_file_name(LocalFormat::Epub, None), "book.epub");
    assert_eq!(upload_file_name(LocalFormat::Mobi, None), "book.mobi");
    assert_eq!(upload_file_name(LocalFormat::Txt, Some("我的.txt")), "我的.txt");
}

#[test]
fn shelf_lookups_and_covers_need_their_parameter() {
    assert_eq!(
        shelf_book_url(&GetShelfBookRequest { url: Some(" u ".to_string()) }),
        Ok("u".to_string())
    );
    assert_eq!(
        shelf_book_url(&GetShelfBookRequest { url: None }),
        Err("url required".to_string())
    );
    assert_eq!(cover_path(&CoverQuery { path: Some(" ".to_string()) }), None);
    assert_eq!(cover_path(&CoverQuery { path: None }), None);
    assert_eq!(
        cover_path(&CoverQuery { path: Some("a.jpg".to_string()) }),
        Some("a.jpg".to_string())
    );
}
