use reader_next::model::{Book, BookSource, SearchBook};
use reader_next::requests::SetBookSourceRequest;
use reader_next::shelf::{
    book_source_switch, books_matching_targets, memory_book_urls, merge_book, needs_book_info,
    prepare_book_for_save, prepare_books_for_save, switch_book_source,
};

fn book(url: &str, origin: &str) -> Book {
    Book {
        book_url: url.to_string(),
        origin: origin.to_string(),
        ..Book::default()
    }
}

#[test]
fn saving_needs_a_book_url_and_an_origin() {
    assert_eq!(
        prepare_book_for_save(book(" ", "o")).unwrap_err(),
        "bookUrl required"
    );
    assert_eq!(
        prepare_book_for_save(book("u", "")).unwrap_err(),
        "origin required"
    );
    assert_eq!(
        prepare_book_for_save(book("", "")).unwrap_err(),
        "bookUrl required"
    );
}

#[test]
fn saving_repairs_urls_and_normalizes_the_origin() {
    let mut b = book(" https://b.test/1 ", " https://s.test// ");
    b.toc_url = Some(" https://b.test/1/toc ".to_string());
    let saved = prepare_book_for_save(b).unwrap();
    assert_eq!(saved.book_url, "https://b.test/1");
    assert_eq!(saved.origin, "https://s.test");
    assert_eq!(saved.toc_url, Some("https://b.test/1/toc".to_string()));
}

#[test]
fn saving_many_books_stops_at_the_first_bad_one() {
    let ok = prepare_books_for_save(vec![book("a", "s/"), book("b", "t")]).unwrap();
    assert_eq!(ok.len(), 2);
    assert_eq!(ok[0].origin, "s");
    let err = prepare_books_for_save(vec![book("a", "s"), book("b", " "), book("", "t")]);
    assert_eq!(err.unwrap_err(), "origin required");
    assert_eq!(prepare_books_for_save(Vec::new()).unwrap().len(), 0);
}

#[test]
fn details_are_read_when_the_toc_or_name_is_missing() {
    let mut b = book("u", "o");
    b.name = "书".to_string();
    assert!(needs_book_info(&b));
    b.toc_url = Some("t".to_string());
    assert!(!needs_book_info(&b));
    b.name = "  ".to_string();
    assert!(needs_book_info(&b));
}

#[test]
fn a_source_switch_needs_all_three_urls() {
    let req = SetBookSourceRequest {
        book_url: Some("old".to_string()),
        new_url: Some("new".to_string()),
        book_source_url: Some("src".to_string()),
    };
    let s = book_source_switch(&req).unwrap();
    assert_eq!(s.old_book_url, "old");
    assert_eq!(s.new_book_url, "new");
    assert_eq!(s.new_source_url, "src");
    let req = SetBookSourceRequest {
        book_url: Some(" ".to_string()),
        ..SetBookSourceRequest::default()
    };
    assert_eq!(book_source_switch(&req).unwrap_err(), "bookUrl required");
    let req = SetBookSourceRequest {
        book_url: Some("old".to_string()),
        ..SetBookSourceRequest::default()
    };
    assert_eq!(book_source_switch(&req).unwrap_err(), "newUrl required");
    let req = SetBookSourceRequest {
        book_url: Some("old".to_string()),
        new_url: Some("new".to_string()),
        book_source_url: None,
    };
    assert_eq!(book_source_switch(&req).unwrap_err(), "bookSourceUrl required");
}

#[test]
fn a_switched_book_takes_the_stored_candidate_details() {
    let mut shelf = book("old", "s1");
    shelf.name = "旧名".to_string();
    shelf.author = "作者".to_string();
    shelf.toc_url = Some("old-toc".to_string());
    shelf.intro = Some("旧简介".to_string());
    shelf.dur_chapter_index = Some(12);
    let source = BookSource {
        book_source_url: "s2".to_string(),
        book_source_name: "源二".to_string(),
        ..BookSource::default()
    };
    let candidates = Some(vec![
        SearchBook {
            book_url: "other".to_string(),
            name: "别的".to_string(),
            ..SearchBook::default()
        },
        SearchBook {
            book_url: "new".to_string(),
            name: "新名".to_string(),
            author: " ".to_string(),
            cover_url: Some("c.jpg".to_string()),
            last_chapter: Some("第十章".to_string()),
            ..SearchBook::default()
        },
    ]);
    let moved = switch_book_source(&shelf, &"new".to_string(), &source, &candidates);
    assert_eq!(moved.book_url, "new");
    assert_eq!(moved.origin, "s2");
    assert_eq!(moved.origin_name, Some("源二".to_string()));
    assert_eq!(moved.toc_url, None);
    assert_eq!(moved.name, "新名");
    assert_eq!(moved.author, "作者");
    assert_eq!(moved.cover_url, Some("c.jpg".to_string()));
    assert_eq!(moved.intro, Some("旧简介".to_string()));
    assert_eq!(moved.latest_chapter_title, Some("第十章".to_string()));
    assert_eq!(moved.dur_chapter_index, Some(12));
    let plain = switch_book_source(&shelf, &"new".to_string(), &source, &None);
    assert_eq!(plain.name, "旧名");
}

#[test]
fn deletions_remove_the_matching_shelf_books() {
    let mut a = book("https://b.test/1", "s");
    a.name = "A".to_string();
    a.author = "B".to_string();
    let c = book("https://b.test/2", "s");
    let mut txt = book("local-txt:x", "local-txt");
    txt.name = "A".to_string();
    txt.author = "B".to_string();
    let shelf = vec![a, c, txt];
    let mut by_name = Book::default();
    by_name.name = "A".to_string();
    by_name.author = "B".to_string();
    let removed = books_matching_targets(&shelf, &[by_name]);
    let urls: Vec<&str> = removed.iter().map(|b| b.book_url.as_str()).collect();
    assert_eq!(urls, vec!["https://b.test/1"]);
    let removed = books_matching_targets(&shelf, &[book("local-txt:x", "")]);
    assert_eq!(removed.len(), 1);
    assert_eq!(books_matching_targets(&shelf, &[]).len(), 0);
}

#[test]
fn reading_memories_are_dropped_for_non_blank_urls() {
    let urls = memory_book_urls(&[book("a", "s"), book("  ", "s"), book("b", "s")]);
    assert_eq!(urls, vec!["a".to_string(), "b".to_string()]);
}

#[test]
fn filling_in_details_twice_changes_nothing_more() {
    let mut target = book("u", "o");
    target.name = " ".to_string();
    target.cover_url = Some("mine.jpg".to_string());
    let mut info = book("x", "y");
    info.name = "书名".to_string();
    info.cover_url = Some("theirs.jpg".to_string());
    info.intro = Some("简介".to_string());
    let mut once = target.copy();
    merge_book(&mut once, info.copy());
    assert_eq!(once.name, "书名");
    assert_eq!(once.cover_url, Some("mine.jpg".to_string()));
    assert_eq!(once.intro, Some("简介".to_string()));
    assert_eq!(once.book_url, "u");
    let mut twice = once.copy();
    merge_book(&mut twice, info);
    assert_eq!(twice.name, once.name);
    assert_eq!(twice.author, once.author);
    assert_eq!(twice.cover_url, once.cover_url);
    assert_eq!(twice.intro, once.intro);
    assert_eq!(twice.toc_url, once.toc_url);
    assert_eq!(twice.book_url, once.book_url);
}
