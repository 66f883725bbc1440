use reader_next::model::{Book, BookSource};
use reader_next::resolve::{
    find_source_by_key, find_source_on_host, hosts_of_sources, local_txt_book_source,
    wants_local_txt_source, ResolveStep, SourceResolver,
};

fn source(url: &str, name: &str) -> BookSource {
    BookSource {
        book_source_url: url.to_string(),
        book_source_name: name.to_string(),
        ..BookSource::default()
    }
}

fn used_name(step: &ResolveStep) -> Option<String> {
    match step {
        ResolveStep::Use(s) => Some(s.book_source_name.clone()),
        _ => None,
    }
}

#[test]
fn a_given_source_is_used_as_it_is() {
    let (_, step) = SourceResolver::start(Some(source("x", "given")), Some("y".to_string()), None);
    assert_eq!(used_name(&step), Some("given".to_string()));
}

#[test]
fn uploaded_txt_books_use_the_local_source() {
    assert!(wants_local_txt_source(&Some("local-txt".to_string()), &None));
    assert!(wants_local_txt_source(&None, &Some("local-txt:abc".to_string())));
    assert!(!wants_local_txt_source(&Some("local-epub".to_string()), &None));
    let (_, step) = SourceResolver::start(None, None, Some("local-txt:abc".to_string()));
    match step {
        ResolveStep::Use(s) => {
            assert_eq!(s.book_source_name, "本地 TXT");
            assert_eq!(s.book_source_url, "local-txt");
        }
        other => panic!("unexpected step {other:?}"),
    }
    let local = local_txt_book_source();
    assert_eq!(local.book_source_url, "local-txt");
}

#[test]
fn a_source_url_is_looked_up_then_searched_in_the_list() {
    let (mut r, step) =
        SourceResolver::start(None, Some(" https://s.test/ ".to_string()), None);
    match step {
        ResolveStep::Get(k) => assert_eq!(k, "https://s.test"),
        other => panic!("unexpected step {other:?}"),
    }
    assert!(matches!(r.source_found(None), ResolveStep::List));
    let step = r.sources_listed(vec![
        source("https://a.test", "a"),
        source("https://s.test//", "s"),
        source("https://s.test", "s2"),
    ]);
    assert_eq!(used_name(&step), Some("s".to_string()));
}

#[test]
fn an_unknown_source_url_is_not_found() {
    let (mut r, _) = SourceResolver::start(None, Some("https://s.test".to_string()), None);
    assert!(matches!(r.source_found(None), ResolveStep::List));
    assert!(matches!(
        r.sources_listed(vec![source("https://a.test", "a")]),
        ResolveStep::NotFound
    ));
}

#[test]
fn the_shelf_book_origin_names_the_source() {
    let (mut r, step) = SourceResolver::start(
        None,
        Some("  ".to_string()),
        Some("https://m.22biqu.com/biqu1/".to_string()),
    );
    match step {
        ResolveStep::GetShelfBook(u) => assert_eq!(u, "https://m.22biqu.com/biqu1/"),
        other => panic!("unexpected step {other:?}"),
    }
    let shelf = Book {
        origin: "https://src.test/".to_string(),
        ..Book::default()
    };
    match r.shelf_book_found(Some(shelf)) {
        ResolveStep::Get(k) => assert_eq!(k, "https://src.test"),
        other => panic!("unexpected step {other:?}"),
    }
    let step = r.source_found(Some(source("https://src.test", "found")));
    assert_eq!(used_name(&step), Some("found".to_string()));
}

#[test]
fn without_a_shelf_book_the_source_is_found_by_host() {
    let (mut r, _) =
        SourceResolver::start(None, None, Some("https://m.22biqu.com/biqu1/".to_string()));
    assert!(matches!(r.shelf_book_found(None), ResolveStep::List));
    let step = r.sources_listed(vec![
        source("https://other.test", "other"),
        source("https://www.22biqu.net/", "biqu"),
    ]);
    assert_eq!(used_name(&step), Some("biqu".to_string()));
}

#[test]
fn discovery_fails_without_a_matching_host() {
    let (mut r, _) = SourceResolver::start(None, None, Some("https://a.example/b".to_string()));
    assert!(matches!(r.shelf_book_found(None), ResolveStep::List));
    assert!(matches!(
        r.sources_listed(vec![source("https://other.test", "other")]),
        ResolveStep::Unresolved
    ));
    let (mut r, _) = SourceResolver::start(None, None, Some("not a url".to_string()));
    assert!(matches!(r.shelf_book_found(None), ResolveStep::Unresolved));
    let (_, step) = SourceResolver::start(None, None, None);
    assert!(matches!(step, ResolveStep::Unresolved));
}

#[test]
fn source_lookups_go_by_normalized_url_and_host() {
    let sources = vec![source("https://a.test/", "a"), source("https://b.test", "b")];
    assert_eq!(find_source_by_key(&sources, "https://a.test"), Some(0));
    assert_eq!(find_source_by_key(&sources, "https://c.test"), None);
    let hosts = hosts_of_sources(&sources);
    assert_eq!(hosts, vec![Some("a.test".to_string()), Some("b.test".to_string())]);
    assert_eq!(find_source_on_host("www.b.test", &hosts), Some(1));
    assert_eq!(find_source_on_host("x.org", &hosts), None);
}
