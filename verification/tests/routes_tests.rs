use reader_next::routes::{
    api_routes, route_entry, route_request, HttpMethod, RouteOutcome, ROUTE_COUNT,
};

const AI_BOOK_MEMORY_ROUTE: &str = "/reader3/ai/book/memory";
const AI_BOOK_CHAPTER_MEMORY_ROUTE: &str = "/reader3/ai/book/chapter-memory";
const AI_BOOK_MEMORY_RESET_ROUTE: &str = "/reader3/ai/book/memory/reset";
const AI_BOOK_ENABLED_ROUTE: &str = "/reader3/ai/book/enabled";
const AI_BOOK_CHAPTER_GENERATE_ROUTE: &str = "/reader3/ai/book/chapter-memory/generate";
const AI_BOOK_MAP_GENERATE_ROUTE: &str = "/reader3/ai/book/map/generate";
const AI_BOOK_CATCHUP_START_ROUTE: &str = "/reader3/ai/book/catchup/start";
const AI_BOOK_CATCHUP_STATUS_ROUTE: &str = "/reader3/ai/book/catchup/status";
const AI_BOOK_CATCHUP_CANCEL_ROUTE: &str = "/reader3/ai/book/catchup/cancel";

#[test]
fn ai_book_v3_routes_are_registered_without_legacy_aliases() {
    let routes = api_routes();
    for (method, path) in [
        (HttpMethod::Post, "/reader3/saveAiBookMemory"),
        (HttpMethod::Get, "/reader3/getAiBookMemory"),
        (HttpMethod::Post, "/reader3/aiBookCatchup/pause"),
    ] {
        let outcome = route_request(&routes, method, path);
        assert!(matches!(
            outcome,
            RouteOutcome::Unrouted | RouteOutcome::MethodNotAllowed
        ));
    }

    for (method, path) in [
        (HttpMethod::Get, AI_BOOK_MEMORY_ROUTE),
        (HttpMethod::Get, AI_BOOK_CHAPTER_MEMORY_ROUTE),
        (HttpMethod::Post, AI_BOOK_MEMORY_RESET_ROUTE),
        (HttpMethod::Post, AI_BOOK_ENABLED_ROUTE),
        (HttpMethod::Post, AI_BOOK_CHAPTER_GENERATE_ROUTE),
        (HttpMethod::Post, AI_BOOK_MAP_GENERATE_ROUTE),
        (HttpMethod::Post, AI_BOOK_CATCHUP_START_ROUTE),
        (HttpMethod::Get, AI_BOOK_CATCHUP_STATUS_ROUTE),
        (HttpMethod::Post, AI_BOOK_CATCHUP_CANCEL_ROUTE),
    ] {
        let outcome = route_request(&routes, method, path);
        assert_ne!(outcome, RouteOutcome::Unrouted, "{method:?} {path}");
        assert_ne!(outcome, RouteOutcome::MethodNotAllowed, "{method:?} {path}");
    }

    assert_eq!(
        route_request(&routes, HttpMethod::Post, AI_BOOK_MEMORY_ROUTE),
        RouteOutcome::MethodNotAllowed
    );
    assert_eq!(
        route_request(&routes, HttpMethod::Get, AI_BOOK_ENABLED_ROUTE),
        RouteOutcome::MethodNotAllowed
    );
}

#[test]
fn every_route_path_appears_once() {
    let routes = api_routes();
    assert_eq!(routes.len(), ROUTE_COUNT);
    for i in 0..routes.len() {
        for j in (i + 1)..routes.len() {
            assert_ne!(routes[i].path, routes[j].path);
        }
        assert_eq!(routes[i].path, route_entry(i).path);
    }
}

#[test]
fn routes_reach_the_handler_for_each_method() {
    let routes = api_routes();
    assert_eq!(
        route_request(&routes, HttpMethod::Get, "/health"),
        RouteOutcome::Handler("health")
    );
    assert_eq!(
        route_request(&routes, HttpMethod::Head, "/health"),
        RouteOutcome::Handler("health")
    );
    assert_eq!(
        route_request(&routes, HttpMethod::Post, "/reader3/searchBook"),
        RouteOutcome::Handler("search_book")
    );
    assert_eq!(
        route_request(&routes, HttpMethod::Get, "/reader3/ai/model/config"),
        RouteOutcome::Handler("get_ai_model_config")
    );
    assert_eq!(
        route_request(&routes, HttpMethod::Post, "/reader3/ai/model/config"),
        RouteOutcome::Handler("save_ai_model_config")
    );
    assert_eq!(
        route_request(&routes, HttpMethod::Other, "/reader3/bookSourceProxy"),
        RouteOutcome::Handler("book_source_proxy")
    );
    assert_eq!(
        route_request(&routes, HttpMethod::Other, "/reader3/searchBook"),
        RouteOutcome::MethodNotAllowed
    );
    assert_eq!(
        route_request(&routes, HttpMethod::Get, "/index.html"),
        RouteOutcome::Unrouted
    );
}

#[test]
fn webdav_paths_reach_the_webdav_handler() {
    let routes = api_routes();
    assert_eq!(
        route_request(&routes, HttpMethod::Other, "/reader3/webdav/books/a.txt"),
        RouteOutcome::Handler("webdav_handler")
    );
    assert_eq!(
        route_request(&routes, HttpMethod::Get, "/reader3/webdav/"),
        RouteOutcome::Unrouted
    );
}
