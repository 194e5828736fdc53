use rustserve::filter::{end, get, header, param, path, Context, Filter, FilterExt};
use rustserve::method::Method;
use rustserve::request::{Request, RequestHandler};
use rustserve::response::Response;

fn mock_req(method: Method, path: &str) -> Request {
    Request::new(method, path, Vec::new(), None)
}

const NOT_FOUND_HEAD: &str = "HTTP/1.1 404 Not Found\r\nContent-Length: 0\r\n\r\n";

#[test]
fn hello_route_serves_and_falls_back() {
    let filter = get("/hello").map(|_| Response::ok(b"hi".to_vec()));

    let req = mock_req(Method::Get, "/hello");
    let resp = filter.handle(&req);
    assert_eq!(resp.head_string(), "HTTP/1.1 200 OK\r\nContent-Length: 2\r\n\r\n");

    let req = mock_req(Method::Get, "/world");
    let resp = filter.handle(&req);
    assert_eq!(resp.head_string(), NOT_FOUND_HEAD);

    let req = mock_req(Method::Post, "/hello");
    let resp = filter.handle(&req);
    assert_eq!(resp.head_string(), NOT_FOUND_HEAD);
}

#[test]
fn param_route_extracts_and_gates_partial_matches() {
    let filter = get("/users").and(param::<String>());

    let req = mock_req(Method::Get, "/users/alice");
    let mut ctx = Context::new(&req);
    assert_eq!(filter.filter(&mut ctx), Some(("alice".to_string(),)));
    assert!(ctx.is_path_matched());

    let handler = get("/users").and(param::<String>()).map(|(name,)| (200u16, name));

    let req = mock_req(Method::Get, "/users");
    let resp = handler.handle(&req);
    assert_eq!(resp.head_string(), NOT_FOUND_HEAD);

    // without End, a longer path matches the prefix but the adapter rejects
    // the leftover segment
    let req = mock_req(Method::Get, "/users/alice/x");
    let resp = handler.handle(&req);
    assert_eq!(resp.head_string(), NOT_FOUND_HEAD);
}

#[test]
fn literal_path_with_end_needs_the_whole_path() {
    let filter = path("a/b/c").and(end());

    let req = mock_req(Method::Get, "/a/b/c");
    let mut ctx = Context::new(&req);
    assert_eq!(filter.filter(&mut ctx), Some(()));
    assert!(ctx.is_path_matched());

    let handler = path("a/b/c").and(end()).map(|_| (200u16, "ok"));
    let req = mock_req(Method::Get, "/a/b");
    assert_eq!(handler.handle(&req).head_string(), NOT_FOUND_HEAD);

    let req = mock_req(Method::Get, "/a/b/c/d");
    assert_eq!(handler.handle(&req).head_string(), NOT_FOUND_HEAD);
}

#[test]
fn maybe_header_surfaces_optional_value() {
    let filter = get("/hello").maybe(header("user-agent")).map(|(ua,)| ua);

    let headers = vec![("User-Agent".to_string(), "curl/8".to_string())];
    let req = Request::new(Method::Get, "/hello", headers, None);
    let mut ctx = Context::new(&req);
    assert_eq!(filter.filter(&mut ctx), Some(Some("curl/8".to_string())));

    let req = mock_req(Method::Get, "/hello");
    let mut ctx = Context::new(&req);
    assert_eq!(filter.filter(&mut ctx), Some(None));
}

#[test]
fn failed_literal_deep_in_or_restores_the_cursor() {
    // the first branch consumes "api" and "a", fails on "b", and must give
    // both segments back before the second branch runs
    let handler = path("api/a/b")
        .map(|_| (200u16, "deep"))
        .or(path("api/a").map(|_| (200u16, "shallow")));

    let req = mock_req(Method::Get, "/api/a");
    let resp = handler.handle(&req);
    assert_eq!(
        resp.head_string(),
        "HTTP/1.1 200 OK\r\nContent-Length: 7\r\n\r\n"
    );

    let req = mock_req(Method::Get, "/api/a/b");
    let resp = handler.handle(&req);
    assert_eq!(resp.head_string(), "HTTP/1.1 200 OK\r\nContent-Length: 4\r\n\r\n");
}

#[test]
fn three_primitives_flatten_to_a_triple() {
    let filter = path("pair")
        .and(param::<String>())
        .and(param::<String>())
        .and(header("x-tag"));
    let headers = vec![("X-Tag".to_string(), "t1".to_string())];
    let req = Request::new(Method::Get, "/pair/left/right", headers, None);
    let mut ctx = Context::new(&req);
    assert_eq!(
        filter.filter(&mut ctx),
        Some(("left".to_string(), "right".to_string(), "t1".to_string()))
    );
    assert!(ctx.is_path_matched());
}

#[test]
fn empty_path_matches_empty_literal() {
    let filter = get("/").and(end());
    let req = mock_req(Method::Get, "/");
    let mut ctx = Context::new(&req);
    assert_eq!(filter.filter(&mut ctx), Some(()));
    assert!(ctx.is_path_matched());

    let req = mock_req(Method::Get, "/something");
    let mut ctx = Context::new(&req);
    assert_eq!(filter.filter(&mut ctx), None);
}

#[test]
fn plain_strings_convert_to_ok_responses() {
    let filter = get("/hello").map(|_| "Hello from rustserve main!");
    let req = mock_req(Method::Get, "/hello");
    let resp = filter.handle(&req);
    assert_eq!(
        resp.head_string(),
        "HTTP/1.1 200 OK\r\nContent-Length: 26\r\n\r\n"
    );
}

#[test]
fn cursor_unchanged_after_failed_match() {
    let filter = path("a/b");
    let req = mock_req(Method::Get, "/a/c");
    let mut ctx = Context::new(&req);
    assert!(filter.filter(&mut ctx).is_none());
    // the cursor is back at the start: a following filter still sees "a"
    let second = path("a/c");
    assert!(second.filter(&mut ctx).is_some());
    assert!(ctx.is_path_matched());
}
