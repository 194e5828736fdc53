use rustserve::html::{encode_path, error_html, generate_breadcrumb, get_file_icon, html_escape, json_escape};
use rustserve::method::Method;
use rustserve::request::{content_length, parse_header_line, parse_request_line, ParseError, Request};
use rustserve::response::Response;
use rustserve::router::{Router, RouteHandler};
use rustserve::server::ServerConfig;
use rustserve::stats::Stats;
use rustserve::text::truncate_string;

#[test]
fn request_normalizes_paths() {
    let req = Request::new(Method::Get, "/", Vec::new(), None);
    assert!(req.path_segments().is_empty());
    assert_eq!(req.path(), "");

    let req = Request::new(Method::Get, "/a//b/", Vec::new(), None);
    assert_eq!(req.path_segments(), &vec!["a".to_string(), "b".to_string()]);
    assert_eq!(req.path(), "a/b");
    assert_eq!(req.path_segment(0), Some("a"));
    assert_eq!(req.path_segment(1), Some("b"));
    assert_eq!(req.path_segment(2), None);
}

#[test]
fn request_headers_are_case_insensitive_and_first_wins() {
    let headers = vec![
        ("X-Api-Key".to_string(), "first".to_string()),
        ("x-api-key".to_string(), "second".to_string()),
    ];
    let req = Request::new(Method::Get, "/", headers, None);
    assert_eq!(req.header("X-API-KEY"), Some("first"));
    assert_eq!(req.header("x-api-key"), Some("first"));
    assert_eq!(req.header("missing"), None);
}

#[test]
fn request_body_is_kept() {
    let req = Request::new(Method::Post, "/x", Vec::new(), Some(vec![1u8, 2, 3]));
    assert_eq!(req.body(), Some(&[1u8, 2, 3][..]));
    assert_eq!(req.method(), &Method::Post);
    let req = Request::new(Method::Get, "/x", Vec::new(), None);
    assert_eq!(req.body(), None);
}

#[test]
fn request_line_parses_method_and_path() {
    let (m, p) = parse_request_line("GET /index.html HTTP/1.1").unwrap();
    assert_eq!(m, Method::Get);
    assert_eq!(p, "/index.html");

    assert_eq!(parse_request_line("GET"), Err(ParseError::MalformedRequest));
    assert_eq!(parse_request_line(""), Err(ParseError::MalformedRequest));
    assert_eq!(
        parse_request_line("FROB /x HTTP/1.1"),
        Err(ParseError::UnrecognizedMethod)
    );
}

#[test]
fn header_lines_are_split_and_trimmed() {
    assert_eq!(
        parse_header_line("Content-Type:  text/html "),
        Some(("content-type".to_string(), "text/html".to_string()))
    );
    assert_eq!(
        parse_header_line("X-Extra: a:b"),
        Some(("x-extra".to_string(), "a:b".to_string()))
    );
    assert_eq!(parse_header_line("no colon here"), None);
}

#[test]
fn content_length_is_read_from_the_headers() {
    let req = Request::new(
        Method::Post,
        "/upload",
        vec![("Content-Length".to_string(), "10".to_string())],
        None,
    );
    assert_eq!(content_length(&req), Ok(Some(10)));

    let req = Request::new(Method::Post, "/upload", Vec::new(), None);
    assert_eq!(content_length(&req), Ok(None));

    let req = Request::new(
        Method::Post,
        "/upload",
        vec![("Content-Length".to_string(), "abc".to_string())],
        None,
    );
    assert_eq!(content_length(&req), Err(ParseError::InvalidContentLength));
}

#[test]
fn methods_parse_ignoring_case() {
    assert_eq!(Method::parse("get").unwrap(), Method::Get);
    assert_eq!(Method::parse("Post").unwrap(), Method::Post);
    assert_eq!(Method::parse("OPTIONS").unwrap(), Method::Options);
    let err = Method::parse("FROB").unwrap_err();
    assert_eq!(err.token, "FROB");
    assert_eq!(err.message(), "unrecognized HTTP method: FROB");
    assert_eq!(Method::Delete.as_str(), "DELETE");
}

#[test]
fn parse_error_messages() {
    assert_eq!(ParseError::IoError.message(), "I/O error");
    assert_eq!(ParseError::MalformedRequest.message(), "malformed request");
    assert_eq!(ParseError::UnrecognizedMethod.message(), "unrecognized method");
    assert_eq!(
        ParseError::InvalidContentLength.message(),
        "invalid content-length"
    );
}

#[test]
fn response_builder_sets_status_and_headers() {
    let resp = Response::new(204);
    assert_eq!(resp.status_text(), "No Content");
    assert_eq!(
        resp.head_string(),
        "HTTP/1.1 204 No Content\r\nContent-Length: 0\r\n\r\n"
    );

    let resp = Response::new(418);
    assert_eq!(resp.status_text(), "Unknown");

    let resp = Response::json("{}");
    assert_eq!(
        resp.head_string(),
        "HTTP/1.1 200 OK\r\nContent-Type: application/json\r\nContent-Length: 2\r\n\r\n"
    );

    let resp = Response::html("<p>hi</p>");
    assert_eq!(
        resp.head_string(),
        "HTTP/1.1 200 OK\r\nContent-Type: text/html; charset=utf-8\r\nContent-Length: 9\r\n\r\n"
    );
}

#[test]
fn response_header_replaces_same_name() {
    let resp = Response::new(200)
        .header("X-Tag", "one")
        .header("X-Other", "keep")
        .header("X-Tag", "two");
    assert_eq!(
        resp.head_string(),
        "HTTP/1.1 200 OK\r\nX-Tag: two\r\nX-Other: keep\r\nContent-Length: 0\r\n\r\n"
    );
}

#[test]
fn explicit_content_length_is_not_duplicated() {
    let resp = Response::new(200)
        .header("Content-Length", "99")
        .body(vec![1, 2, 3]);
    assert_eq!(
        resp.head_string(),
        "HTTP/1.1 200 OK\r\nContent-Length: 99\r\n\r\n"
    );
}

#[test]
fn response_shortcuts_carry_their_codes() {
    assert_eq!(Response::created().status_text(), "Created");
    assert_eq!(Response::no_content().status_text(), "No Content");
    assert_eq!(Response::bad_request().status_text(), "Bad Request");
    assert_eq!(Response::not_found().status_text(), "Not Found");
    assert_eq!(Response::internal_error().status_text(), "Internal Server Error");
    assert_eq!(
        Response::ok(b"abc".to_vec()).head_string(),
        "HTTP/1.1 200 OK\r\nContent-Length: 3\r\n\r\n"
    );
}

#[test]
fn stats_count_and_format() {
    let mut stats = Stats::new();
    stats.connection_opened();
    stats.connection_opened();
    stats.connection_closed();
    stats.request_served();
    stats.bytes_sent(2048);
    stats.file_downloaded();
    assert_eq!(stats.get_active_connections(), 1);
    assert_eq!(stats.get_total_requests(), 1);
    assert_eq!(stats.get_total_bytes_sent(), 2048);
    assert_eq!(stats.get_files_downloaded(), 1);

    let mut stats = Stats::new();
    stats.connection_closed();
    assert_eq!(stats.get_active_connections(), u64::MAX);
    stats.connection_opened();
    assert_eq!(stats.get_active_connections(), 0);
}

#[test]
fn byte_counts_format_with_binary_units() {
    assert_eq!(Stats::format_bytes(0), "0 B");
    assert_eq!(Stats::format_bytes(512), "512 B");
    assert_eq!(Stats::format_bytes(1024), "1.00 KB");
    assert_eq!(Stats::format_bytes(1536), "1.50 KB");
    assert_eq!(Stats::format_bytes(1075), "1.05 KB");
    assert_eq!(Stats::format_bytes(3 * 1024 * 1024 / 2), "1.50 MB");
    assert_eq!(Stats::format_bytes(5 * 1024 * 1024 * 1024), "5.00 GB");
}

#[test]
fn truncation_keeps_short_strings() {
    assert_eq!(truncate_string("short", 10), "short");
    assert_eq!(truncate_string("hello world", 8), "hello...");
}

#[test]
fn escaping_rewrites_special_characters() {
    assert_eq!(
        html_escape("<a href=\"x\">&</a>"),
        "&lt;a href=&quot;x&quot;&gt;&amp;&lt;/a&gt;"
    );
    assert_eq!(json_escape("a\"b\\c\nd\te\r"), "a\\\"b\\\\c\\nd\\te\\r");
    assert_eq!(encode_path("a b#c?d%e"), "a%20b%23c%3Fd%25e");
}

#[test]
fn file_icons_follow_the_extension() {
    assert_eq!(get_file_icon("photo.JPG"), "\u{1f5bc}\u{fe0f}");
    assert_eq!(get_file_icon("archive.tar.gz"), "\u{1f4e6}");
    assert_eq!(get_file_icon("main.rs"), "\u{1f4bb}");
    assert_eq!(get_file_icon("README"), "\u{1f4c4}");
}

#[test]
fn breadcrumbs_accumulate_the_path() {
    assert_eq!(generate_breadcrumb(""), "<a href=\"/\">\u{1f4c2} Home</a>");
    assert_eq!(
        generate_breadcrumb("a/b"),
        "<a href=\"/\">\u{1f4c2} Home</a> <span>/</span> <a href=\"/browse/a\">a</a> <span>/</span> <a href=\"/browse/a/b\">b</a>"
    );
}

#[test]
fn error_page_escapes_the_message() {
    let page = error_html("<oops>");
    assert!(page.contains("&lt;oops&gt;"));
    assert!(!page.contains("<oops>"));
}

#[test]
fn router_dispatches_first_matching_route() {
    let router = Router::new()
        .get("hello", |_req: &Request| Response::ok(b"hi".to_vec()))
        .post("submit", |_req: &Request| (201u16, "made"));

    let req = Request::new(Method::Get, "/hello", Vec::new(), None);
    assert_eq!(
        router.handle(&req).head_string(),
        "HTTP/1.1 200 OK\r\nContent-Length: 2\r\n\r\n"
    );

    let req = Request::new(Method::Post, "/submit", Vec::new(), None);
    assert_eq!(
        router.handle(&req).head_string(),
        "HTTP/1.1 201 Created\r\nContent-Length: 4\r\n\r\n"
    );

    let req = Request::new(Method::Get, "/missing", Vec::new(), None);
    assert_eq!(
        router.handle(&req).head_string(),
        "HTTP/1.1 404 Not Found\r\nContent-Length: 0\r\n\r\n"
    );
}

#[test]
fn nested_router_folds_its_prefix_into_paths() {
    let api = Router::prefix("api/").get("status", |_req: &Request| (200u16, "up"));
    let router = Router::new().nested(api);

    let req = Request::new(Method::Get, "/api/status", Vec::new(), None);
    assert_eq!(
        router.handle(&req).head_string(),
        "HTTP/1.1 200 OK\r\nContent-Length: 2\r\n\r\n"
    );
}

#[test]
fn route_handler_reports_match_or_not() {
    let router = Router::new().get("x", |_req: &Request| (200u16, "x"));
    let req = Request::new(Method::Get, "/y", Vec::new(), None);
    assert!(RouteHandler::handle(&router, "", &req).is_none());
    let req = Request::new(Method::Get, "/x", Vec::new(), None);
    assert!(RouteHandler::handle(&router, "", &req).is_some());
}

#[test]
fn server_config_builder() {
    let config = ServerConfig::new("0.0.0.0", 9000).threads(20);
    assert_eq!(config.address, "0.0.0.0");
    assert_eq!(config.port, 9000);
    assert_eq!(config.thread_count, 20);

    let config = ServerConfig::default();
    assert_eq!(config.address, "127.0.0.1");
    assert_eq!(config.port, 8080);
    assert_eq!(config.thread_count, 4);
}
