use rustserve::filter::{end, get, header, param, path, Context, Either, Filter, FilterExt};
use rustserve::method::Method;
use rustserve::request::Request;

fn mock_req(method: Method, path: &str) -> Request {
    Request::new(method, path, Vec::new(), None)
}

#[test]
fn test_path_filter() {
    let filter = path("hello/world");
    let req = mock_req(Method::Get, "/hello/world");
    let mut ctx = Context::new(&req);
    assert!(filter.filter(&mut ctx).is_some());
    assert!(ctx.is_path_matched());

    let req = mock_req(Method::Get, "/hello/other");
    let mut ctx = Context::new(&req);
    assert!(filter.filter(&mut ctx).is_none());
}

#[test]
fn test_method_filter() {
    let filter = get("test");
    let req = mock_req(Method::Get, "/test");
    let mut ctx = Context::new(&req);
    assert!(filter.filter(&mut ctx).is_some());

    let req = mock_req(Method::Post, "/test");
    let mut ctx = Context::new(&req);
    assert!(filter.filter(&mut ctx).is_none());
}

#[test]
fn test_param_filter() {
    let filter = path("user").and(param::<String>());
    let req = mock_req(Method::Get, "/user/alice");
    let mut ctx = Context::new(&req);
    let res = filter.filter(&mut ctx);
    assert_eq!(res, Some(("alice".to_string(),)));
    assert!(ctx.is_path_matched());
}

#[test]
fn test_header_filter() {
    let filter = header("x-api-key");
    let headers = vec![("X-API-Key".to_string(), "secret".to_string())];
    let req = Request::new(Method::Get, "/", headers, None);
    let mut ctx = Context::new(&req);
    assert_eq!(filter.filter(&mut ctx), Some(("secret".to_string(),)));
}

#[test]
fn test_and_filter() {
    let filter = get("hello").and(header("user-agent"));
    let headers = vec![("User-Agent".to_string(), "rust-test".to_string())];
    let req = Request::new(Method::Get, "/hello", headers, None);
    let mut ctx = Context::new(&req);
    assert_eq!(filter.filter(&mut ctx), Some(("rust-test".to_string(),)));
}

#[test]
fn test_or_filter() {
    let filter = path("a").or(path("b"));

    let req = mock_req(Method::Get, "/a");
    let mut ctx = Context::new(&req);
    assert!(filter.filter(&mut ctx).is_some());

    let req = mock_req(Method::Get, "/b");
    let mut ctx = Context::new(&req);
    assert!(filter.filter(&mut ctx).is_some());

    let req = mock_req(Method::Get, "/c");
    let mut ctx = Context::new(&req);
    assert!(filter.filter(&mut ctx).is_none());
}

#[test]
fn test_map_filter() {
    let filter = path("val").and(param::<String>()).map(|(s,)| s.len());
    let req = mock_req(Method::Get, "/val/hello");
    let mut ctx = Context::new(&req);
    assert_eq!(filter.filter(&mut ctx), Some(5));
}

#[test]
fn test_maybe_filter() {
    let filter = path("test").maybe(param::<String>());

    let req = mock_req(Method::Get, "/test/val");
    let mut ctx = Context::new(&req);
    assert_eq!(filter.filter(&mut ctx), Some((Some("val".to_string()),)));

    let req = mock_req(Method::Get, "/test");
    let mut ctx = Context::new(&req);
    assert_eq!(filter.filter(&mut ctx), Some((None,)));
}

#[test]
fn test_overlapping_paths_ordered() {
    let filter = path("api/a/b").or(path("api/a"));

    let req = mock_req(Method::Get, "/api/a/b");
    let mut ctx = Context::new(&req);
    let res = filter.filter(&mut ctx);
    assert!(matches!(res, Some(Either::A(_))));
    assert!(ctx.is_path_matched());

    let req = mock_req(Method::Get, "/api/a");
    let mut ctx = Context::new(&req);
    let res = filter.filter(&mut ctx);
    assert!(matches!(res, Some(Either::B(_))));
    assert!(ctx.is_path_matched());
}

#[test]
fn test_overlapping_paths_unordered_fixed() {
    // Without end(), the first branch would match /api/a/b and leave a
    // segment unconsumed.  With end(), the first branch fails for /api/a/b
    // and the second one wins.
    let filter = path("api/a").and(end()).or(path("api/a/b").and(end()));

    let req = mock_req(Method::Get, "/api/a/b");
    let mut ctx = Context::new(&req);
    let res = filter.filter(&mut ctx);
    assert!(matches!(res, Some(Either::B(_))));
    assert!(ctx.is_path_matched());

    let req = mock_req(Method::Get, "/api/a");
    let mut ctx = Context::new(&req);
    let res = filter.filter(&mut ctx);
    assert!(matches!(res, Some(Either::A(_))));
    assert!(ctx.is_path_matched());
}
