use rustserve::filter::{header, param, path, Context, Filter, FilterExt};
use rustserve::html::{directory_json, generate_index_html, DirEntry};
use rustserve::method::Method;
use rustserve::request::Request;

#[test]
fn index_page_lists_entries() {
    let entries = vec![
        DirEntry {
            name: "docs".to_string(),
            is_dir: true,
            size: 0,
        },
        DirEntry {
            name: "a b.txt".to_string(),
            is_dir: false,
            size: 1536,
        },
    ];
    let page = generate_index_html("files", "sub", &entries);
    assert!(page.contains("<title>rustserve - files</title>"));
    assert!(page.contains("<a href=\"/browse/sub/docs\" class=\"file-item folder\">"));
    assert!(page.contains("<a href=\"/download/sub/a%20b.txt\" class=\"file-item file\">"));
    assert!(page.contains("<span class=\"file-size\">1.50 KB</span>"));
    assert!(page.contains("<a href=\"/browse/sub\">sub</a>"));

    let empty = generate_index_html("files", "", &Vec::new());
    assert!(empty.contains("This directory is empty"));
}

#[test]
fn json_listing_is_exact() {
    let entries = vec![
        DirEntry {
            name: "a\"b".to_string(),
            is_dir: false,
            size: 7,
        },
        DirEntry {
            name: "dir".to_string(),
            is_dir: true,
            size: 0,
        },
    ];
    assert_eq!(
        directory_json(&entries),
        "[{\"name\":\"a\\\"b\",\"isDir\":false,\"size\":7},{\"name\":\"dir\",\"isDir\":true,\"size\":0}]"
    );
    assert_eq!(directory_json(&Vec::new()), "[]");
}

#[test]
fn and_groupings_agree_on_concrete_input() {
    // the two ways to group three one-tuple extracts give the same flat triple
    let headers = vec![("X-Tag".to_string(), "t".to_string())];
    let req = Request::new(Method::Get, "/u/v/w", headers, None);

    let left = path("u")
        .and(param::<String>())
        .and(param::<String>())
        .and(header("x-tag"));
    let mut ctx = Context::new(&req);
    let left_res = left.filter(&mut ctx);

    let right = path("u")
        .and(param::<String>())
        .and(param::<String>().and(header("x-tag")));
    let mut ctx = Context::new(&req);
    let right_res = right.filter(&mut ctx);

    assert_eq!(
        left_res,
        Some(("v".to_string(), "w".to_string(), "t".to_string()))
    );
    assert_eq!(left_res, right_res);
}
