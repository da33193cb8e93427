use snap_explorer::db::{search_request, PageWindow};
use snap_explorer::search::sanitize_fts_query;

#[test]
fn test_sanitize_fts_query_simple() {
    assert_eq!(sanitize_fts_query("hello world"), "\"hello\" \"world\"");
}

#[test]
fn test_sanitize_fts_query_empty() {
    assert_eq!(sanitize_fts_query(""), "");
    assert_eq!(sanitize_fts_query("   "), "");
}

#[test]
fn test_sanitize_fts_query_special_chars() {
    // operators of the query language end up inside quotes
    assert_eq!(sanitize_fts_query("hello OR world"), "\"hello\" \"OR\" \"world\"");
    assert_eq!(sanitize_fts_query("test*"), "\"test*\"");
}

#[test]
fn test_sanitize_fts_query_quotes() {
    // double quotes within words are doubled
    assert_eq!(sanitize_fts_query("say \"hi\""), "\"say\" \"\"\"hi\"\"\"");
}

#[test]
fn test_sanitize_fts_query_unicode() {
    assert_eq!(sanitize_fts_query("caf\u{00e9}"), "\"caf\u{00e9}\"");
}

#[test]
fn sanitize_splits_on_any_whitespace() {
    assert_eq!(sanitize_fts_query("\ta\n\nb\u{3000}c  "), "\"a\" \"b\" \"c\"");
    assert_eq!(sanitize_fts_query("a\u{a0}b"), "\"a\" \"b\"");
}

#[test]
fn sanitize_lone_quote() {
    assert_eq!(sanitize_fts_query("\""), "\"\"\"\"");
}

#[test]
fn test_search_empty_query() {
    assert!(search_request("", 50).is_none());
    assert!(search_request(" \t ", 50).is_none());
}

#[test]
fn search_request_clamps_limit() {
    let r = search_request("hello", 50).unwrap();
    assert_eq!(r.expression, "\"hello\"");
    assert_eq!(r.limit, 50);
    assert_eq!(search_request("hello", 0).unwrap().limit, 1);
    assert_eq!(search_request("hello", -7).unwrap().limit, 1);
    assert_eq!(search_request("hello", 501).unwrap().limit, 500);
    assert_eq!(search_request("hello", i32::MAX).unwrap().limit, 500);
}

#[test]
fn page_window_clamps() {
    let w = PageWindow::for_messages(-5, -10);
    assert_eq!((w.offset, w.limit), (0, 1));
    let w = PageWindow::for_messages(7, 5000);
    assert_eq!((w.offset, w.limit), (7, 2000));
    let w = PageWindow::for_media(5000, -1);
    assert_eq!((w.offset, w.limit), (0, 1000));
    let w = PageWindow::new(3, 20, 50);
    assert_eq!((w.offset, w.limit), (3, 20));
}

#[test]
fn page_window_has_more() {
    let w = PageWindow::for_messages(10, 20);
    assert!(w.has_more(31));
    assert!(!w.has_more(30));
    assert!(!w.has_more(0));
    let far = PageWindow::for_messages(i32::MAX, 2000);
    assert!(!far.has_more(i32::MAX));
}
