//! Search text as a full-text expression.

use nixclip_core::search::sanitize_fts5_query;

#[test]
fn sanitize_basic() {
    let expr = sanitize_fts5_query("docker run").unwrap();
    assert!(expr.contains("docker"), "should contain docker token");
    assert!(expr.contains("run"), "should contain run token");
    assert!(expr.contains('*'), "should have prefix wildcards");
}

#[test]
fn sanitize_strips_operators() {
    let expr = sanitize_fts5_query("AND OR NOT").unwrap_or_default();
    assert!(
        expr.is_empty(),
        "all tokens stripped, expect empty: {:?}",
        expr
    );
}

#[test]
fn sanitize_strips_special_chars() {
    let expr = sanitize_fts5_query("foo* ^bar (baz)").unwrap();
    assert!(expr.contains("foo"), "foo retained");
    assert!(expr.contains("bar"), "bar retained");
    assert!(expr.contains("baz"), "baz retained");
    assert!(!expr.contains('^'), "^ stripped");
    assert!(!expr.contains('('), "( stripped");
}

#[test]
fn sanitize_empty_input() {
    assert!(sanitize_fts5_query("").is_none());
    assert!(sanitize_fts5_query("   ").is_none());
}
