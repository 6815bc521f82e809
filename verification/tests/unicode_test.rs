//! Text that is not plain ASCII, or not text at all.

use nixclip_core::config::{IgnoreConfig, Retention};
use nixclip_core::error::NixClipError;
use nixclip_core::pipeline::privacy::PrivacyFilter;
use nixclip_core::pipeline::processor::{percent_decode, strip_html_tags};
use nixclip_core::pipeline::ContentProcessor;
use nixclip_core::search::normalize_query_tokens;
use nixclip_core::MimePayload;

#[test]
fn malformed_bytes_are_replaced_in_previews() {
    let offer = MimePayload { mime: "text/plain".to_string(), data: b"ab\xffcd".to_vec() };
    let entry = ContentProcessor::process(vec![offer], None).expect("processed");
    assert_eq!(entry.preview_text, Some("ab\u{fffd}cd".to_string()));
    assert_eq!(entry.representations[0].data, b"ab\xffcd".to_vec());
}

#[test]
fn wide_spaces_collapse_like_narrow_ones() {
    assert_eq!(strip_html_tags("a\u{2003}\u{3000} b"), "a b");
    assert_eq!(strip_html_tags("\u{a0}a\u{85}"), "a");
    assert_eq!(strip_html_tags("a\u{200b}b"), "a\u{200b}b");
}

#[test]
fn escapes_of_bytes_beyond_ascii_stay_as_they_are() {
    assert_eq!(percent_decode("a%20b%C3%A9"), "a b%C3%A9");
    assert_eq!(percent_decode("50%"), "50%");
}

#[test]
fn applications_match_in_any_case_of_any_script() {
    let config = IgnoreConfig {
        apps: vec!["org.SCHLÜSSEL".to_string()],
        patterns: vec![],
        respect_sensitive_hints: true,
    };
    let filter = PrivacyFilter::new(&config).expect("filter");
    assert!(filter.should_ignore_app("ORG.schlüssel"));
    assert!(!filter.should_ignore_app("org.schlussel"));
}

#[test]
fn letters_of_any_script_make_tokens() {
    assert_eq!(normalize_query_tokens("naïve; 日本 or ½"), vec!["naïve", "日本", "½"]);
    assert!(normalize_query_tokens("And oR noT ♥").is_empty());
}

#[test]
fn every_error_names_its_kind() {
    let cause = || "x".to_string();
    assert_eq!(NixClipError::Database(cause()).message(), "database error: x");
    assert_eq!(NixClipError::Io(cause()).message(), "I/O error: x");
    assert_eq!(NixClipError::Config(cause()).message(), "configuration error: x");
    assert_eq!(NixClipError::Ipc(cause()).message(), "IPC error: x");
    assert_eq!(NixClipError::Pipeline(cause()).message(), "pipeline error: x");
    assert_eq!(NixClipError::Wayland(cause()).message(), "Wayland error: x");
    assert_eq!(NixClipError::Image(cause()).message(), "image error: x");
    assert_eq!(NixClipError::Serialization(cause()).message(), "serialization error: x");
}

#[test]
fn retention_names() {
    let names = [
        (Retention::Days7, "7days"),
        (Retention::Days30, "30days"),
        (Retention::Months3, "3months"),
        (Retention::Months6, "6months"),
        (Retention::Year1, "1year"),
        (Retention::Unlimited, "unlimited"),
    ];
    for (retention, name) in names {
        assert_eq!(retention.as_str(), name);
    }
}
