//! The parts of content processing.

use nixclip_core::pipeline::processor::{
    extract_domain, extract_filename_from_uri, strip_html_tags, truncate_chars, PREVIEW_CHAR_LIMIT,
};
use nixclip_core::pipeline::ContentProcessor;
use nixclip_core::{ContentClass, MimePayload};

fn make_payload(mime: &str, data: &[u8]) -> MimePayload {
    MimePayload {
        mime: mime.to_string(),
        data: data.to_vec(),
    }
}

#[test]
fn truncate_ascii() {
    let s = "hello world";
    assert_eq!(truncate_chars(s, 5), "hello");
    assert_eq!(truncate_chars(s, 100), "hello world");
}

#[test]
fn truncate_multibyte() {
    let s = "héllo";
    assert_eq!(truncate_chars(s, 3), "hél");
}

#[test]
fn domain_with_scheme() {
    assert_eq!(
        extract_domain("https://www.example.com/foo?bar=1"),
        Some("www.example.com".to_string())
    );
}

#[test]
fn domain_bare() {
    assert_eq!(
        extract_domain("example.com/foo"),
        Some("example.com".to_string())
    );
}

#[test]
fn filename_from_file_uri() {
    assert_eq!(
        extract_filename_from_uri("file:///home/user/documents/report.pdf"),
        "report.pdf"
    );
}

#[test]
fn filename_percent_decoded() {
    assert_eq!(
        extract_filename_from_uri("file:///home/user/my%20file.txt"),
        "my file.txt"
    );
}

#[test]
fn filename_non_file_uri() {
    let uri = "https://example.com/file.txt";
    assert_eq!(extract_filename_from_uri(uri), uri);
}

#[test]
fn strip_basic_html() {
    assert_eq!(strip_html_tags("<b>Hello</b> <i>World</i>"), "Hello World");
}

#[test]
fn strip_preserves_content() {
    assert_eq!(
        strip_html_tags("<p>Some <strong>important</strong> text.</p>"),
        "Some important text."
    );
}

#[test]
fn process_text_basic() {
    let payload = make_payload("text/plain", b"hello world");
    let entry = ContentProcessor::process(vec![payload], None).unwrap();
    assert_eq!(entry.content_class, ContentClass::Text);
    assert_eq!(entry.preview_text.as_deref(), Some("hello world"));
    assert_eq!(entry.canonical_hash, *blake3::hash(b"hello world").as_bytes());
}

#[test]
fn process_text_truncates_at_char_boundary() {
    let long = "a".repeat(PREVIEW_CHAR_LIMIT + 1);
    let payload = make_payload("text/plain", long.as_bytes());
    let entry = ContentProcessor::process(vec![payload], None).unwrap();
    assert_eq!(
        entry.preview_text.as_ref().unwrap().len(),
        PREVIEW_CHAR_LIMIT
    );
}

#[test]
fn process_url_extracts_domain() {
    let payload = make_payload("text/plain", b"https://example.com/path?q=1");
    let entry = ContentProcessor::process(vec![payload], None).unwrap();
    assert_eq!(entry.content_class, ContentClass::Url);
    assert_eq!(
        entry.metadata.url_domain.as_deref(),
        Some("example.com")
    );
}

#[test]
fn process_files_basic() {
    let uri_list = b"# comment\nfile:///home/user/a.txt\nfile:///home/user/b.pdf\n";
    let payload = make_payload("text/uri-list", uri_list);
    let entry = ContentProcessor::process(vec![payload], None).unwrap();
    assert_eq!(entry.content_class, ContentClass::Files);
    assert_eq!(entry.metadata.file_count, Some(2));
    let preview = entry.preview_text.unwrap();
    assert!(preview.contains("a.txt"));
    assert!(preview.contains("b.pdf"));
}

#[test]
fn process_unknown_mime_errors() {
    let payload = make_payload("application/octet-stream", b"\x00\x01");
    assert!(ContentProcessor::process(vec![payload], None).is_err());
}
