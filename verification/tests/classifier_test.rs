//! Classification by MIME type and content.

use nixclip_core::pipeline::classifier::{classify, classify_with_content};
use nixclip_core::ContentClass;

fn mimes(v: &[&str]) -> Vec<String> {
    v.iter().map(|s| s.to_string()).collect()
}

#[test]
fn image_png_wins() {
    assert_eq!(
        classify(&mimes(&["image/png", "text/plain"])),
        Some(ContentClass::Image)
    );
}

#[test]
fn image_jpeg_wins() {
    assert_eq!(classify(&mimes(&["image/jpeg"])), Some(ContentClass::Image));
}

#[test]
fn files_uri_list() {
    assert_eq!(
        classify(&mimes(&["text/uri-list", "text/plain"])),
        Some(ContentClass::Files)
    );
}

#[test]
fn files_gnome() {
    assert_eq!(
        classify(&mimes(&["x-special/gnome-copied-files"])),
        Some(ContentClass::Files)
    );
}

#[test]
fn richtext_both_present() {
    assert_eq!(
        classify(&mimes(&["text/html", "text/plain"])),
        Some(ContentClass::RichText)
    );
}

#[test]
fn html_only_is_none() {
    assert_eq!(classify(&mimes(&["text/html"])), None);
}

#[test]
fn plain_only_is_text() {
    assert_eq!(classify(&mimes(&["text/plain"])), Some(ContentClass::Text));
}

#[test]
fn empty_is_none() {
    assert_eq!(classify(&[]), None);
}

#[test]
fn url_promotion_http() {
    assert_eq!(
        classify_with_content(&mimes(&["text/plain"]), Some("https://example.com/path")),
        Some(ContentClass::Url)
    );
}

#[test]
fn url_promotion_domain() {
    assert_eq!(
        classify_with_content(&mimes(&["text/plain"]), Some("example.com/path")),
        Some(ContentClass::Url)
    );
}

#[test]
fn no_url_promotion_whitespace() {
    assert_eq!(
        classify_with_content(&mimes(&["text/plain"]), Some("hello world")),
        Some(ContentClass::Text)
    );
}

#[test]
fn no_url_promotion_no_content() {
    assert_eq!(
        classify_with_content(&mimes(&["text/plain"]), None),
        Some(ContentClass::Text)
    );
}

#[test]
fn image_beats_url_content() {
    assert_eq!(
        classify_with_content(
            &mimes(&["image/png", "text/plain"]),
            Some("https://example.com")
        ),
        Some(ContentClass::Image)
    );
}
