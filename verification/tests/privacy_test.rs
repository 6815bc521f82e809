//! The privacy filter.

use nixclip_core::config::IgnoreConfig;
use nixclip_core::pipeline::privacy::{FilterResult, PrivacyFilter};

fn default_filter() -> PrivacyFilter {
    PrivacyFilter::new(&IgnoreConfig::default()).unwrap()
}

fn filter_with_apps(apps: Vec<&str>) -> PrivacyFilter {
    let config = IgnoreConfig {
        apps: apps.into_iter().map(String::from).collect(),
        patterns: vec![],
        respect_sensitive_hints: true,
    };
    PrivacyFilter::new(&config).unwrap()
}

fn filter_with_patterns(patterns: Vec<&str>) -> PrivacyFilter {
    let config = IgnoreConfig {
        apps: vec![],
        patterns: patterns.into_iter().map(String::from).collect(),
        respect_sensitive_hints: true,
    };
    PrivacyFilter::new(&config).unwrap()
}

fn mimes(v: &[&str]) -> Vec<String> {
    v.iter().map(|s| s.to_string()).collect()
}

#[test]
fn invalid_regex_returns_error() {
    let config = IgnoreConfig {
        apps: vec![],
        patterns: vec!["[invalid".to_string()],
        respect_sensitive_hints: true,
    };
    assert!(PrivacyFilter::new(&config).is_err());
}

#[test]
fn valid_config_constructs_ok() {
    assert!(PrivacyFilter::new(&IgnoreConfig::default()).is_ok());
}

#[test]
fn ignore_app_exact() {
    let f = filter_with_apps(vec!["com.1password.1Password"]);
    assert!(f.should_ignore_app("com.1password.1Password"));
}

#[test]
fn ignore_app_case_insensitive() {
    let f = filter_with_apps(vec!["KeePassXC"]);
    assert!(f.should_ignore_app("org.keepassxc.keepassxc"));
}

#[test]
fn ignore_app_substring() {
    let f = filter_with_apps(vec!["1password"]);
    assert!(f.should_ignore_app("com.1password.1Password"));
}

#[test]
fn ignore_app_no_match() {
    let f = filter_with_apps(vec!["bitwarden"]);
    assert!(!f.should_ignore_app("org.mozilla.firefox"));
}

#[test]
fn sensitive_kde_hint() {
    let f = default_filter();
    assert!(f.has_sensitive_mimes(&mimes(&["x-kde-passwordManagerHint"])));
}

#[test]
fn sensitive_nspasteboard_concealed() {
    let f = default_filter();
    assert!(f.has_sensitive_mimes(&mimes(&["org.nspasteboard.ConcealedType"])));
}

#[test]
fn sensitive_nspasteboard_transient() {
    let f = default_filter();
    assert!(f.has_sensitive_mimes(&mimes(&["org.nspasteboard.TransientType"])));
}

#[test]
fn sensitive_password_substring() {
    let f = default_filter();
    assert!(f.has_sensitive_mimes(&mimes(&["application/x-password-data"])));
}

#[test]
fn sensitive_password_case_insensitive() {
    let f = default_filter();
    assert!(f.has_sensitive_mimes(&mimes(&["application/Password"])));
}

#[test]
fn not_sensitive_plain_text() {
    let f = default_filter();
    assert!(!f.has_sensitive_mimes(&mimes(&["text/plain", "text/html"])));
}

#[test]
fn pattern_matches_openai_key() {
    let f = filter_with_patterns(vec![r"^sk-[a-zA-Z0-9]{48}"]);
    let key = format!("sk-{}", "A".repeat(48));
    assert!(f.matches_sensitive_pattern(&key));
}

#[test]
fn pattern_no_match() {
    let f = filter_with_patterns(vec![r"^sk-[a-zA-Z0-9]{48}"]);
    assert!(!f.matches_sensitive_pattern("just some text"));
}

#[test]
fn check_allows_normal_content() {
    let f = default_filter();
    let result = f.check(
        Some("org.mozilla.firefox"),
        &mimes(&["text/plain"]),
        Some("hello world"),
    );
    assert_eq!(result, FilterResult::Allow);
}

#[test]
fn check_rejects_ignored_app_before_mimes() {
    let f = filter_with_apps(vec!["keepassxc"]);
    let result = f.check(
        Some("org.keepassxc.KeePassXC"),
        &mimes(&["text/plain"]),
        Some("super secret"),
    );
    assert_eq!(result, FilterResult::Reject);
}

#[test]
fn check_rejects_on_sensitive_mime() {
    let f = default_filter();
    let result = f.check(
        Some("org.mozilla.firefox"),
        &mimes(&["text/plain", "x-kde-passwordManagerHint"]),
        Some("some text"),
    );
    assert_eq!(result, FilterResult::Reject);
}

#[test]
fn check_ephemeral_on_pattern_match() {
    let f = filter_with_patterns(vec![r"^ghp_[a-zA-Z0-9]{36}"]);
    let token = format!("ghp_{}", "B".repeat(36));
    let result = f.check(
        Some("org.mozilla.firefox"),
        &mimes(&["text/plain"]),
        Some(&token),
    );
    assert_eq!(result, FilterResult::Ephemeral);
}

#[test]
fn check_no_source_app_still_works() {
    let f = default_filter();
    let result = f.check(None, &mimes(&["text/plain"]), Some("normal text"));
    assert_eq!(result, FilterResult::Allow);
}

#[test]
fn check_sensitive_hints_skipped_when_disabled() {
    let config = IgnoreConfig {
        apps: vec![],
        patterns: vec![],
        respect_sensitive_hints: false,
    };
    let f = PrivacyFilter::new(&config).unwrap();
    let result = f.check(
        None,
        &mimes(&["x-kde-passwordManagerHint"]),
        None,
    );
    assert_eq!(result, FilterResult::Allow);
}

#[test]
fn check_app_rejection_takes_priority_over_pattern() {
    let config = IgnoreConfig {
        apps: vec!["keepassxc".to_string()],
        patterns: vec![r"super secret".to_string()],
        respect_sensitive_hints: true,
    };
    let f = PrivacyFilter::new(&config).unwrap();
    let result = f.check(
        Some("org.keepassxc.KeePassXC"),
        &mimes(&["text/plain"]),
        Some("super secret"),
    );
    assert_eq!(result, FilterResult::Reject);
}

#[test]
fn pre_content_allows_normal_event() {
    let f = default_filter();
    let result = f.check_pre_content(
        Some("org.mozilla.firefox"),
        &mimes(&["text/plain"]),
    );
    assert_eq!(result, FilterResult::Allow);
}

#[test]
fn pre_content_rejects_ignored_app() {
    let f = filter_with_apps(vec!["keepassxc"]);
    let result = f.check_pre_content(
        Some("org.keepassxc.KeePassXC"),
        &mimes(&["text/plain"]),
    );
    assert_eq!(result, FilterResult::Reject);
}

#[test]
fn pre_content_rejects_sensitive_mime() {
    let f = default_filter();
    let result = f.check_pre_content(
        None,
        &mimes(&["text/plain", "x-kde-passwordManagerHint"]),
    );
    assert_eq!(result, FilterResult::Reject);
}

#[test]
fn pre_content_does_not_check_patterns() {
    let f = filter_with_patterns(vec![r"^sk-[a-zA-Z0-9]{48}"]);
    let result = f.check_pre_content(
        Some("org.mozilla.firefox"),
        &mimes(&["text/plain"]),
    );
    assert_eq!(result, FilterResult::Allow);
}

#[test]
fn content_patterns_allows_normal_text() {
    let f = filter_with_patterns(vec![r"^sk-[a-zA-Z0-9]{48}"]);
    let result = f.check_content_patterns(Some("hello world"));
    assert_eq!(result, FilterResult::Allow);
}

#[test]
fn content_patterns_marks_ephemeral_on_match() {
    let f = filter_with_patterns(vec![r"^ghp_[a-zA-Z0-9]{36}"]);
    let token = format!("ghp_{}", "B".repeat(36));
    let result = f.check_content_patterns(Some(&token));
    assert_eq!(result, FilterResult::Ephemeral);
}

#[test]
fn content_patterns_allows_when_no_preview() {
    let f = filter_with_patterns(vec![r"^sk-[a-zA-Z0-9]{48}"]);
    let result = f.check_content_patterns(None);
    assert_eq!(result, FilterResult::Allow);
}

#[test]
fn content_patterns_allows_when_no_patterns_configured() {
    let config = IgnoreConfig {
        apps: vec![],
        patterns: vec![],
        respect_sensitive_hints: true,
    };
    let f = PrivacyFilter::new(&config).unwrap();
    let key = format!("sk-{}", "A".repeat(48));
    let result = f.check_content_patterns(Some(&key));
    assert_eq!(result, FilterResult::Allow);
}
