//! The two phases of the privacy check.

use nixclip_core::config::IgnoreConfig;
use nixclip_core::pipeline::privacy::{FilterResult, PrivacyFilter};

fn mimes(v: &[&str]) -> Vec<String> {
    v.iter().map(|s| s.to_string()).collect()
}

#[test]
fn two_phase_privacy_phase1_rejects_ignored_app() {
    let filter = PrivacyFilter::new(&IgnoreConfig::default()).expect("filter");

    let result =
        filter.check_pre_content(Some("org.keepassxc.KeePassXC"), &mimes(&["text/plain"]));
    assert_eq!(result, FilterResult::Reject);
}

#[test]
fn two_phase_privacy_phase1_rejects_sensitive_mime() {
    let filter = PrivacyFilter::new(&IgnoreConfig::default()).expect("filter");

    let result = filter.check_pre_content(
        None,
        &mimes(&["text/plain", "x-kde-passwordManagerHint"]),
    );
    assert_eq!(result, FilterResult::Reject);
}

#[test]
fn two_phase_privacy_phase1_allows_normal() {
    let filter = PrivacyFilter::new(&IgnoreConfig::default()).expect("filter");

    let result =
        filter.check_pre_content(Some("org.mozilla.firefox"), &mimes(&["text/plain"]));
    assert_eq!(result, FilterResult::Allow);
}

#[test]
fn two_phase_privacy_phase2_flags_api_key() {
    let filter = PrivacyFilter::new(&IgnoreConfig::default()).expect("filter");

    let key = format!("sk-{}", "A".repeat(48));
    let result = filter.check_content_patterns(Some(&key));
    assert_eq!(result, FilterResult::Ephemeral);
}

#[test]
fn two_phase_privacy_phase2_allows_normal_text() {
    let filter = PrivacyFilter::new(&IgnoreConfig::default()).expect("filter");

    let result = filter.check_content_patterns(Some("just a regular note"));
    assert_eq!(result, FilterResult::Allow);
}

#[test]
fn two_phase_privacy_phase2_allows_none_preview() {
    let filter = PrivacyFilter::new(&IgnoreConfig::default()).expect("filter");

    let result = filter.check_content_patterns(None);
    assert_eq!(result, FilterResult::Allow);
}

#[test]
fn two_phase_privacy_full_flow_ephemeral() {
    let filter = PrivacyFilter::new(&IgnoreConfig::default()).expect("filter");

    let key = format!("ghp_{}", "B".repeat(36));
    let offered_mimes = mimes(&["text/plain"]);

    let phase1 = filter.check_pre_content(Some("org.gnome.Terminal"), &offered_mimes);
    assert_eq!(phase1, FilterResult::Allow);

    let phase2 = filter.check_content_patterns(Some(&key));
    assert_eq!(phase2, FilterResult::Ephemeral);
}

#[test]
fn two_phase_privacy_full_flow_reject_shortcircuits() {
    let filter = PrivacyFilter::new(&IgnoreConfig::default()).expect("filter");

    let offered_mimes = mimes(&["text/plain"]);

    let phase1 =
        filter.check_pre_content(Some("org.keepassxc.KeePassXC"), &offered_mimes);
    assert_eq!(phase1, FilterResult::Reject);

    let combined = filter.check(
        Some("org.keepassxc.KeePassXC"),
        &offered_mimes,
        Some("not even checked"),
    );
    assert_eq!(combined, FilterResult::Reject);
}
