//! The command-line client.

use nixclip_core::cli::calendar::days_to_ymd;
use nixclip_core::cli::config_cmd::{build_patch, parse_integer, parse_scalar};
use nixclip_core::cli::doctor::{
    check_blob_dir, check_config_file, check_daemon, check_db_file, check_line, check_runtime_dir,
    check_value, summary, BlobDirState, Check, CheckStatus,
};
use nixclip_core::cli::list::{
    entry_row, format_age, format_preview, list_lines, search_lines, time_from_unix_secs,
};
use nixclip_core::cli::outcome::{
    clear_outcome, daemon_error, delete_outcome, paste_mode, paste_outcome, pin_outcome,
    unpin_failure, Outcome,
};
use nixclip_core::cli::show::{entry_details, find_entry};
use nixclip_core::cli::stats::{count_entries, pinned_ids};
use nixclip_core::ipc::ServerMessage;
use nixclip_core::toml_value::{merge_toml, TomlValue};
use nixclip_core::{ContentClass, EntrySummary, NixClipError, RestoreMode};

const NOW: i64 = 1_700_000_000_000;
const DAY: i64 = 86_400_000;

fn entry(id: i64, class: ContentClass, preview: Option<&str>) -> EntrySummary {
    EntrySummary {
        id,
        created_at: NOW - 5_000,
        last_seen_at: NOW - 120_000,
        pinned: false,
        ephemeral: false,
        content_class: class,
        preview_text: preview.map(str::to_string),
        source_app: None,
        thumbnail: None,
        match_ranges: vec![],
    }
}

fn said(outcome: Outcome) -> String {
    match outcome {
        Outcome::Say(s) => s,
        other => panic!("expected Say, got {other:?}"),
    }
}

fn failed(outcome: Outcome) -> String {
    match outcome {
        Outcome::Fail(s) => s,
        other => panic!("expected Fail, got {other:?}"),
    }
}

#[test]
fn days_become_dates() {
    assert_eq!(days_to_ymd(0), (1970, 1, 1));
    assert_eq!(days_to_ymd(-1), (1969, 12, 31));
    assert_eq!(days_to_ymd(11_016), (2000, 2, 29));
    assert_eq!(days_to_ymd(11_017), (2000, 3, 1));
    assert_eq!(days_to_ymd(19_675), (2023, 11, 14));
    assert_eq!(days_to_ymd(-25_508), (1900, 3, 1));
    assert_eq!(days_to_ymd(-25_509), (1900, 2, 28));
    assert_eq!(days_to_ymd(-719_468), (0, 3, 1));
    assert_eq!(days_to_ymd(-719_469), (0, 2, 29));
}

#[test]
fn every_day_of_four_centuries_follows_the_one_before() {
    let mut last = days_to_ymd(-200_000);
    for day in -199_999..-50_000 {
        let (y, m, d) = days_to_ymd(day);
        let next_day = (y, m) == (last.0, last.1) && d == last.2 + 1;
        let next_month = y == last.0 && m == last.1 + 1 && d == 1 && last.2 >= 28;
        let next_year = y == last.0 + 1 && (m, d) == (1, 1) && (last.1, last.2) == (12, 31);
        assert!(next_day || next_month || next_year);
        last = (y, m, d);
    }
}

#[test]
fn ages_are_told_in_the_largest_unit() {
    assert_eq!(format_age(NOW, NOW), "0s ago");
    assert_eq!(format_age(NOW, NOW + 60_000), "0s ago");
    assert_eq!(format_age(NOW, NOW - 59_999), "59s ago");
    assert_eq!(format_age(NOW, NOW - 60_000), "1m ago");
    assert_eq!(format_age(NOW, NOW - 3_599_999), "59m ago");
    assert_eq!(format_age(NOW, NOW - 3_600_000), "1h ago");
    assert_eq!(format_age(NOW, NOW - DAY), "1d ago");
    assert_eq!(format_age(NOW, NOW - 7 * DAY + 1), "6d ago");
    assert_eq!(format_age(NOW, NOW - 7 * DAY), "Nov 7");
    assert_eq!(format_age(NOW, 0), "Jan 1");
    assert_eq!(time_from_unix_secs(951_782_400), "Feb 29");
    assert_eq!(time_from_unix_secs(-1), "Jan 1");
    assert_eq!(time_from_unix_secs(-86_400), "Dec 31");
}

#[test]
fn previews_fit_their_column() {
    assert_eq!(format_preview(&entry(1, ContentClass::Image, Some("x"))), "[Image]");
    assert_eq!(format_preview(&entry(1, ContentClass::Files, Some("x"))), "[Files]");
    assert_eq!(format_preview(&entry(1, ContentClass::Text, None)), "");
    assert_eq!(format_preview(&entry(1, ContentClass::Text, Some("  hi \n"))), "hi");
    let exact = "é".repeat(38);
    assert_eq!(format_preview(&entry(1, ContentClass::Url, Some(&exact))), exact);
    let long = "é".repeat(39);
    let cut = format!("{}…", "é".repeat(36));
    assert_eq!(format_preview(&entry(1, ContentClass::Url, Some(&long))), cut);
}

#[test]
fn rows_line_up() {
    let mut e = entry(42, ContentClass::Text, Some("hi"));
    let row = format!("  {:<5}│ {:<9}│ {:<38}│ {}", 42, "text", "hi", "5s ago");
    assert_eq!(entry_row(&e, NOW), row);
    e.pinned = true;
    e.id = -1234567;
    let row = format!(" *{:<5}│ {:<9}│ {:<38}│ {}", -1234567, "text", "hi", "5s ago");
    assert_eq!(entry_row(&e, NOW), row);
}

#[test]
fn lists_have_a_header_rows_and_a_footer() {
    let entries = vec![entry(1, ContentClass::Text, Some("a")), entry(2, ContentClass::Url, None)];
    let lines = list_lines(&entries, 9, NOW);
    assert_eq!(lines.len(), 6);
    assert_eq!(lines[0], " ID    │ Type      │ Preview                               │ Age");
    assert_eq!(lines[1], "───────┼───────────┼───────────────────────────────────────┼────────");
    assert_eq!(lines[2], entry_row(&entries[0], NOW));
    assert_eq!(lines[3], entry_row(&entries[1], NOW));
    assert_eq!(lines[4], "");
    assert_eq!(lines[5], "Showing 2 of 9 entries. Use --limit to see more.");
    assert_eq!(list_lines(&vec![], 0, NOW), vec!["No clipboard history found."]);
    let found = search_lines("x", &entries, 2, NOW);
    assert_eq!(found[5], "Found 2 of 2 matching entries.");
    assert_eq!(
        search_lines("say \"hi\"\n", &vec![], 0, NOW),
        vec!["No entries found matching \"say \\\"hi\\\"\\n\"."]
    );
}

#[test]
fn details_show_what_an_entry_has() {
    let mut e = entry(7, ContentClass::RichText, None);
    assert_eq!(
        entry_details(&e, NOW),
        vec![
            "ID:           7",
            "Type:         richtext",
            "Pinned:       no",
            "Ephemeral:    no",
            "Created:      1699999995000 (5s ago)",
            "Last seen:    2m ago",
            "",
            "[No text preview available]",
        ]
    );
    e.pinned = true;
    e.source_app = Some("kitty".to_string());
    e.thumbnail = Some(vec![1, 2, 3]);
    e.preview_text = Some("bold".to_string());
    let lines = entry_details(&e, NOW);
    assert_eq!(lines[2], "Pinned:       yes");
    assert_eq!(lines[6], "Source app:   kitty");
    assert_eq!(lines[7], "Thumbnail:    3 bytes");
    assert_eq!(&lines[8..], &["", "Preview:", "bold"]);
}

#[test]
fn entries_are_found_by_their_identifier() {
    let entries = vec![entry(3, ContentClass::Text, None), entry(5, ContentClass::Url, None)];
    assert_eq!(find_entry(&entries, 5), Some(1));
    assert_eq!(find_entry(&entries, 4), None);
}

#[test]
fn counts_add_up() {
    let mut entries = vec![
        entry(1, ContentClass::Text, None),
        entry(2, ContentClass::Text, None),
        entry(3, ContentClass::RichText, None),
        entry(4, ContentClass::Image, None),
        entry(5, ContentClass::Files, None),
        entry(6, ContentClass::Url, None),
    ];
    entries[1].pinned = true;
    entries[4].pinned = true;
    let c = count_entries(&entries);
    assert_eq!((c.pinned, c.text, c.richtext, c.image, c.files, c.url), (2, 2, 1, 1, 1, 1));
    assert_eq!(c.text + c.richtext + c.image + c.files + c.url, entries.len());
    assert_eq!(pinned_ids(&entries), vec![2, 5]);
}

#[test]
fn outcomes_say_what_happened() {
    assert_eq!(said(pin_outcome(3, true, ServerMessage::ok())), "Entry 3 pinned.");
    assert_eq!(said(pin_outcome(3, false, ServerMessage::ok())), "Entry 3 unpinned.");
    assert_eq!(said(delete_outcome(1, ServerMessage::ok())), "Entry deleted.");
    assert_eq!(said(delete_outcome(12, ServerMessage::ok())), "12 entries deleted.");
    assert_eq!(said(clear_outcome(true, ServerMessage::ok())), "All clipboard history cleared.");
    assert_eq!(
        said(clear_outcome(false, ServerMessage::ok())),
        "Unpinned clipboard history cleared."
    );
    assert_eq!(
        said(paste_outcome(9, ServerMessage::restore_ok())),
        "Entry 9 restored to clipboard."
    );
    assert_eq!(
        failed(paste_outcome(9, ServerMessage::restore_err("gone"))),
        "Failed to restore entry 9: gone"
    );
    let unexplained = ServerMessage::RestoreResult { version: 1, success: false, error: None };
    assert_eq!(failed(paste_outcome(9, unexplained)), "Failed to restore entry 9: unknown error");
    assert_eq!(failed(pin_outcome(3, true, ServerMessage::error("no"))), "Error from daemon: no");
    assert_eq!(daemon_error("no"), "Error from daemon: no");
    let odd = delete_outcome(1, ServerMessage::restore_ok());
    assert!(matches!(odd, Outcome::Unexpected(ServerMessage::RestoreResult { .. })));
}

#[test]
fn clearing_stops_at_an_entry_that_cannot_be_unpinned() {
    assert!(unpin_failure(4, ServerMessage::ok()).is_none());
    let failure = unpin_failure(4, ServerMessage::error("locked")).expect("failure");
    assert_eq!(failed(failure), "Error unpinning entry 4: locked");
    assert!(matches!(
        unpin_failure(4, ServerMessage::restore_ok()),
        Some(Outcome::Unexpected(_))
    ));
    assert_eq!(paste_mode(true), RestoreMode::PlainText);
    assert_eq!(paste_mode(false), RestoreMode::Original);
}

#[test]
fn integers_parse_as_signed_decimals() {
    for (text, value) in [
        ("0", Some(0)),
        ("-0", Some(0)),
        ("+42", Some(42)),
        ("007", Some(7)),
        ("9223372036854775807", Some(i64::MAX)),
        ("-9223372036854775808", Some(i64::MIN)),
        ("9223372036854775808", None),
        ("-9223372036854775809", None),
        ("99999999999999999999999999999999999999999", None),
        ("", None),
        ("-", None),
        ("+", None),
        ("1 ", None),
        ("1.5", None),
        ("--1", None),
        ("٣", None),
    ] {
        assert_eq!(parse_integer(text), value, "for {text:?}");
        assert_eq!(parse_integer(text), text.parse::<i64>().ok(), "for {text:?}");
    }
}

#[test]
fn scalars_take_the_narrowest_type() {
    let bits = 1.5f64.to_bits();
    assert!(matches!(parse_scalar("500", Some(bits)), TomlValue::Integer(500)));
    assert!(matches!(parse_scalar("1.5", Some(bits)), TomlValue::Float(f) if f == bits));
    assert!(matches!(parse_scalar("true", None), TomlValue::Boolean(true)));
    assert!(matches!(parse_scalar("false", None), TomlValue::Boolean(false)));
    assert!(matches!(parse_scalar("dark", None), TomlValue::Text(s) if s == "dark"));
}

fn get<'a>(value: &'a TomlValue, key: &str) -> Option<&'a TomlValue> {
    match value {
        TomlValue::Table(entries) => entries.iter().find(|e| e.0 == key).map(|e| &e.1),
        _ => None,
    }
}

#[test]
fn patches_nest_at_the_first_dot() {
    let patch = build_patch("general.max_entries", "500", None).expect("patch");
    let general = get(&patch, "general").expect("general");
    assert!(matches!(get(general, "max_entries"), Some(TomlValue::Integer(500))));
    let patch = build_patch("a.b.c", "x", None).expect("patch");
    let a = get(&patch, "a").expect("a");
    assert!(matches!(get(a, "b.c"), Some(TomlValue::Text(s)) if s == "x"));
    let patch = build_patch("theme", "dark", None).expect("patch");
    assert!(matches!(get(&patch, "theme"), Some(TomlValue::Text(s)) if s == "dark"));
}

#[test]
fn setting_a_key_changes_that_setting_alone() {
    let table = |entries: Vec<(&str, TomlValue)>| {
        TomlValue::Table(entries.into_iter().map(|(k, v)| (k.to_string(), v)).collect())
    };
    let base = table(vec![
        ("general", table(vec![("a", TomlValue::Integer(1)), ("b", TomlValue::Integer(2))])),
        ("ui", table(vec![("a", TomlValue::Integer(3))])),
    ]);
    let merged = merge_toml(base, build_patch("general.a", "7", None).expect("patch"));
    let general = get(&merged, "general").expect("general");
    let ui = get(&merged, "ui").expect("ui");
    assert!(matches!(get(general, "a"), Some(TomlValue::Integer(7))));
    assert!(matches!(get(general, "b"), Some(TomlValue::Integer(2))));
    assert!(matches!(get(ui, "a"), Some(TomlValue::Integer(3))));
    let replaced = merge_toml(merged, TomlValue::Boolean(true));
    assert!(matches!(replaced, TomlValue::Boolean(true)));
}

fn parts(check: &Check) -> (&str, &str, &str) {
    (&check.label, check.status.symbol(), check.detail.as_deref().unwrap_or(""))
}

#[test]
fn checks_tell_what_was_found() {
    assert_eq!(
        parts(&check_daemon("/run/s", None)),
        ("Daemon", "OK", "running (/run/s)")
    );
    assert_eq!(
        parts(&check_daemon("/run/s", Some("refused"))),
        ("Daemon", "FAIL", "not running at /run/s — refused\n       Start with: nixclipd")
    );
    assert_eq!(
        parts(&check_runtime_dir(Some("/run/1"), true)),
        ("XDG_RUNTIME_DIR", "OK", "/run/1")
    );
    assert_eq!(
        parts(&check_runtime_dir(Some("/run/1"), false)),
        ("XDG_RUNTIME_DIR", "WARN", "set to '/run/1' but path does not exist")
    );
    assert_eq!(
        parts(&check_runtime_dir(None, false)),
        ("XDG_RUNTIME_DIR", "WARN", "not set; falling back to /tmp")
    );
    assert_eq!(
        parts(&check_config_file("/c", false, None)),
        ("Config file", "OK", "not found at /c (defaults will be used)")
    );
    assert_eq!(
        parts(&check_config_file("/c", true, None)),
        ("Config file", "OK", "valid (/c)")
    );
    let bad = NixClipError::Config("line 3".to_string());
    let detail = format!("invalid TOML at /c: {}", bad.message());
    assert_eq!(
        parts(&check_config_file("/c", true, Some(&bad))),
        ("Config file", "FAIL", detail.as_str())
    );
    assert_eq!(
        parts(&check_db_file("/d", false, None)),
        ("Database", "OK", "not found at /d (will be created on first run)")
    );
    assert_eq!(parts(&check_db_file("/d", true, None)), ("Database", "OK", "readable (/d)"));
    assert_eq!(
        parts(&check_db_file("/d", true, Some("denied"))),
        ("Database", "FAIL", "cannot open /d: denied")
    );
    for (state, symbol, detail) in [
        (BlobDirState::Missing, "OK", "not found at /b (will be created on first run)"),
        (BlobDirState::Unknown("x".to_string()), "FAIL", "cannot stat /b: x"),
        (BlobDirState::NotADirectory, "FAIL", "/b exists but is not a directory"),
        (BlobDirState::NotWritable("x".to_string()), "WARN", "not writable at /b: x"),
        (BlobDirState::Writable, "OK", "readable + writable (/b)"),
    ] {
        assert_eq!(parts(&check_blob_dir("/b", &state)), ("Blob directory", symbol, detail));
    }
}

#[test]
fn the_worst_check_decides_the_summary() {
    let passed = || check_value("X", "y");
    let warning = || check_runtime_dir(None, false);
    let error = || check_blob_dir("/b", &BlobDirState::NotADirectory);
    assert_eq!(summary(&vec![]), "All checks passed.");
    assert_eq!(summary(&vec![passed()]), "All checks passed.");
    assert_eq!(
        summary(&vec![passed(), warning()]),
        "Some warnings detected. nixclip may work with reduced functionality."
    );
    assert_eq!(
        summary(&vec![warning(), error(), passed()]),
        "One or more checks failed. Run `journalctl --user -u nixclipd` for daemon logs."
    );
    assert_eq!(check_line(&passed()), "[OK  ] X  y");
    let bare = Check { label: "L".to_string(), status: CheckStatus::Warning, detail: None };
    assert_eq!(check_line(&bare), "[WARN] L");
    assert_eq!(CheckStatus::Error.symbol(), "FAIL");
}
