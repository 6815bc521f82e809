//! The popup: keys, filters, rows, settings and replies.

use nixclip_core::config::{Config, Retention, UiConfig};
use nixclip_core::ipc::{ClientMessage, ServerMessage};
use nixclip_core::ui::actions::{
    action_request, closes_on, confirms_clear, load_entries, load_request, reloads_after,
    settings_config, PopupAction, Shown,
};
use nixclip_core::ui::args::{activation_token, activation_token_from_args, plain_mode_from_args};
use nixclip_core::ui::keys::{filter_class, on_key, Key, KeyAction, KeyPress};
use nixclip_core::ui::query::{
    connection_message, empty_message, popup_size, search_text, set_active, update_visible_tabs,
    QueryState, Tab, POPUP_LIMIT,
};
use nixclip_core::ui::replies::{
    acknowledgement, config_answer, exchange_result, query_answer, restore_answer, Exchange,
    Failure,
};
use nixclip_core::ui::rows::{
    build_badge, format_relative_time, row_badge, row_content, source_label, RowContent,
};
use nixclip_core::ui::settings::{index_to_retention, retention_to_index};
use nixclip_core::{ContentClass, EntrySummary, RestoreMode};

const NOW: i64 = 1_700_000_000_000;

fn entry(id: i64, class: ContentClass) -> EntrySummary {
    EntrySummary {
        id,
        created_at: 0,
        last_seen_at: 0,
        pinned: id % 2 == 0,
        ephemeral: false,
        content_class: class,
        preview_text: Some("preview".to_string()),
        source_app: Some("kitty".to_string()),
        thumbnail: None,
        match_ranges: vec![],
    }
}

fn press(key: Key, character: Option<char>, ctrl: bool, shift: bool) -> KeyPress {
    KeyPress { key, character, ctrl, shift }
}

fn args(values: &[&str]) -> Vec<Option<String>> {
    values.iter().map(|v| Some(v.to_string())).collect()
}

#[test]
fn keys_do_what_the_manual_says() {
    let with_ctrl = |key| on_key(press(key, None, true, false), false, false);
    assert_eq!(on_key(press(Key::Escape, None, false, false), false, true), KeyAction::Close);
    assert_eq!(with_ctrl(Key::BackSpace), KeyAction::DeleteEntry);
    assert_eq!(with_ctrl(Key::LetterP), KeyAction::TogglePin);
    assert_eq!(with_ctrl(Key::Comma), KeyAction::OpenSettings);
    assert_eq!(with_ctrl(Key::Digit1), KeyAction::Filter(0));
    assert_eq!(with_ctrl(Key::Digit2), KeyAction::Filter(1));
    assert_eq!(with_ctrl(Key::Digit3), KeyAction::Filter(2));
    assert_eq!(with_ctrl(Key::Digit4), KeyAction::Filter(3));
    assert_eq!(with_ctrl(Key::Digit5), KeyAction::Filter(4));
    assert_eq!(with_ctrl(Key::Delete), KeyAction::Proceed);
    assert_eq!(on_key(press(Key::Delete, None, true, true), false, false), KeyAction::ClearAll);
    assert_eq!(with_ctrl(Key::Other), KeyAction::Proceed);
}

#[test]
fn return_pastes_as_the_popup_was_opened() {
    let enter = |shift, plain| on_key(press(Key::Enter, None, false, shift), plain, false);
    assert_eq!(enter(false, false), KeyAction::Restore(RestoreMode::Original));
    assert_eq!(enter(true, false), KeyAction::Restore(RestoreMode::PlainText));
    assert_eq!(enter(false, true), KeyAction::Restore(RestoreMode::PlainText));
    assert_eq!(enter(true, true), KeyAction::Restore(RestoreMode::PlainText));
}

#[test]
fn typing_starts_a_search() {
    let typed = |c, focused| on_key(press(Key::Other, Some(c), false, false), false, focused);
    for c in ['a', 'Z', '7', 'é', '中', '!', '~', '@', '[', ' ', '\u{a0}', '€'] {
        assert_eq!(typed(c, false), KeyAction::StartSearch(c));
        assert_eq!(typed(c, true), KeyAction::Proceed);
    }
    for c in ['\t', '\u{8}', '\u{7f}', '\u{9f}'] {
        assert_eq!(typed(c, false), KeyAction::Proceed);
    }
    let p = on_key(press(Key::LetterP, Some('p'), false, false), false, false);
    assert_eq!(p, KeyAction::StartSearch('p'));
    let shifted = on_key(press(Key::Other, Some('A'), false, true), false, false);
    assert_eq!(shifted, KeyAction::StartSearch('A'));
}

#[test]
fn tabs_and_classes_belong_together() {
    assert_eq!(filter_class(0), None);
    assert_eq!(filter_class(1), Some(ContentClass::Text));
    assert_eq!(filter_class(2), Some(ContentClass::Image));
    assert_eq!(filter_class(3), Some(ContentClass::Files));
    assert_eq!(filter_class(4), Some(ContentClass::Url));
    assert_eq!(filter_class(-1), None);
    assert_eq!(set_active(None), Tab::All);
    assert_eq!(set_active(Some(ContentClass::Text)), Tab::Text);
    assert_eq!(set_active(Some(ContentClass::RichText)), Tab::Text);
    assert_eq!(set_active(Some(ContentClass::Image)), Tab::Images);
    assert_eq!(set_active(Some(ContentClass::Files)), Tab::Files);
    assert_eq!(set_active(Some(ContentClass::Url)), Tab::Links);
}

#[test]
fn tabs_without_entries_are_hidden() {
    let entries = vec![entry(1, ContentClass::RichText), entry(2, ContentClass::Url)];
    let tabs = update_visible_tabs(&entries, Some(ContentClass::Image));
    assert!(tabs.text && tabs.links && !tabs.images && !tabs.files);
    assert_eq!(tabs.active, None);
    let tabs = update_visible_tabs(&entries, Some(ContentClass::Text));
    assert_eq!(tabs.active, Some(ContentClass::Text));
    let tabs = update_visible_tabs(&vec![], None);
    assert!(!tabs.text && !tabs.links && !tabs.images && !tabs.files);
    assert_eq!(tabs.active, None);
}

#[test]
fn the_popup_keeps_a_sensible_size() {
    let size = |width, rows| {
        let mut ui = UiConfig::default();
        ui.width = width;
        ui.max_visible_entries = rows;
        let size = popup_size(&ui);
        (size.width, size.min_list_height)
    };
    assert_eq!(size(680, 8), (680, 480));
    assert_eq!(size(0, 0), (480, 180));
    assert_eq!(size(u32::MAX, u32::MAX), (1600, 960));
    assert_eq!(size(1600, 3), (1600, 180));
}

#[test]
fn empty_results_are_explained() {
    let state = |text: Option<&str>, class| QueryState { text: text.map(str::to_string), class };
    assert_eq!(
        empty_message(&state(Some("x"), Some(ContentClass::Url))),
        "No matches for 'x'. Try a different search."
    );
    assert_eq!(
        empty_message(&state(None, Some(ContentClass::Url))),
        "No clipboard history for the selected filter."
    );
    assert_eq!(
        empty_message(&QueryState::default()),
        "No clipboard history yet.\nCopy something to get started."
    );
    assert_eq!(search_text(String::new()), None);
    assert_eq!(search_text(" ".to_string()).as_deref(), Some(" "));
}

#[test]
fn the_popup_asks_for_what_it_shows() {
    let state = QueryState { text: Some("x".to_string()), class: Some(ContentClass::Files) };
    match load_request(&state) {
        ClientMessage::Query { text, content_class, offset: 0, limit: POPUP_LIMIT, .. } => {
            assert_eq!(text.as_deref(), Some("x"));
            assert_eq!(content_class.as_deref(), Some("files"));
        }
        other => panic!("unexpected request: {other:?}"),
    }
    match load_entries(&QueryState::default(), Ok((vec![entry(1, ContentClass::Url)], 9))) {
        Shown::Entries { entries, total: 9, update_tabs: true } => assert_eq!(entries.len(), 1),
        other => panic!("unexpected view: {other:?}"),
    }
    match load_entries(&state, Ok((vec![entry(1, ContentClass::Url)], 9))) {
        Shown::Entries { update_tabs: false, .. } => {}
        other => panic!("unexpected view: {other:?}"),
    }
    match load_entries(&state, Ok((vec![], 0))) {
        Shown::Message(m) => assert_eq!(m, empty_message(&state)),
        other => panic!("unexpected view: {other:?}"),
    }
    match load_entries(&state, Err("refused".to_string())) {
        Shown::Message(m) => {
            assert_eq!(m, connection_message("refused"));
            assert!(m.starts_with("Cannot connect to nixclipd.\nIs the daemon running?\n\nRun"));
            assert!(m.ends_with("\n\nError: refused"));
        }
        other => panic!("unexpected view: {other:?}"),
    }
}

#[test]
fn actions_ask_for_the_selected_entry() {
    let e = entry(4, ContentClass::Text);
    let restore = PopupAction::Restore(RestoreMode::PlainText);
    assert!(matches!(
        action_request(restore, Some(&e)),
        Some(ClientMessage::Restore { id: 4, mode: RestoreMode::PlainText, .. })
    ));
    assert!(matches!(
        action_request(PopupAction::DeleteEntry, Some(&e)),
        Some(ClientMessage::Delete { ids, .. }) if ids == vec![4]
    ));
    assert!(matches!(
        action_request(PopupAction::TogglePin, Some(&e)),
        Some(ClientMessage::Pin { id: 4, pinned: false, .. })
    ));
    assert!(matches!(
        action_request(PopupAction::ClearAll, None),
        Some(ClientMessage::ClearUnpinned { .. })
    ));
    assert!(action_request(PopupAction::TogglePin, None).is_none());
    assert!(confirms_clear("clear") && !confirms_clear("cancel"));
    assert!(reloads_after(PopupAction::DeleteEntry, true));
    assert!(!reloads_after(PopupAction::DeleteEntry, false));
    assert!(!reloads_after(restore, true));
    assert!(closes_on(restore, true) && !closes_on(restore, false));
    assert!(!closes_on(PopupAction::ClearAll, true));
    let mut disk = Config::default();
    disk.general.max_entries = 3;
    assert_eq!(settings_config(None, disk.clone()).general.max_entries, 3);
    assert_eq!(settings_config(Some(Config::default()), disk).general.max_entries, 1000);
}

#[test]
fn badges_name_the_class() {
    assert_eq!(build_badge(ContentClass::Text), ("TXT", "badge-text"));
    assert_eq!(build_badge(ContentClass::RichText), ("HTML", "badge-richtext"));
    assert_eq!(build_badge(ContentClass::Image), ("IMG", "badge-image"));
    assert_eq!(build_badge(ContentClass::Files), ("FILE", "badge-files"));
    assert_eq!(build_badge(ContentClass::Url), ("URL", "badge-url"));
}

#[test]
fn rows_show_a_thumbnail_or_the_text() {
    let mut e = entry(1, ContentClass::Image);
    assert!(matches!(row_content(&e), RowContent::Placeholder(s) if s == "[Image]"));
    e.thumbnail = Some(vec![1]);
    assert!(matches!(row_content(&e), RowContent::Thumbnail));
    e.content_class = ContentClass::Text;
    assert!(matches!(
        row_content(&e),
        RowContent::Preview { text, monospace: true } if text == "preview"
    ));
    e.content_class = ContentClass::Url;
    e.preview_text = None;
    assert!(matches!(
        row_content(&e),
        RowContent::Preview { text, monospace: false } if text == "[No preview]"
    ));
    assert_eq!(source_label(&e, true).as_deref(), Some("── kitty"));
    assert_eq!(source_label(&e, false), None);
    e.source_app = None;
    assert_eq!(source_label(&e, true), None);
    assert_eq!(row_badge(ContentClass::Url, true), Some(("URL", "badge-url")));
    assert_eq!(row_badge(ContentClass::Url, false), None);
}

#[test]
fn times_are_told_from_now() {
    let told = |secs: i64| format_relative_time(NOW, NOW - secs * 1000);
    assert_eq!(told(0), "just now");
    assert_eq!(told(-100), "just now");
    assert_eq!(told(59), "just now");
    assert_eq!(told(60), "1m");
    assert_eq!(told(3599), "59m");
    assert_eq!(told(3600), "1h");
    assert_eq!(told(86399), "23h");
    assert_eq!(told(86400), "1d");
    assert_eq!(told(2_591_999), "29d");
    assert_eq!(told(2_592_000), "4w");
    assert_eq!(format_relative_time(NOW, 0), "just now");
    assert_eq!(format_relative_time(0, -5_000_000), "just now");
}

#[test]
fn retention_choices_round_trip() {
    for (idx, retention) in [
        (0, Retention::Days7),
        (1, Retention::Days30),
        (2, Retention::Months3),
        (3, Retention::Months6),
        (4, Retention::Year1),
        (5, Retention::Unlimited),
    ] {
        assert_eq!(retention_to_index(&retention), idx);
        assert_eq!(index_to_retention(idx), retention);
    }
    assert_eq!(index_to_retention(99), Retention::Unlimited);
}

#[test]
fn arguments_open_the_popup() {
    assert!(plain_mode_from_args(&args(&["ui", "--plain"])));
    assert!(!plain_mode_from_args(&args(&["--plain"])));
    assert!(!plain_mode_from_args(&vec![Some("ui".to_string()), None]));
    assert!(!plain_mode_from_args(&vec![]));
    let token = activation_token_from_args(&args(&["ui", "--activation-token", "abc", "x"]));
    assert_eq!(token.as_deref(), Some("abc"));
    assert_eq!(activation_token_from_args(&args(&["ui", "--activation-token"])), None);
    assert_eq!(activation_token_from_args(&args(&["--activation-token", "abc"])), None);
    assert_eq!(activation_token_from_args(&vec![]), None);
    let odd = vec![Some("ui".to_string()), Some("--activation-token".to_string()), None];
    assert_eq!(activation_token_from_args(&odd), None);
    let some = |s: &str| Some(s.to_string());
    assert_eq!(activation_token(some("a"), some("b"), some("c"), some("d")), some("a"));
    assert_eq!(activation_token(None, some("b"), some("c"), some("d")), some("b"));
    assert_eq!(activation_token(None, None, some("c"), some("d")), some("c"));
    assert_eq!(activation_token(None, None, None, some("d")), some("d"));
}

#[test]
fn a_failed_exchange_drops_the_connection() {
    let text = |exchange| match exchange_result(exchange) {
        (false, Err(m)) => m,
        other => panic!("expected a failure, got {other:?}"),
    };
    assert_eq!(text(Exchange::NotConnected("e".to_string())), "cannot connect to daemon: e");
    assert_eq!(text(Exchange::NotSent("e".to_string())), "failed to send IPC message: e");
    assert_eq!(text(Exchange::NotReceived("e".to_string())), "failed to read IPC response: e");
    assert!(matches!(
        exchange_result(Exchange::Received(ServerMessage::ok())),
        (true, Ok(ServerMessage::Acknowledged { .. }))
    ));
}

#[test]
fn answers_are_taken_for_what_they_are() {
    let message = |failure: Failure| match failure {
        Failure::Message(m) => m,
        other => panic!("expected Message, got {other:?}"),
    };
    let page = query_answer(Ok(ServerMessage::query_result(vec![entry(1, ContentClass::Url)], 4)));
    assert!(matches!(page, Ok((entries, 4)) if entries.len() == 1));
    assert_eq!(message(query_answer(Ok(ServerMessage::error("e"))).expect_err("error")), "e");
    assert_eq!(message(query_answer(Err("down".to_string())).expect_err("error")), "down");
    assert!(matches!(query_answer(Ok(ServerMessage::ok())), Err(Failure::Unexpected(_))));
    assert!(restore_answer(Ok(ServerMessage::restore_ok())).is_ok());
    let gone = restore_answer(Ok(ServerMessage::restore_err("gone")));
    assert_eq!(message(gone.expect_err("error")), "gone");
    let unexplained = ServerMessage::RestoreResult { version: 1, success: false, error: None };
    let failure = restore_answer(Ok(unexplained)).expect_err("error");
    assert_eq!(message(failure), "restore failed");
    assert!(acknowledgement(Ok(ServerMessage::ok())).is_ok());
    assert_eq!(message(acknowledgement(Ok(ServerMessage::error("e"))).expect_err("error")), "e");
    assert!(matches!(
        acknowledgement(Ok(ServerMessage::restore_ok())),
        Err(Failure::Unexpected(_))
    ));
    assert!(config_answer(Ok(ServerMessage::config_value(Config::default()))).is_ok());
    assert!(matches!(config_answer(Ok(ServerMessage::ok())), Err(Failure::Unexpected(_))));
}
