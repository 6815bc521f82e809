//! The daemon: capture, answers to clients, arguments and the screen lock.

use nixclip_core::config::{Config, IgnoreConfig};
use nixclip_core::daemon::args::{
    config_file, critical_task_result, existing_config_path, parse_args, TaskOutcome,
};
use nixclip_core::daemon::screen_lock::{is_lock_signal, lock_change, LockChange};
use nixclip_core::daemon::server::{
    handle_clear_unpinned, handle_client, handle_delete, handle_get_config, handle_get_entry,
    handle_pin, handle_query, handle_restore, handle_set_config, handle_subscribe, query_reply,
    restore_reply, restore_unavailable, searches_first, store_unavailable,
    verify_peer_credentials, ConfigUpdate, ConnectionStep, FeedEvent, FeedStep, Request,
    RestoreStep,
};
use nixclip_core::daemon::watcher::{
    admits, build_entry, handle_event, restore_to_clipboard, small_enough, ClipboardEvent,
    WaylandBackend,
};
use nixclip_core::ipc::{ClientMessage, ServerMessage};
use nixclip_core::pipeline::privacy::{FilterResult, PrivacyFilter};
use nixclip_core::pipeline::ContentProcessor;
use nixclip_core::{
    ContentClass, EntrySummary, MimePayload, NixClipError, QueryResult, Representation, RestoreMode,
};

fn filter() -> PrivacyFilter {
    PrivacyFilter::new(&IgnoreConfig::default()).expect("filter")
}

fn event(mimes: &[&str], mime: &str, data: &str, app: Option<&str>) -> ClipboardEvent {
    ClipboardEvent {
        offered_mimes: mimes.iter().map(|m| m.to_string()).collect(),
        payloads: vec![MimePayload { mime: mime.to_string(), data: data.as_bytes().to_vec() }],
        source_app: app.map(str::to_string),
    }
}

fn rep(mime: &str) -> Representation {
    Representation { mime: mime.to_string(), data: vec![1] }
}

fn summary(id: i64) -> EntrySummary {
    EntrySummary {
        id,
        created_at: 1,
        last_seen_at: 2,
        pinned: false,
        ephemeral: false,
        content_class: ContentClass::Text,
        preview_text: None,
        source_app: None,
        thumbnail: None,
        match_ranges: vec![],
    }
}

fn error_of(message: ServerMessage) -> String {
    match message {
        ServerMessage::Error { message, .. } => message,
        other => panic!("expected Error, got {other:?}"),
    }
}

fn restore_error_of(message: ServerMessage) -> String {
    match message {
        ServerMessage::RestoreResult { success: false, error: Some(e), .. } => e,
        other => panic!("expected a failed RestoreResult, got {other:?}"),
    }
}

fn bad(text: &str) -> NixClipError {
    NixClipError::Io(text.to_string())
}

#[test]
fn captured_text_becomes_an_entry() {
    let e = event(&["text/plain"], "text/plain", "Hello, world!", Some("org.gnome.gedit"));
    let entry = handle_event(false, &filter(), 500, e).expect("event").expect("entry");
    assert_eq!(entry.content_class, ContentClass::Text);
    assert_eq!(entry.preview_text.as_deref(), Some("Hello, world!"));
    assert_eq!(entry.canonical_hash, *blake3::hash(b"Hello, world!").as_bytes());
    assert_eq!(entry.source_app.as_deref(), Some("org.gnome.gedit"));
    assert_eq!(entry.representations.len(), 1);
    assert!(!entry.ephemeral);
}

#[test]
fn secrets_become_ephemeral_entries() {
    let token = format!("ghp_{}", "B".repeat(36));
    let e = event(&["text/plain"], "text/plain", &token, None);
    assert!(handle_event(false, &filter(), 500, e).expect("event").expect("entry").ephemeral);
    let processed = ContentProcessor::process(
        vec![MimePayload { mime: "text/plain".to_string(), data: token.into_bytes() }],
        None,
    )
    .expect("process");
    assert!(build_entry(processed, None, &filter()).ephemeral);
}

#[test]
fn locked_screens_and_ignored_sources_capture_nothing() {
    let plain = || event(&["text/plain"], "text/plain", "x", Some("app"));
    let ignored = || event(&["text/plain"], "text/plain", "x", Some("org.keepassxc.KeePassXC"));
    let hinted = || {
        event(&["text/plain", "x-kde-passwordManagerHint"], "text/plain", "x", Some("app"))
    };
    assert!(admits(false, &filter(), &plain()));
    assert!(!admits(true, &filter(), &plain()));
    assert!(!admits(false, &filter(), &ignored()));
    assert!(!admits(false, &filter(), &hinted()));
    assert!(handle_event(true, &filter(), 500, plain()).expect("event").is_none());
    assert!(handle_event(false, &filter(), 500, ignored()).expect("event").is_none());
    assert!(handle_event(false, &filter(), 500, hinted()).expect("event").is_none());
}

#[test]
fn entries_larger_than_the_largest_are_not_captured() {
    let sized = |n: usize| event(&["text/plain"], "text/plain", &"x".repeat(n), None);
    assert!(handle_event(false, &filter(), 1, sized(1_048_576)).expect("event").is_some());
    assert!(handle_event(false, &filter(), 1, sized(1_048_577)).expect("event").is_none());
    assert!(handle_event(false, &filter(), 0, sized(1)).expect("event").is_none());
    let half = || MimePayload { mime: "a".to_string(), data: vec![0; 600_000] };
    assert!(small_enough(&vec![half()], 1));
    assert!(!small_enough(&vec![half(), half()], 1));
    assert!(small_enough(&vec![half(), half()], 2));
}

#[test]
fn unknown_content_is_an_error() {
    let e = event(&["application/x"], "application/x", "x", None);
    match handle_event(false, &filter(), 500, e) {
        Err(NixClipError::Pipeline(m)) => {
            assert_eq!(m, "no recognised MIME type in clipboard offer")
        }
        other => panic!("expected Pipeline, got {other:?}"),
    }
}

#[test]
fn there_must_be_something_to_restore() {
    assert_eq!(restore_to_clipboard(vec![rep("a")]).expect("reps").len(), 1);
    match restore_to_clipboard(vec![]) {
        Err(NixClipError::Pipeline(m)) => assert_eq!(m, "no representations to restore"),
        other => panic!("expected Pipeline, got {other:?}"),
    }
    assert!(matches!(WaylandBackend::connect(), Err(NixClipError::Wayland(_))));
}

#[test]
fn only_the_same_user_may_connect() {
    assert!(verify_peer_credentials(1000, 1000).is_ok());
    match verify_peer_credentials(1001, 1000) {
        Err(NixClipError::Ipc(m)) => {
            assert_eq!(m, "peer UID 1001 does not match daemon UID 1000")
        }
        other => panic!("expected Ipc, got {other:?}"),
    }
}

#[test]
fn messages_become_requests() {
    let step = handle_client(Ok(ClientMessage::pin(4, true)));
    assert!(matches!(step, ConnectionStep::Serve(Request::Pin { id: 4, pinned: true })));
    let step = handle_client(Ok(ClientMessage::get_entry(9)));
    assert!(matches!(step, ConnectionStep::Serve(Request::GetEntry { id: 9 })));
    let step = handle_client(Ok(ClientMessage::delete(vec![1, 2])));
    assert!(matches!(step, ConnectionStep::Serve(Request::Delete { ids }) if ids == vec![1, 2]));
    let closed = handle_client(Err(NixClipError::Ipc("connection closed".to_string())));
    assert!(matches!(closed, ConnectionStep::End));
    let broken = handle_client(Err(NixClipError::Io("connection closed".to_string())));
    assert!(matches!(broken, ConnectionStep::Fail(NixClipError::Io(_))));
}

#[test]
fn queries_name_a_known_class_or_none() {
    let q = handle_query(Some("x".to_string()), Some("url".to_string()), 1, 2).expect("query");
    assert_eq!(q.content_class, Some(ContentClass::Url));
    assert_eq!((q.offset, q.limit), (1, 2));
    assert!(searches_first(&q));
    let q = handle_query(None, None, 0, 0).expect("query");
    assert!(q.content_class.is_none() && !searches_first(&q));
    let answer = handle_query(None, Some("video".to_string()), 0, 0).expect_err("unknown class");
    assert_eq!(
        error_of(answer),
        "invalid content_class: pipeline error: unknown content class: video"
    );
}

#[test]
fn query_answers_carry_the_page_or_the_error() {
    let page = QueryResult { entries: vec![summary(1)], total: 7 };
    assert!(matches!(
        query_reply(Ok(page)),
        ServerMessage::QueryResult { total: 7, entries, .. } if entries.len() == 1
    ));
    let text = bad("disk").message();
    assert_eq!(error_of(query_reply(Err(bad("disk")))), format!("query failed: {text}"));
}

#[test]
fn plain_restore_offers_only_plain_text() {
    let all = || vec![rep("text/html"), rep("text/plain"), rep("text/plain;charset=utf-8")];
    match handle_restore(Ok(all()), RestoreMode::PlainText) {
        RestoreStep::Offer(reps) => {
            assert_eq!(reps.len(), 1);
            assert_eq!(reps[0].mime, "text/plain");
        }
        other => panic!("expected Offer, got {other:?}"),
    }
    match handle_restore(Ok(all()), RestoreMode::Original) {
        RestoreStep::Offer(reps) => assert_eq!(reps.len(), 3),
        other => panic!("expected Offer, got {other:?}"),
    }
}

#[test]
fn restores_that_cannot_be_done_are_answered_at_once() {
    let reply = |step: RestoreStep| match step {
        RestoreStep::Reply(m) => restore_error_of(m),
        other => panic!("expected Reply, got {other:?}"),
    };
    assert_eq!(
        reply(handle_restore(Ok(vec![]), RestoreMode::Original)),
        "entry has no representations"
    );
    assert_eq!(
        reply(handle_restore(Ok(vec![rep("image/png")]), RestoreMode::PlainText)),
        "no suitable representation for requested mode"
    );
    let text = bad("gone").message();
    assert_eq!(
        reply(handle_restore(Err(bad("gone")), RestoreMode::Original)),
        format!("failed to load entry: {text}")
    );
    assert_eq!(
        restore_error_of(restore_reply(Err(bad("gone")))),
        format!("clipboard restore failed: {text}")
    );
    assert!(matches!(
        restore_reply(Ok(())),
        ServerMessage::RestoreResult { success: true, error: None, .. }
    ));
    assert_eq!(restore_error_of(restore_unavailable("p")), "store lock poisoned: p");
    assert_eq!(error_of(store_unavailable("p")), "store lock poisoned: p");
}

#[test]
fn changes_are_acknowledged_or_explained() {
    let text = bad("busy").message();
    assert!(matches!(handle_delete(Ok(())), ServerMessage::Acknowledged { version: 1 }));
    assert!(matches!(handle_pin(Ok(())), ServerMessage::Acknowledged { version: 1 }));
    assert!(matches!(handle_clear_unpinned(Ok(())), ServerMessage::Acknowledged { version: 1 }));
    assert_eq!(error_of(handle_delete(Err(bad("busy")))), format!("delete failed: {text}"));
    assert_eq!(error_of(handle_pin(Err(bad("busy")))), format!("pin failed: {text}"));
    assert_eq!(
        error_of(handle_clear_unpinned(Err(bad("busy")))),
        format!("clear unpinned failed: {text}")
    );
    assert!(matches!(
        handle_get_entry(Ok(summary(3))),
        ServerMessage::EntryDetail { entry: Some(e), .. } if e.id == 3
    ));
    assert!(matches!(
        handle_get_entry(Err(bad("none"))),
        ServerMessage::EntryDetail { entry: None, .. }
    ));
}

#[test]
fn subscribers_hear_of_every_new_entry() {
    assert!(matches!(
        handle_subscribe(FeedEvent::Entry(summary(3))),
        FeedStep::Send(ServerMessage::NewEntry { entry, .. }) if entry.id == 3
    ));
    assert!(matches!(handle_subscribe(FeedEvent::Lagged), FeedStep::Wait));
    assert!(matches!(handle_subscribe(FeedEvent::Closed), FeedStep::End));
}

#[test]
fn a_new_configuration_brings_its_filter() {
    let mut config = Config::default();
    config.general.max_entries = 5;
    config.ignore.apps = vec!["secret".to_string()];
    let (new_filter, answer) = handle_set_config(ConfigUpdate::Saved(config.clone()));
    let new_filter = new_filter.expect("filter");
    assert_eq!(new_filter.check(Some("secret"), &[], None), FilterResult::Reject);
    assert!(matches!(
        answer,
        ServerMessage::ConfigValue { config, .. } if config.general.max_entries == 5
    ));
    assert!(matches!(handle_get_config(config), ServerMessage::ConfigValue { .. }));
}

#[test]
fn a_configuration_that_cannot_be_used_is_explained() {
    let answer = |update| {
        let (new_filter, answer) = handle_set_config(update);
        assert!(new_filter.is_none());
        error_of(answer)
    };
    assert_eq!(
        answer(ConfigUpdate::NotSerialized("e".to_string())),
        "failed to serialize current config: e"
    );
    assert_eq!(answer(ConfigUpdate::Invalid("e".to_string())), "invalid config after merge: e");
    let text = bad("full").message();
    assert_eq!(
        answer(ConfigUpdate::NotSaved(bad("full"))),
        format!("failed to save config: {text}")
    );
    let mut config = Config::default();
    config.ignore.patterns = vec!["ok".to_string(), "[".to_string()];
    let explained = answer(ConfigUpdate::Saved(config.clone()));
    let why = PrivacyFilter::new(&config.ignore).err().expect("error").message();
    assert_eq!(explained, format!("invalid privacy filter config: {why}"));
}

#[test]
fn arguments_are_read_in_order() {
    let read = |args: &[&str]| parse_args(&args.iter().map(|a| a.to_string()).collect());
    let args = read(&["--config", "/c.toml", "-v"]).expect("args");
    assert_eq!(args.config_path.as_deref(), Some("/c.toml"));
    assert!(args.verbose);
    let args = read(&["--config"]).expect("args");
    assert!(args.config_path.is_none() && !args.verbose);
    let args = read(&["--config", "--verbose"]).expect("args");
    assert_eq!(args.config_path.as_deref(), Some("--verbose"));
    assert!(!args.verbose);
    assert_eq!(read(&["--verbose", "--help", "-x"]).expect_err("unknown"), "--help");
    assert!(read(&[]).is_ok());
}

#[test]
fn the_configuration_file_is_the_nearest_one() {
    assert_eq!(existing_config_path("/u", true, true).as_deref(), Some("/u"));
    assert_eq!(
        existing_config_path("/u", false, true).as_deref(),
        Some("/etc/xdg/nixclip/config.toml")
    );
    assert_eq!(existing_config_path("/u", false, false), None);
    let some = |s: &str| Some(s.to_string());
    assert_eq!(config_file(some("/x"), some("/y"), "/u"), "/x");
    assert_eq!(config_file(None, some("/y"), "/u"), "/y");
    assert_eq!(config_file(None, None, "/u"), "/u");
}

#[test]
fn the_end_of_a_critical_task_is_an_error() {
    let text = |outcome| match critical_task_result("ipc server", &outcome) {
        Err(NixClipError::Pipeline(m)) => m,
        other => panic!("expected Pipeline, got {other:?}"),
    };
    assert_eq!(text(TaskOutcome::Finished), "ipc server exited unexpectedly");
    assert_eq!(text(TaskOutcome::Failed("e".to_string())), "ipc server exited with error: e");
    assert_eq!(text(TaskOutcome::Crashed("e".to_string())), "ipc server task crashed: e");
}

#[test]
fn only_the_screen_saver_announces_a_lock() {
    let (i, m, p) = ("org.gnome.ScreenSaver", "ActiveChanged", "/org/gnome/ScreenSaver");
    assert!(is_lock_signal(true, Some(i), Some(m), Some(p)));
    assert!(!is_lock_signal(false, Some(i), Some(m), Some(p)));
    assert!(!is_lock_signal(true, Some("org.other"), Some(m), Some(p)));
    assert!(!is_lock_signal(true, Some(i), Some("Other"), Some(p)));
    assert!(!is_lock_signal(true, Some(i), Some(m), None));
    assert_eq!(lock_change(false, true), LockChange::Paused);
    assert_eq!(lock_change(true, false), LockChange::Resumed);
    assert_eq!(lock_change(true, true), LockChange::Unchanged);
    assert_eq!(lock_change(false, false), LockChange::Unchanged);
}
