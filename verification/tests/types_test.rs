//! The shared types, their defaults and the errors.

use nixclip_core::config::{Config, Retention};
use nixclip_core::error::NixClipError;
use nixclip_core::{
    ContentClass, EntryId, EntryMetadata, EntrySummary, MimePayload, NewEntry, ProcessedEntry,
    PruneStats, Query, RestoreMode, StoreStats,
};
use std::path::PathBuf;

fn error_message(e: &NixClipError) -> String {
    e.message()
}

#[test]
fn entry_id_is_i64() {
    let id: EntryId = -1_i64;
    assert_eq!(id, -1_i64);

    let max_id: EntryId = i64::MAX;
    assert_eq!(max_id, i64::MAX);
}

#[test]
fn content_class_has_all_five_variants() {
    let variants = [
        ContentClass::Text,
        ContentClass::RichText,
        ContentClass::Image,
        ContentClass::Files,
        ContentClass::Url,
    ];
    assert_eq!(variants.len(), 5);
}

#[test]
fn content_class_display_lowercase() {
    assert_eq!(ContentClass::Text.as_str(),     "text");
    assert_eq!(ContentClass::RichText.as_str(), "richtext");
    assert_eq!(ContentClass::Image.as_str(),    "image");
    assert_eq!(ContentClass::Files.as_str(),    "files");
    assert_eq!(ContentClass::Url.as_str(),      "url");
}

#[test]
fn content_class_from_str_roundtrip() {
    for (s, expected) in [
        ("text",     ContentClass::Text),
        ("richtext", ContentClass::RichText),
        ("image",    ContentClass::Image),
        ("files",    ContentClass::Files),
        ("url",      ContentClass::Url),
    ] {
        let parsed: ContentClass = s.parse().expect("FromStr should succeed for valid input");
        assert_eq!(parsed, expected, "FromStr failed for '{s}'");
        assert_eq!(parsed.as_str(), s);
    }
}

#[test]
fn content_class_from_str_unknown_is_error() {
    assert!(
        "unknown".parse::<ContentClass>().is_err(),
        "Parsing an unknown content-class string should return Err"
    );
}

#[test]
fn restore_mode_has_original_and_plain_text() {
    let variants = [RestoreMode::Original, RestoreMode::PlainText];
    assert_eq!(variants.len(), 2);
}

#[test]
fn new_entry_has_all_required_fields() {
    let entry = NewEntry {
        content_class: ContentClass::Text,
        preview_text: Some("hello".to_string()),
        canonical_hash: [0u8; 32],
        representations: vec![MimePayload {
            mime: "text/plain".to_string(),
            data: b"hello".to_vec(),
        }],
        source_app: Some("gedit".to_string()),
        ephemeral: false,
    };

    assert_eq!(entry.content_class, ContentClass::Text);
    assert_eq!(entry.preview_text.as_deref(), Some("hello"));
    assert_eq!(entry.canonical_hash, [0u8; 32]);
    assert_eq!(entry.representations.len(), 1);
    assert_eq!(entry.source_app.as_deref(), Some("gedit"));
    assert!(!entry.ephemeral);
}

#[test]
fn new_entry_optional_fields_accept_none() {
    let entry = NewEntry {
        content_class: ContentClass::Image,
        preview_text: None,
        canonical_hash: [0xABu8; 32],
        representations: vec![],
        source_app: None,
        ephemeral: true,
    };
    assert!(entry.preview_text.is_none());
    assert!(entry.source_app.is_none());
    assert!(entry.ephemeral);
}

#[test]
fn new_entry_canonical_hash_is_32_bytes() {
    let hash: [u8; 32] = [0u8; 32];
    let entry = NewEntry {
        content_class: ContentClass::Text,
        preview_text: None,
        canonical_hash: hash,
        representations: vec![],
        source_app: None,
        ephemeral: false,
    };
    let _: [u8; 32] = entry.canonical_hash;
}

#[test]
fn entry_summary_fields_and_types() {
    let summary = EntrySummary {
        id: 42,
        created_at: 1_700_000_000_000_i64,
        last_seen_at: 1_700_000_001_000_i64,
        pinned: true,
        ephemeral: false,
        content_class: ContentClass::RichText,
        preview_text: Some("bold text".to_string()),
        source_app: Some("libreoffice".to_string()),
        thumbnail: Some(vec![0xFF, 0xD8, 0xFF]),
        match_ranges: vec![],
    };

    let id: EntryId = summary.id;
    assert_eq!(id, 42);
    let _created: i64 = summary.created_at;
    let _seen: i64   = summary.last_seen_at;
    assert!(summary.pinned);
    assert!(!summary.ephemeral);
    assert_eq!(summary.content_class, ContentClass::RichText);
    assert_eq!(summary.preview_text.as_deref(), Some("bold text"));
    assert!(summary.thumbnail.is_some());
}

#[test]
fn entry_summary_optional_fields_accept_none() {
    let summary = EntrySummary {
        id: 1,
        created_at: 0,
        last_seen_at: 0,
        pinned: false,
        ephemeral: true,
        content_class: ContentClass::Files,
        preview_text: None,
        source_app: None,
        thumbnail: None,
        match_ranges: vec![],
    };
    assert!(summary.preview_text.is_none());
    assert!(summary.source_app.is_none());
    assert!(summary.thumbnail.is_none());
}

#[test]
fn query_fields_and_types() {
    let q = Query {
        text: Some("clipboard".to_string()),
        content_class: Some(ContentClass::Text),
        offset: 0u32,
        limit: 20u32,
    };
    let _offset: u32 = q.offset;
    let _limit: u32  = q.limit;
    assert_eq!(q.text.as_deref(), Some("clipboard"));
    assert_eq!(q.content_class, Some(ContentClass::Text));
}

#[test]
fn query_optional_fields_accept_none() {
    let q = Query {
        text: None,
        content_class: None,
        offset: 10,
        limit: 5,
    };
    assert!(q.text.is_none());
    assert!(q.content_class.is_none());
}

#[test]
fn prune_stats_field_types() {
    let stats = PruneStats {
        entries_deleted: 10u32,
        blobs_deleted: 5u32,
        bytes_freed: 1_024_u64,
    };
    let _ed: u32 = stats.entries_deleted;
    let _bd: u32 = stats.blobs_deleted;
    let _bf: u64 = stats.bytes_freed;
    assert_eq!(stats.entries_deleted, 10);
    assert_eq!(stats.blobs_deleted, 5);
    assert_eq!(stats.bytes_freed, 1024);
}

#[test]
fn processed_entry_has_all_fields() {
    let pe = ProcessedEntry {
        content_class: ContentClass::Image,
        preview_text: Some("photo.png".to_string()),
        canonical_hash: [0xFFu8; 32],
        representations: vec![MimePayload {
            mime: "image/png".to_string(),
            data: vec![1, 2, 3],
        }],
        thumbnail: Some(vec![4, 5, 6]),
        metadata: EntryMetadata {
            image_dimensions: Some((1920, 1080)),
            file_count: None,
            url_domain: None,
        },
    };

    let _hash: [u8; 32] = pe.canonical_hash;
    assert_eq!(pe.metadata.image_dimensions, Some((1920, 1080)));
    assert!(pe.thumbnail.is_some());
}

#[test]
fn processed_entry_optional_thumbnail() {
    let pe = ProcessedEntry {
        content_class: ContentClass::Text,
        preview_text: None,
        canonical_hash: [0u8; 32],
        representations: vec![],
        thumbnail: None,
        metadata: EntryMetadata::default(),
    };
    assert!(pe.thumbnail.is_none());
}

#[test]
fn entry_metadata_default_is_all_none() {
    let m = EntryMetadata::default();
    assert!(m.image_dimensions.is_none(), "image_dimensions should default to None");
    assert!(m.file_count.is_none(),       "file_count should default to None");
    assert!(m.url_domain.is_none(),       "url_domain should default to None");
}

#[test]
fn entry_metadata_image_dimensions_is_u32_pair() {
    let m = EntryMetadata {
        image_dimensions: Some((3840u32, 2160u32)),
        file_count: None,
        url_domain: None,
    };
    let (w, h): (u32, u32) = m.image_dimensions.unwrap();
    assert_eq!(w, 3840);
    assert_eq!(h, 2160);
}

#[test]
fn entry_metadata_file_count_is_usize() {
    let m = EntryMetadata {
        image_dimensions: None,
        file_count: Some(7usize),
        url_domain: None,
    };
    let _fc: usize = m.file_count.unwrap();
    assert_eq!(m.file_count, Some(7));
}

#[test]
fn entry_metadata_url_domain_is_string() {
    let m = EntryMetadata {
        image_dimensions: None,
        file_count: None,
        url_domain: Some("example.com".to_string()),
    };
    assert_eq!(m.url_domain.as_deref(), Some("example.com"));
}

#[test]
fn store_stats_field_types() {
    let s = StoreStats {
        entry_count: 500u64,
        blob_size_bytes: 10_485_760u64,
        db_size_bytes: 4_096u64,
    };
    let _ec:  u64 = s.entry_count;
    let _bsb: u64 = s.blob_size_bytes;
    let _dsb: u64 = s.db_size_bytes;
    assert_eq!(s.entry_count, 500);
}

#[test]
fn general_config_default_max_entries_is_1000() {
    assert_eq!(Config::default().general.max_entries, 1000u32);
}

#[test]
fn general_config_default_max_blob_size_mb_is_500() {
    assert_eq!(Config::default().general.max_blob_size_mb, 500u32);
}

#[test]
fn general_config_default_retention_is_3months() {
    assert_eq!(Config::default().general.retention, Retention::Months3);
}

#[test]
fn ui_config_defaults_match_spec() {
    let ui = Config::default().ui;
    assert_eq!(ui.theme,               "auto");
    assert_eq!(ui.width,               680u32);
    assert_eq!(ui.max_visible_entries, 8u32);
    assert!(ui.show_source_app,   "show_source_app must default to true");
    assert!(ui.show_content_badges, "show_content_badges must default to true");
    assert_eq!(ui.position,           "top-center");
}

#[test]
fn keybind_config_defaults_match_spec() {
    let kb = Config::default().keybind;
    assert_eq!(kb.toggle,           "Super+Shift+V");
    assert_eq!(kb.restore_original, "Return");
    assert_eq!(kb.restore_plain,    "Shift+Return");
    assert_eq!(kb.delete,           "Ctrl+BackSpace");
    assert_eq!(kb.pin,              "Ctrl+P");
    assert_eq!(kb.clear_all,        "Ctrl+Shift+Delete");
}

#[test]
fn ignore_config_default_apps_are_exact_spec_values() {
    let apps = Config::default().ignore.apps;
    assert!(
        apps.contains(&"org.keepassxc.KeePassXC".to_string()),
        "Missing org.keepassxc.KeePassXC; got: {apps:?}"
    );
    assert!(
        apps.contains(&"com.1password.1Password".to_string()),
        "Missing com.1password.1Password; got: {apps:?}"
    );
    assert!(
        apps.contains(&"com.bitwarden.desktop".to_string()),
        "Missing com.bitwarden.desktop; got: {apps:?}"
    );
}

#[test]
fn ignore_config_default_patterns_are_exact_spec_values() {
    let patterns = Config::default().ignore.patterns;
    assert!(
        patterns.contains(&r"^sk-[a-zA-Z0-9]{48}".to_string()),
        r"Missing ^sk-[a-zA-Z0-9]{{48}}; got: {patterns:?}"
    );
    assert!(
        patterns.contains(&r"^ghp_[a-zA-Z0-9]{36}".to_string()),
        r"Missing ^ghp_[a-zA-Z0-9]{{36}}; got: {patterns:?}"
    );
}

#[test]
fn ignore_config_default_respect_sensitive_hints_is_true() {
    assert!(Config::default().ignore.respect_sensitive_hints);
}

#[test]
fn config_path_filename_is_config_toml() {
    let p = PathBuf::from(Config::config_path());
    assert_eq!(
        p.file_name().and_then(|n| n.to_str()),
        Some("config.toml"),
        "config_path() must end with config.toml; got {p:?}"
    );
}

#[test]
fn db_path_filename_is_nixclip_db() {
    let p = PathBuf::from(Config::db_path());
    assert_eq!(
        p.file_name().and_then(|n| n.to_str()),
        Some("nixclip.db"),
        "db_path() must end with nixclip.db; got {p:?}"
    );
}

#[test]
fn blob_dir_component_is_blobs() {
    let p = PathBuf::from(Config::blob_dir());
    assert_eq!(
        p.file_name().and_then(|n| n.to_str()),
        Some("blobs"),
        "blob_dir() must end with blobs/; got {p:?}"
    );
}

#[test]
fn socket_path_filename_is_nixclip_sock() {
    let p = PathBuf::from(Config::socket_path());
    assert_eq!(
        p.file_name().and_then(|n| n.to_str()),
        Some("nixclip.sock"),
        "socket_path() must end with nixclip.sock; got {p:?}"
    );
}

#[test]
fn config_path_parent_directory_is_named_nixclip() {
    let p = PathBuf::from(Config::config_path());
    let parent_name = p
        .parent()
        .and_then(|d| d.file_name())
        .and_then(|n| n.to_str());
    assert_eq!(
        parent_name,
        Some("nixclip"),
        "config_path() parent must be 'nixclip'; got {p:?}"
    );
}

#[test]
fn db_path_parent_directory_is_named_nixclip() {
    let p = PathBuf::from(Config::db_path());
    let parent_name = p
        .parent()
        .and_then(|d| d.file_name())
        .and_then(|n| n.to_str());
    assert_eq!(
        parent_name,
        Some("nixclip"),
        "db_path() parent must be 'nixclip'; got {p:?}"
    );
}

#[test]
fn blob_dir_parent_directory_is_named_nixclip() {
    let p = PathBuf::from(Config::blob_dir());
    let parent_name = p
        .parent()
        .and_then(|d| d.file_name())
        .and_then(|n| n.to_str());
    assert_eq!(
        parent_name,
        Some("nixclip"),
        "blob_dir() parent must be 'nixclip'; got {p:?}"
    );
}

#[test]
fn error_variant_config_carries_string_payload() {
    let e = NixClipError::Config("bad value".to_string());
    let msg = error_message(&e);
    assert!(
        msg.contains("bad value"),
        "Config error message should include the payload: {msg}"
    );
}

#[test]
fn error_variant_ipc_carries_string_payload() {
    let e = NixClipError::Ipc("connection refused".to_string());
    let msg = error_message(&e);
    assert!(msg.contains("connection refused"), "{msg}");
}

#[test]
fn error_variant_pipeline_carries_string_payload() {
    let e = NixClipError::Pipeline("bad mime type".to_string());
    let msg = error_message(&e);
    assert!(msg.contains("bad mime type"), "{msg}");
}

#[test]
fn error_variant_wayland_carries_string_payload() {
    let e = NixClipError::Wayland("no compositor".to_string());
    let msg = error_message(&e);
    assert!(msg.contains("no compositor"), "{msg}");
}

#[test]
fn error_variant_image_carries_string_payload() {
    let e = NixClipError::Image("unsupported format".to_string());
    let msg = error_message(&e);
    assert!(msg.contains("unsupported format"), "{msg}");
}

#[test]
fn error_variant_serialization_carries_string_payload() {
    let e = NixClipError::Serialization("unexpected EOF".to_string());
    let msg = error_message(&e);
    assert!(msg.contains("unexpected EOF"), "{msg}");
}

#[test]
fn nixclip_error_is_send_and_sync() {
    fn assert_send_sync<T: Send + Sync>() {}
    assert_send_sync::<NixClipError>();
}

#[test]
fn result_type_alias_is_correct() {
    fn takes_result(_: nixclip_core::Result<()>) {}
    takes_result(Ok(()));
    takes_result(Err(NixClipError::Config("test".to_string())));
}

#[test]
fn content_class_from_str_error_is_pipeline_variant() {
    let err = "bogus".parse::<ContentClass>().unwrap_err();
    assert!(
        matches!(err, NixClipError::Pipeline(_)),
        "FromStr error for unknown content class should be NixClipError::Pipeline, got: {err:?}"
    );
}
