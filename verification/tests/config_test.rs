//! Defaults and places of the configuration.

use nixclip_core::config::{named_directory, Config, Retention};
use nixclip_core::NixClipError;
use std::path::PathBuf;

#[test]
fn retention_7days_is_7_days() {
    let d = Retention::Days7.to_duration().expect("should not be None");
    assert_eq!(d.num_days(), 7);
}

#[test]
fn retention_30days_is_30_days() {
    let d = Retention::Days30.to_duration().expect("should not be None");
    assert_eq!(d.num_days(), 30);
}

#[test]
fn retention_3months_is_90_days() {
    let d = Retention::Months3
        .to_duration()
        .expect("should not be None");
    assert_eq!(d.num_days(), 90);
}

#[test]
fn retention_6months_is_180_days() {
    let d = Retention::Months6
        .to_duration()
        .expect("should not be None");
    assert_eq!(d.num_days(), 180);
}

#[test]
fn retention_1year_is_365_days() {
    let d = Retention::Year1.to_duration().expect("should not be None");
    assert_eq!(d.num_days(), 365);
}

#[test]
fn retention_unlimited_is_none() {
    assert!(
        Retention::Unlimited.to_duration().is_none(),
        "Unlimited should return None duration"
    );
}

#[test]
fn default_general_max_entries() {
    let cfg = Config::default();
    assert_eq!(cfg.general.max_entries, 1000);
}

#[test]
fn default_general_max_blob_size_mb() {
    let cfg = Config::default();
    assert_eq!(cfg.general.max_blob_size_mb, 500);
}

#[test]
fn default_general_retention_is_3_months() {
    let cfg = Config::default();
    assert_eq!(cfg.general.retention, Retention::Months3);
}

#[test]
fn default_ui_theme_is_auto() {
    let cfg = Config::default();
    assert_eq!(cfg.ui.theme, "auto");
}

#[test]
fn default_ui_width() {
    let cfg = Config::default();
    assert_eq!(cfg.ui.width, 680);
}

#[test]
fn default_ui_max_visible_entries() {
    let cfg = Config::default();
    assert_eq!(cfg.ui.max_visible_entries, 8);
}

#[test]
fn default_ui_show_source_app_is_true() {
    let cfg = Config::default();
    assert!(cfg.ui.show_source_app);
}

#[test]
fn default_ui_show_content_badges_is_true() {
    let cfg = Config::default();
    assert!(cfg.ui.show_content_badges);
}

#[test]
fn default_ui_position_is_top_center() {
    let cfg = Config::default();
    assert_eq!(cfg.ui.position, "top-center");
}

#[test]
fn default_keybind_open_formatted() {
    let cfg = Config::default();
    assert_eq!(cfg.keybind.open_formatted, "Super+V");
}

#[test]
fn default_keybind_open_plain() {
    let cfg = Config::default();
    assert_eq!(cfg.keybind.open_plain, "Super+Shift+V");
}

#[test]
fn default_keybind_restore_original() {
    let cfg = Config::default();
    assert_eq!(cfg.keybind.restore_original, "Return");
}

#[test]
fn default_keybind_restore_plain() {
    let cfg = Config::default();
    assert_eq!(cfg.keybind.restore_plain, "Shift+Return");
}

#[test]
fn default_keybind_delete() {
    let cfg = Config::default();
    assert_eq!(cfg.keybind.delete, "Ctrl+BackSpace");
}

#[test]
fn default_keybind_pin() {
    let cfg = Config::default();
    assert_eq!(cfg.keybind.pin, "Ctrl+P");
}

#[test]
fn default_keybind_clear_all() {
    let cfg = Config::default();
    assert_eq!(cfg.keybind.clear_all, "Ctrl+Shift+Delete");
}

#[test]
fn default_ignore_apps_include_keepassxc_and_1password() {
    let cfg = Config::default();
    let apps = &cfg.ignore.apps;
    assert!(
        apps.iter()
            .any(|a| a.contains("keepassxc") || a.contains("KeePassXC")),
        "default apps should include KeePassXC: {apps:?}"
    );
    assert!(
        apps.iter()
            .any(|a| a.contains("1password") || a.contains("1Password")),
        "default apps should include 1Password: {apps:?}"
    );
}

#[test]
fn default_ignore_patterns_include_sk_and_ghp() {
    let cfg = Config::default();
    let patterns = &cfg.ignore.patterns;
    assert!(
        patterns.iter().any(|p| p.starts_with(r"^sk-")),
        "default patterns should include sk- (OpenAI key): {patterns:?}"
    );
    assert!(
        patterns.iter().any(|p| p.starts_with(r"^ghp_")),
        "default patterns should include ghp_ (GitHub token): {patterns:?}"
    );
}

#[test]
fn default_ignore_respect_sensitive_hints_is_true() {
    let cfg = Config::default();
    assert!(cfg.ignore.respect_sensitive_hints);
}

#[test]
fn load_or_default_returns_default_on_missing_file() {
    let cfg = Config::load_or_default(Err(NixClipError::Io("file not found".to_string())));
    assert!(cfg.general.max_entries > 0);
}

#[test]
fn config_path_ends_with_config_toml() {
    let p = PathBuf::from(Config::config_path());
    assert_eq!(p.file_name().and_then(|n| n.to_str()), Some("config.toml"));
}

#[test]
fn db_path_ends_with_nixclip_db() {
    let p = PathBuf::from(Config::db_path());
    assert_eq!(p.file_name().and_then(|n| n.to_str()), Some("nixclip.db"));
}

#[test]
fn blob_dir_ends_with_blobs() {
    let p = PathBuf::from(Config::blob_dir());
    assert_eq!(p.file_name().and_then(|n| n.to_str()), Some("blobs"));
}

#[test]
fn socket_path_ends_with_nixclip_sock() {
    let p = PathBuf::from(Config::socket_path());
    assert_eq!(p.file_name().and_then(|n| n.to_str()), Some("nixclip.sock"));
}

#[test]
fn config_ephemeral_ttl_hours_default_is_24() {
    let config = Config::default();
    assert_eq!(
        config.general.ephemeral_ttl_hours, 24,
        "default ephemeral_ttl_hours should be 24"
    );
}

#[test]
fn directories_whose_names_are_not_text_are_refused() {
    assert_eq!(named_directory(Some(Ok("/a".to_string()))), Some("/a".to_string()));
    assert_eq!(named_directory(Some(Err(()))), None);
    assert_eq!(named_directory(None), None);
}

#[test]
fn runtime_paths_are_absolute() {
    assert!(Config::runtime_dir().starts_with('/'));
    assert_eq!(
        PathBuf::from(Config::socket_path()),
        PathBuf::from(Config::runtime_dir()).join("nixclip.sock")
    );
}
