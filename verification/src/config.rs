//! The configuration: its sections, its defaults and where its files live.

use vstd::prelude::*;

use crate::error::Result;
use crate::text::concat2;
use crate::text::concat3;
use crate::text::texts;
use crate::text::to_chars;
use crate::types::optional_text;

verus! {

// ---------------------------------------------------------------------------
// Retention
// ---------------------------------------------------------------------------

/// How long an entry is kept after it was last seen.
#[derive(Debug, Clone, Copy, PartialEq, Eq, Structural)]
pub enum Retention {
    Days7,
    Days30,
    Months3,
    Months6,
    Year1,
    Unlimited,
}

/// A whole number of days.
#[derive(Debug, Clone, Copy, PartialEq, Eq, Structural)]
pub struct Duration {
    days: u32,
}

/// `chrono::Duration::days` followed by `num_milliseconds`: a day has
/// 86,400,000 milliseconds. The number of days is small enough that the
/// duration can be represented.
#[verifier::external_body]
fn days_to_milliseconds(days: i64) -> (r: i64)
    requires
        -106_751_991_167 <= days <= 106_751_991_167,
    ensures
        r == days * 86_400_000,
{
    chrono::Duration::days(days).num_milliseconds()
}

impl Duration {
    /// The number of days in this duration.
    pub closed spec fn day_count(&self) -> nat {
        self.days as nat
    }

    /// The duration of so many days.
    pub fn days(days: u32) -> (r: Duration)
        ensures
            r.day_count() == days,
    {
        Duration { days }
    }

    /// The number of days in this duration.
    pub fn num_days(&self) -> (r: i64)
        ensures
            r == self.day_count(),
            0 <= r <= u32::MAX,
    {
        self.days as i64
    }

    /// The number of milliseconds in this duration.
    pub fn num_milliseconds(&self) -> (r: i64)
        ensures
            r == self.day_count() * 86_400_000,
    {
        days_to_milliseconds(self.days as i64)
    }
}

/// The number of days that a retention stands for, where it has an end.
pub open spec fn retention_days(retention: Retention) -> Option<nat> {
    match retention {
        Retention::Days7 => Some(7),
        Retention::Days30 => Some(30),
        Retention::Months3 => Some(90),
        Retention::Months6 => Some(180),
        Retention::Year1 => Some(365),
        Retention::Unlimited => None,
    }
}

/// The name of a retention, as written in the configuration file.
pub open spec fn retention_name(retention: Retention) -> Seq<char> {
    match retention {
        Retention::Days7 => "7days"@,
        Retention::Days30 => "30days"@,
        Retention::Months3 => "3months"@,
        Retention::Months6 => "6months"@,
        Retention::Year1 => "1year"@,
        Retention::Unlimited => "unlimited"@,
    }
}

/// The names of two different retentions differ, so a name in a configuration
/// file stands for one retention only.
pub proof fn law_retention_names_differ(a: Retention, b: Retention)
    requires
        retention_name(a) == retention_name(b),
    ensures
        a == b,
{
    reveal_strlit("7days");
    reveal_strlit("30days");
    reveal_strlit("3months");
    reveal_strlit("6months");
    reveal_strlit("1year");
    reveal_strlit("unlimited");
    assert("7days"@[0] == '7');
    assert("1year"@[0] == '1');
    assert("30days"@[0] == '3');
    assert("3months"@[0] == '3');
    assert("6months"@[0] == '6');
    assert("3months"@.len() == 7);
    assert("30days"@.len() == 6);
}

impl Retention {
    /// How long the retention lasts; `None` where it has no end.
    pub fn to_duration(&self) -> (r: Option<Duration>)
        ensures
            match (r, retention_days(*self)) {
                (Some(d), Some(days)) => d.day_count() == days,
                (None, None) => true,
                _ => false,
            },
    {
        match self {
            Retention::Days7 => Some(Duration::days(7)),
            Retention::Days30 => Some(Duration::days(30)),
            Retention::Months3 => Some(Duration::days(90)),
            Retention::Months6 => Some(Duration::days(180)),
            Retention::Year1 => Some(Duration::days(365)),
            Retention::Unlimited => None,
        }
    }

    /// The name of the retention.
    pub fn as_str(&self) -> (r: &'static str)
        ensures
            r@ == retention_name(*self),
    {
        match self {
            Retention::Days7 => "7days",
            Retention::Days30 => "30days",
            Retention::Months3 => "3months",
            Retention::Months6 => "6months",
            Retention::Year1 => "1year",
            Retention::Unlimited => "unlimited",
        }
    }
}

impl Default for Retention {
    fn default() -> (r: Self)
        ensures
            r == Retention::Months3,
    {
        Retention::Months3
    }
}

// ---------------------------------------------------------------------------
// General settings
// ---------------------------------------------------------------------------

pub fn default_max_entries() -> (r: u32)
    ensures
        r == 1000,
{
    1000
}

pub fn default_max_blob_size_mb() -> (r: u32)
    ensures
        r == 500,
{
    500
}

pub fn default_ephemeral_ttl_hours() -> (r: u32)
    ensures
        r == 24,
{
    24
}

/// The `[general]` section.
#[derive(Debug, Clone, Copy, PartialEq, Eq, Structural)]
pub struct GeneralConfig {
    pub max_entries: u32,
    pub max_blob_size_mb: u32,
    pub retention: Retention,
    /// Time-to-live for ephemeral entries, in hours. Ephemeral entries older
    /// than this are deleted during the periodic prune pass.
    pub ephemeral_ttl_hours: u32,
}

impl Default for GeneralConfig {
    fn default() -> (r: Self)
        ensures
            r.max_entries == 1000,
            r.max_blob_size_mb == 500,
            r.retention == Retention::Months3,
            r.ephemeral_ttl_hours == 24,
    {
        GeneralConfig {
            max_entries: default_max_entries(),
            max_blob_size_mb: default_max_blob_size_mb(),
            retention: Retention::Months3,
            ephemeral_ttl_hours: default_ephemeral_ttl_hours(),
        }
    }
}

// ---------------------------------------------------------------------------
// Popup settings
// ---------------------------------------------------------------------------

pub fn default_theme() -> (r: String)
    ensures
        r@ == "auto"@,
{
    "auto".to_owned()
}

pub fn default_width() -> (r: u32)
    ensures
        r == 680,
{
    680
}

pub fn default_max_visible_entries() -> (r: u32)
    ensures
        r == 8,
{
    8
}

pub fn default_show_source_app() -> (r: bool)
    ensures
        r,
{
    true
}

pub fn default_show_content_badges() -> (r: bool)
    ensures
        r,
{
    true
}

pub fn default_position() -> (r: String)
    ensures
        r@ == "top-center"@,
{
    "top-center".to_owned()
}

/// The `[ui]` section.
#[derive(Debug, Clone)]
pub struct UiConfig {
    pub theme: String,
    pub width: u32,
    pub max_visible_entries: u32,
    pub show_source_app: bool,
    pub show_content_badges: bool,
    pub position: String,
}

impl UiConfig {
    /// Every setting of the section has its default.
    pub open spec fn is_default(&self) -> bool {
        &&& self.theme@ == "auto"@
        &&& self.width == 680
        &&& self.max_visible_entries == 8
        &&& self.show_source_app
        &&& self.show_content_badges
        &&& self.position@ == "top-center"@
    }
}

impl Default for UiConfig {
    fn default() -> (r: Self)
        ensures
            r.is_default(),
    {
        UiConfig {
            theme: default_theme(),
            width: default_width(),
            max_visible_entries: default_max_visible_entries(),
            show_source_app: default_show_source_app(),
            show_content_badges: default_show_content_badges(),
            position: default_position(),
        }
    }
}

// ---------------------------------------------------------------------------
// Key bindings
// ---------------------------------------------------------------------------

pub fn default_toggle() -> (r: String)
    ensures
        r@ == "Super+Shift+V"@,
{
    "Super+Shift+V".to_owned()
}

pub fn default_open_formatted() -> (r: String)
    ensures
        r@ == "Super+V"@,
{
    "Super+V".to_owned()
}

pub fn default_open_plain() -> (r: String)
    ensures
        r@ == "Super+Shift+V"@,
{
    "Super+Shift+V".to_owned()
}

pub fn default_restore_original() -> (r: String)
    ensures
        r@ == "Return"@,
{
    "Return".to_owned()
}

pub fn default_restore_plain() -> (r: String)
    ensures
        r@ == "Shift+Return"@,
{
    "Shift+Return".to_owned()
}

pub fn default_delete() -> (r: String)
    ensures
        r@ == "Ctrl+BackSpace"@,
{
    "Ctrl+BackSpace".to_owned()
}

pub fn default_pin() -> (r: String)
    ensures
        r@ == "Ctrl+P"@,
{
    "Ctrl+P".to_owned()
}

pub fn default_clear_all() -> (r: String)
    ensures
        r@ == "Ctrl+Shift+Delete"@,
{
    "Ctrl+Shift+Delete".to_owned()
}

/// The `[keybind]` section.
#[derive(Debug, Clone)]
pub struct KeybindConfig {
    /// The shortcut that the daemon registers to toggle the popup.
    pub toggle: String,
    /// Opens the popup; entries are pasted with their formatting.
    pub open_formatted: String,
    /// Opens the popup; entries are pasted as plain text.
    pub open_plain: String,
    pub restore_original: String,
    pub restore_plain: String,
    pub delete: String,
    pub pin: String,
    pub clear_all: String,
}

impl KeybindConfig {
    /// Every setting of the section has its default.
    pub open spec fn is_default(&self) -> bool {
        &&& self.toggle@ == "Super+Shift+V"@
        &&& self.open_formatted@ == "Super+V"@
        &&& self.open_plain@ == "Super+Shift+V"@
        &&& self.restore_original@ == "Return"@
        &&& self.restore_plain@ == "Shift+Return"@
        &&& self.delete@ == "Ctrl+BackSpace"@
        &&& self.pin@ == "Ctrl+P"@
        &&& self.clear_all@ == "Ctrl+Shift+Delete"@
    }
}

impl Default for KeybindConfig {
    fn default() -> (r: Self)
        ensures
            r.is_default(),
    {
        KeybindConfig {
            toggle: default_toggle(),
            open_formatted: default_open_formatted(),
            open_plain: default_open_plain(),
            restore_original: default_restore_original(),
            restore_plain: default_restore_plain(),
            delete: default_delete(),
            pin: default_pin(),
            clear_all: default_clear_all(),
        }
    }
}

// ---------------------------------------------------------------------------
// What is ignored
// ---------------------------------------------------------------------------

/// The applications that are ignored by default.
pub open spec fn default_apps() -> Seq<Seq<char>> {
    seq!["org.keepassxc.KeePassXC"@, "com.1password.1Password"@, "com.bitwarden.desktop"@]
}

/// The patterns that mark secrets by default.
pub open spec fn default_patterns() -> Seq<Seq<char>> {
    seq!["^sk-[a-zA-Z0-9]{48}"@, "^ghp_[a-zA-Z0-9]{36}"@]
}

pub fn default_ignore_apps() -> (r: Vec<String>)
    ensures
        texts(r@) == default_apps(),
{
    let mut r: Vec<String> = Vec::new();
    r.push("org.keepassxc.KeePassXC".to_owned());
    r.push("com.1password.1Password".to_owned());
    r.push("com.bitwarden.desktop".to_owned());
    assert(texts(r@) =~= default_apps());
    r
}

pub fn default_ignore_patterns() -> (r: Vec<String>)
    ensures
        texts(r@) == default_patterns(),
{
    let mut r: Vec<String> = Vec::new();
    r.push("^sk-[a-zA-Z0-9]{48}".to_owned());
    r.push("^ghp_[a-zA-Z0-9]{36}".to_owned());
    assert(texts(r@) =~= default_patterns());
    r
}

pub fn default_respect_sensitive_hints() -> (r: bool)
    ensures
        r,
{
    true
}

/// The `[ignore]` section.
#[derive(Debug, Clone)]
pub struct IgnoreConfig {
    pub apps: Vec<String>,
    pub patterns: Vec<String>,
    pub respect_sensitive_hints: bool,
}

impl IgnoreConfig {
    /// Every setting of the section has its default.
    pub open spec fn is_default(&self) -> bool {
        &&& texts(self.apps@) == default_apps()
        &&& texts(self.patterns@) == default_patterns()
        &&& self.respect_sensitive_hints
    }
}

impl Default for IgnoreConfig {
    fn default() -> (r: Self)
        ensures
            r.is_default(),
    {
        IgnoreConfig {
            apps: default_ignore_apps(),
            patterns: default_ignore_patterns(),
            respect_sensitive_hints: default_respect_sensitive_hints(),
        }
    }
}

// ---------------------------------------------------------------------------
// Config
// ---------------------------------------------------------------------------

/// The whole configuration.
#[derive(Debug, Clone)]
pub struct Config {
    pub general: GeneralConfig,
    pub ui: UiConfig,
    pub keybind: KeybindConfig,
    pub ignore: IgnoreConfig,
}

impl Config {
    /// Every setting has its default.
    pub open spec fn is_default(&self) -> bool {
        &&& self.general.max_entries == 1000
        &&& self.general.max_blob_size_mb == 500
        &&& self.general.retention == Retention::Months3
        &&& self.general.ephemeral_ttl_hours == 24
        &&& self.ui.is_default()
        &&& self.keybind.is_default()
        &&& self.ignore.is_default()
    }
}

impl Default for Config {
    fn default() -> (r: Self)
        ensures
            r.is_default(),
    {
        Config {
            general: GeneralConfig::default(),
            ui: UiConfig::default(),
            keybind: KeybindConfig::default(),
            ignore: IgnoreConfig::default(),
        }
    }
}

// ---------------------------------------------------------------------------
// Paths
// ---------------------------------------------------------------------------

/// A relative name appended to a directory, with one separator between them.
pub open spec fn path_join(dir: Seq<char>, name: Seq<char>) -> Seq<char> {
    if dir.len() == 0 || dir.last() == '/' {
        dir + name
    } else {
        dir + "/"@ + name
    }
}

/// A relative name appended to a directory, with one separator between them.
pub fn join_path(dir: &str, name: &str) -> (r: String)
    ensures
        r@ == path_join(dir@, name@),
{
    let chars = to_chars(dir);
    if chars.len() == 0 || chars[chars.len() - 1] == '/' {
        concat2(dir, name)
    } else {
        concat3(dir, "/", name)
    }
}

/// `dirs::config_dir`: the user's configuration directory, where the
/// environment says that there is one, as text where its name is valid UTF-8.
/// Which it is depends on the environment; it is never the empty path.
#[verifier::external_body]
fn user_config_dir() -> (r: Option<std::result::Result<String, ()>>)
    ensures
        r matches Some(Ok(dir)) ==> dir@.len() > 0,
{
    dirs::config_dir().map(|p| p.into_os_string().into_string().map_err(|_| ()))
}

/// `dirs::data_dir`: the user's data directory, where the environment says
/// that there is one, as text where its name is valid UTF-8. Which it is
/// depends on the environment; it is never the empty path.
#[verifier::external_body]
fn user_data_dir() -> (r: Option<std::result::Result<String, ()>>)
    ensures
        r matches Some(Ok(dir)) ==> dir@.len() > 0,
{
    dirs::data_dir().map(|p| p.into_os_string().into_string().map_err(|_| ()))
}

/// `dirs::runtime_dir`: the user's runtime directory, where the environment
/// says that there is one, as text where its name is valid UTF-8. Which it is
/// depends on the environment; it is always an absolute path.
#[verifier::external_body]
fn user_runtime_dir() -> (r: Option<std::result::Result<String, ()>>)
    ensures
        r matches Some(Ok(dir)) ==> dir@.len() > 0 && dir@[0] == '/',
{
    dirs::runtime_dir().map(|p| p.into_os_string().into_string().map_err(|_| ()))
}

/// A directory that the environment names, where its name is valid UTF-8. A
/// directory with any other name counts as none, so its fallback is used.
pub fn named_directory(found: Option<std::result::Result<String, ()>>) -> (r: Option<String>)
    ensures
        r == match found {
            Some(Ok(dir)) => Some(dir),
            _ => None,
        },
{
    match found {
        Some(Ok(dir)) => Some(dir),
        _ => None,
    }
}

/// `known`, or `fallback` where nothing is known.
pub open spec fn or_fallback(known: Option<Seq<char>>, fallback: Seq<char>) -> Seq<char> {
    match known {
        Some(dir) => dir,
        None => fallback,
    }
}

/// `known`, or `fallback` where nothing is known.
pub fn base_directory(known: Option<String>, fallback: &str) -> (r: String)
    ensures
        r@ == or_fallback(optional_text(known), fallback@),
{
    match known {
        Some(dir) => dir,
        None => fallback.to_owned(),
    }
}

/// The directory of this application inside a user directory.
pub fn app_directory(known: Option<String>, fallback: &str) -> (r: String)
    ensures
        r@ == path_join(or_fallback(optional_text(known), fallback@), "nixclip"@),
{
    let base = base_directory(known, fallback);
    join_path(base.as_str(), "nixclip")
}

/// A user directory that the environment may name: not the empty path.
pub open spec fn is_user_dir(base: Option<Seq<char>>) -> bool {
    base matches Some(dir) ==> dir.len() > 0
}

/// A runtime directory that the environment may name: an absolute path.
pub open spec fn is_runtime_dir(base: Option<Seq<char>>) -> bool {
    base matches Some(dir) ==> is_absolute(dir)
}

/// A path that begins at the root.
pub open spec fn is_absolute(path: Seq<char>) -> bool {
    path.len() > 0 && path[0] == '/'
}

/// The directory of this application's data.
pub open spec fn data_directory(base: Option<Seq<char>>) -> Seq<char> {
    path_join(or_fallback(base, "~/.local/share"@), "nixclip"@)
}

/// The database in a data directory.
pub open spec fn database_file(dir: Seq<char>) -> Seq<char> {
    path_join(dir, "nixclip.db"@)
}

/// The directory of the blobs in a data directory.
pub open spec fn blob_directory(dir: Seq<char>) -> Seq<char> {
    path_join(dir, "blobs"@)
}

impl Config {
    /// `$XDG_CONFIG_HOME/nixclip` (falls back to `~/.config/nixclip`).
    pub fn config_dir() -> (r: String)
        ensures
            exists|base: Option<Seq<char>>| #[trigger]
                is_user_dir(base) && r@ == path_join(
                    or_fallback(base, "~/.config"@),
                    "nixclip"@,
                ),
    {
        let known = named_directory(user_config_dir());
        assert(is_user_dir(optional_text(known)));
        app_directory(known, "~/.config")
    }

    /// `config_dir()/config.toml`
    pub fn config_path() -> (r: String)
        ensures
            exists|base: Option<Seq<char>>| #[trigger]
                is_user_dir(base) && r@ == path_join(
                    path_join(or_fallback(base, "~/.config"@), "nixclip"@),
                    "config.toml"@,
                ),
    {
        let dir = Self::config_dir();
        join_path(dir.as_str(), "config.toml")
    }

    /// `$XDG_DATA_HOME/nixclip` (falls back to `~/.local/share/nixclip`).
    pub fn data_dir() -> (r: String)
        ensures
            exists|base: Option<Seq<char>>| #[trigger]
                is_user_dir(base) && r@ == data_directory(base),
    {
        let known = named_directory(user_data_dir());
        assert(is_user_dir(optional_text(known)));
        app_directory(known, "~/.local/share")
    }

    /// `data_dir()/nixclip.db`
    pub fn db_path() -> (r: String)
        ensures
            exists|base: Option<Seq<char>>| #[trigger]
                is_user_dir(base) && r@ == database_file(data_directory(base)),
    {
        let dir = Self::data_dir();
        join_path(dir.as_str(), "nixclip.db")
    }

    /// `data_dir()/blobs`
    pub fn blob_dir() -> (r: String)
        ensures
            exists|base: Option<Seq<char>>| #[trigger]
                is_user_dir(base) && r@ == blob_directory(data_directory(base)),
    {
        let dir = Self::data_dir();
        join_path(dir.as_str(), "blobs")
    }

    /// `$XDG_RUNTIME_DIR`, or `/tmp` as fallback. It is an absolute path.
    pub fn runtime_dir() -> (r: String)
        ensures
            r@.len() > 0,
            r@[0] == '/',
            exists|base: Option<Seq<char>>| #[trigger]
                is_runtime_dir(base) && r@ == or_fallback(base, "/tmp"@),
    {
        let known = named_directory(user_runtime_dir());
        assert(is_runtime_dir(optional_text(known)));
        proof {
            reveal_strlit("/tmp");
        }
        base_directory(known, "/tmp")
    }

    /// `runtime_dir()/nixclip.sock`: an absolute path.
    pub fn socket_path() -> (r: String)
        ensures
            r@.len() > 0,
            r@[0] == '/',
            exists|base: Option<Seq<char>>| #[trigger]
                is_runtime_dir(base) && r@ == path_join(
                    or_fallback(base, "/tmp"@),
                    "nixclip.sock"@,
                ),
    {
        let dir = Self::runtime_dir();
        join_path(dir.as_str(), "nixclip.sock")
    }

    /// The configuration that was loaded, or the default where loading failed.
    pub fn load_or_default(loaded: Result<Config>) -> (r: Config)
        ensures
            match loaded {
                Ok(config) => r == config,
                Err(_) => r.is_default(),
            },
    {
        match loaded {
            Ok(config) => config,
            Err(_) => Config::default(),
        }
    }
}

// ---------------------------------------------------------------------------
// Laws of the paths
// ---------------------------------------------------------------------------

/// The last part of a path: what stands after its last separator.
pub open spec fn file_name(path: Seq<char>) -> Seq<char>
    decreases path.len(),
{
    if path.len() == 0 || path.last() == '/' {
        Seq::<char>::empty()
    } else {
        file_name(path.drop_last()).push(path.last())
    }
}

/// The path that a path lies in: what stands before its last separator.
pub open spec fn parent(path: Seq<char>) -> Seq<char> {
    path.take(path.len() - file_name(path).len() - 1)
}

proof fn lemma_file_name(before: Seq<char>, name: Seq<char>)
    requires
        before.len() == 0 || before.last() == '/',
        !name.contains('/'),
    ensures
        file_name(before + name) == name,
    decreases name.len(),
{
    let path = before + name;
    if name.len() == 0 {
        assert(path =~= before);
    } else {
        assert(path.last() == name.last());
        assert(name[name.len() - 1] == name.last());
        assert(!name.drop_last().contains('/')) by {
            if name.drop_last().contains('/') {
                let k = choose|k: int| 0 <= k < name.len() - 1 && name.drop_last()[k] == '/';
                assert(name[k] == '/');
            }
        }
        lemma_file_name(before, name.drop_last());
        assert(path.drop_last() =~= before + name.drop_last());
        assert(name =~= name.drop_last().push(name.last()));
    }
}

proof fn lemma_joined(dir: Seq<char>, name: Seq<char>)
    requires
        name.len() > 0,
        !name.contains('/'),
    ensures
        file_name(path_join(dir, name)) == name,
        dir.len() > 0 && dir.last() != '/' ==> parent(path_join(dir, name)) == dir,
        path_join(dir, name).last() == name.last(),
{
    reveal_strlit("/");
    if dir.len() == 0 || dir.last() == '/' {
        lemma_file_name(dir, name);
    } else {
        lemma_file_name(dir + "/"@, name);
        assert(path_join(dir, name).take(dir.len() as int) =~= dir);
    }
}

/// In whatever data directory, the database and the directory of the blobs
/// stand side by side, in a directory of this application's name.
pub proof fn law_database_beside_blobs(base: Option<Seq<char>>)
    ensures
        parent(database_file(data_directory(base))) == data_directory(base),
        parent(blob_directory(data_directory(base))) == data_directory(base),
        file_name(data_directory(base)) == "nixclip"@,
        file_name(database_file(data_directory(base))) == "nixclip.db"@,
        file_name(blob_directory(data_directory(base))) == "blobs"@,
{
    reveal_strlit("nixclip");
    reveal_strlit("nixclip.db");
    reveal_strlit("blobs");
    lemma_joined(or_fallback(base, "~/.local/share"@), "nixclip"@);
    lemma_joined(data_directory(base), "nixclip.db"@);
    lemma_joined(data_directory(base), "blobs"@);
}

} // verus!
