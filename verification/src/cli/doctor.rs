//! Diagnostic checks: what is made of what was found.

use vstd::prelude::*;

use crate::error::NixClipError;
use crate::text::concat2;
use crate::text::concat3;
use crate::types::optional_text;

verus! {

/// Result of a single diagnostic check.
#[derive(Debug, Clone)]
pub struct Check {
    pub label: String,
    pub status: CheckStatus,
    pub detail: Option<String>,
}

/// How a check came out.
#[derive(Debug, Clone, Copy, PartialEq, Eq, Structural)]
pub enum CheckStatus {
    Passed,
    Warning,
    Error,
}

/// How a status is shown.
pub open spec fn status_symbol(status: CheckStatus) -> Seq<char> {
    match status {
        CheckStatus::Passed => "OK"@,
        CheckStatus::Warning => "WARN"@,
        CheckStatus::Error => "FAIL"@,
    }
}

impl CheckStatus {
    /// How the status is shown.
    pub fn symbol(&self) -> (r: &'static str)
        ensures
            r@ == status_symbol(*self),
    {
        match self {
            CheckStatus::Passed => "OK",
            CheckStatus::Warning => "WARN",
            CheckStatus::Error => "FAIL",
        }
    }
}

/// The check has this label, status and detail.
pub open spec fn is_check(c: Check, label: Seq<char>, status: CheckStatus, detail: Seq<char>) -> bool {
    c.label@ == label && c.status == status && optional_text(c.detail) == Some(detail)
}

fn check(label: &str, status: CheckStatus, detail: String) -> (r: Check)
    ensures
        is_check(r, label@, status, detail@),
{
    Check { label: label.to_owned(), status, detail: Some(detail) }
}

/// A check that only reports something.
pub fn check_value(label: &str, value: &str) -> (r: Check)
    ensures
        is_check(r, label@, CheckStatus::Passed, value@),
{
    check(label, CheckStatus::Passed, value.to_owned())
}

/// Whether the daemon answers at its socket.
pub fn check_daemon(socket_path: &str, failure: Option<&str>) -> (r: Check)
    ensures
        match failure {
            None => is_check(
                r,
                "Daemon"@,
                CheckStatus::Passed,
                "running ("@ + socket_path@ + ")"@,
            ),
            Some(e) => is_check(
                r,
                "Daemon"@,
                CheckStatus::Error,
                "not running at "@ + socket_path@ + " — "@ + e@ + "\n       Start with: nixclipd"@,
            ),
        },
{
    match failure {
        None => check("Daemon", CheckStatus::Passed, concat3("running (", socket_path, ")")),
        Some(e) => {
            let mut detail = concat3("not running at ", socket_path, " — ");
            detail.append(e);
            detail.append("\n       Start with: nixclipd");
            check("Daemon", CheckStatus::Error, detail)
        },
    }
}

/// Whether the runtime directory is set and exists.
pub fn check_runtime_dir(dir: Option<&str>, exists_there: bool) -> (r: Check)
    ensures
        match dir {
            Some(d) => if exists_there {
                is_check(r, "XDG_RUNTIME_DIR"@, CheckStatus::Passed, d@)
            } else {
                is_check(
                    r,
                    "XDG_RUNTIME_DIR"@,
                    CheckStatus::Warning,
                    "set to '"@ + d@ + "' but path does not exist"@,
                )
            },
            None => is_check(
                r,
                "XDG_RUNTIME_DIR"@,
                CheckStatus::Warning,
                "not set; falling back to /tmp"@,
            ),
        },
{
    match dir {
        Some(d) => if exists_there {
            check("XDG_RUNTIME_DIR", CheckStatus::Passed, d.to_owned())
        } else {
            check(
                "XDG_RUNTIME_DIR",
                CheckStatus::Warning,
                concat3("set to '", d, "' but path does not exist"),
            )
        },
        None => check(
            "XDG_RUNTIME_DIR",
            CheckStatus::Warning,
            "not set; falling back to /tmp".to_owned(),
        ),
    }
}

/// Whether the configuration file, where there is one, is valid.
pub fn check_config_file(path: &str, exists_there: bool, failure: Option<&NixClipError>) -> (r:
    Check)
    ensures
        if !exists_there {
            is_check(
                r,
                "Config file"@,
                CheckStatus::Passed,
                "not found at "@ + path@ + " (defaults will be used)"@,
            )
        } else {
            match failure {
                None => is_check(
                    r,
                    "Config file"@,
                    CheckStatus::Passed,
                    "valid ("@ + path@ + ")"@,
                ),
                Some(e) => is_check(
                    r,
                    "Config file"@,
                    CheckStatus::Error,
                    "invalid TOML at "@ + path@ + ": "@ + e.text(),
                ),
            }
        },
{
    if !exists_there {
        return check(
            "Config file",
            CheckStatus::Passed,
            concat3("not found at ", path, " (defaults will be used)"),
        );
    }
    match failure {
        None => check("Config file", CheckStatus::Passed, concat3("valid (", path, ")")),
        Some(e) => {
            let why = e.message();
            let mut detail = concat3("invalid TOML at ", path, ": ");
            detail.append(why.as_str());
            check("Config file", CheckStatus::Error, detail)
        },
    }
}

/// Whether the database, where there is one, can be opened.
pub fn check_db_file(path: &str, exists_there: bool, failure: Option<&str>) -> (r: Check)
    ensures
        if !exists_there {
            is_check(
                r,
                "Database"@,
                CheckStatus::Passed,
                "not found at "@ + path@ + " (will be created on first run)"@,
            )
        } else {
            match failure {
                None => is_check(
                    r,
                    "Database"@,
                    CheckStatus::Passed,
                    "readable ("@ + path@ + ")"@,
                ),
                Some(e) => is_check(
                    r,
                    "Database"@,
                    CheckStatus::Error,
                    "cannot open "@ + path@ + ": "@ + e@,
                ),
            }
        },
{
    if !exists_there {
        return check(
            "Database",
            CheckStatus::Passed,
            concat3("not found at ", path, " (will be created on first run)"),
        );
    }
    match failure {
        None => check("Database", CheckStatus::Passed, concat3("readable (", path, ")")),
        Some(e) => {
            let mut detail = concat3("cannot open ", path, ": ");
            detail.append(e);
            check("Database", CheckStatus::Error, detail)
        },
    }
}

/// What was found of the blob directory.
#[derive(Debug, Clone)]
pub enum BlobDirState {
    /// There is none.
    Missing,
    /// It cannot be looked at, for this reason.
    Unknown(String),
    /// There is something else in its place.
    NotADirectory,
    /// It cannot be written to, for this reason.
    NotWritable(String),
    /// It can be read and written.
    Writable,
}

/// Whether the blob directory, where there is one, can be used.
pub fn check_blob_dir(path: &str, state: &BlobDirState) -> (r: Check)
    ensures
        match *state {
            BlobDirState::Missing => is_check(
                r,
                "Blob directory"@,
                CheckStatus::Passed,
                "not found at "@ + path@ + " (will be created on first run)"@,
            ),
            BlobDirState::Unknown(e) => is_check(
                r,
                "Blob directory"@,
                CheckStatus::Error,
                "cannot stat "@ + path@ + ": "@ + e@,
            ),
            BlobDirState::NotADirectory => is_check(
                r,
                "Blob directory"@,
                CheckStatus::Error,
                path@ + " exists but is not a directory"@,
            ),
            BlobDirState::NotWritable(e) => is_check(
                r,
                "Blob directory"@,
                CheckStatus::Warning,
                "not writable at "@ + path@ + ": "@ + e@,
            ),
            BlobDirState::Writable => is_check(
                r,
                "Blob directory"@,
                CheckStatus::Passed,
                "readable + writable ("@ + path@ + ")"@,
            ),
        },
{
    match state {
        BlobDirState::Missing => check(
            "Blob directory",
            CheckStatus::Passed,
            concat3("not found at ", path, " (will be created on first run)"),
        ),
        BlobDirState::Unknown(e) => {
            let mut detail = concat3("cannot stat ", path, ": ");
            detail.append(e.as_str());
            check("Blob directory", CheckStatus::Error, detail)
        },
        BlobDirState::NotADirectory => check(
            "Blob directory",
            CheckStatus::Error,
            concat2(path, " exists but is not a directory"),
        ),
        BlobDirState::NotWritable(e) => {
            let mut detail = concat3("not writable at ", path, ": ");
            detail.append(e.as_str());
            check("Blob directory", CheckStatus::Warning, detail)
        },
        BlobDirState::Writable => check(
            "Blob directory",
            CheckStatus::Passed,
            concat3("readable + writable (", path, ")"),
        ),
    }
}

/// Some check came out with a status.
pub open spec fn any_status(checks: Seq<Check>, status: CheckStatus) -> bool {
    exists|i: int| 0 <= i < checks.len() && (#[trigger] checks[i]).status == status
}

/// What is said of all checks together.
pub open spec fn verdict(checks: Seq<Check>) -> Seq<char> {
    if any_status(checks, CheckStatus::Error) {
        "One or more checks failed. Run `journalctl --user -u nixclipd` for daemon logs."@
    } else if any_status(checks, CheckStatus::Warning) {
        "Some warnings detected. nixclip may work with reduced functionality."@
    } else {
        "All checks passed."@
    }
}

fn has_status(checks: &Vec<Check>, status: CheckStatus) -> (r: bool)
    ensures
        r == any_status(checks@, status),
{
    let mut i: usize = 0;
    while i < checks.len()
        invariant
            i <= checks@.len(),
            forall|j: int| 0 <= j < i ==> (#[trigger] checks@[j]).status != status,
        decreases checks@.len() - i,
    {
        if checks[i].status == status {
            return true;
        }
        i += 1;
    }
    false
}

/// What is said of all checks together.
pub fn summary(checks: &Vec<Check>) -> (r: &'static str)
    ensures
        r@ == verdict(checks@),
{
    if has_status(checks, CheckStatus::Error) {
        "One or more checks failed. Run `journalctl --user -u nixclipd` for daemon logs."
    } else if has_status(checks, CheckStatus::Warning) {
        "Some warnings detected. nixclip may work with reduced functionality."
    } else {
        "All checks passed."
    }
}

/// The line of a check: its status, label and detail.
pub open spec fn check_line_text(c: Check) -> Seq<char> {
    "["@ + padded_symbol(c.status) + "] "@ + c.label@ + match c.detail {
        Some(d) => "  "@ + d@,
        None => Seq::<char>::empty(),
    }
}

/// A status, filled with spaces to four characters.
pub open spec fn padded_symbol(status: CheckStatus) -> Seq<char> {
    match status {
        CheckStatus::Passed => "OK  "@,
        CheckStatus::Warning => "WARN"@,
        CheckStatus::Error => "FAIL"@,
    }
}

/// The line of a check.
pub fn check_line(c: &Check) -> (r: String)
    ensures
        r@ == check_line_text(*c),
{
    let symbol = match c.status {
        CheckStatus::Passed => "OK  ",
        CheckStatus::Warning => "WARN",
        CheckStatus::Error => "FAIL",
    };
    let mut line = concat3("[", symbol, "] ");
    line.append(c.label.as_str());
    let detail = match &c.detail {
        Some(d) => concat2("  ", d.as_str()),
        None => String::new(),
    };
    line.append(detail.as_str());
    line
}

} // verus!
