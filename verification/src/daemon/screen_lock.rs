//! Screen lock detection: which signals count, and what they change.

use vstd::prelude::*;

use crate::text::same_text;
use crate::types::optional_str;

verus! {

/// Seconds to wait before the monitor is started again.
pub const SCREEN_LOCK_RETRY_SECONDS: u64 = 15;

/// A signal that tells whether the screen is locked.
pub open spec fn announces_lock(
    is_signal: bool,
    interface: Option<Seq<char>>,
    member: Option<Seq<char>>,
    path: Option<Seq<char>>,
) -> bool {
    &&& is_signal
    &&& interface == Some("org.gnome.ScreenSaver"@)
    &&& member == Some("ActiveChanged"@)
    &&& path == Some("/org/gnome/ScreenSaver"@)
}

fn is_text(value: Option<&str>, wanted: &str) -> (r: bool)
    ensures
        r == (optional_str(value) == Some(wanted@)),
{
    match value {
        Some(v) => same_text(v, wanted),
        None => false,
    }
}

/// Whether a message announces that the screen was locked or unlocked.
pub fn is_lock_signal(
    is_signal: bool,
    interface: Option<&str>,
    member: Option<&str>,
    path: Option<&str>,
) -> (r: bool)
    ensures
        r == announces_lock(
            is_signal,
            optional_str(interface),
            optional_str(member),
            optional_str(path),
        ),
{
    is_signal && is_text(interface, "org.gnome.ScreenSaver") && is_text(member, "ActiveChanged")
        && is_text(path, "/org/gnome/ScreenSaver")
}

/// What a signal changes.
#[derive(Debug, Clone, Copy, PartialEq, Eq, Structural)]
pub enum LockChange {
    /// The screen was locked: capture pauses.
    Paused,
    /// The screen was unlocked: capture resumes.
    Resumed,
    /// Nothing changed.
    Unchanged,
}

/// What it changes that the screen is, or is no longer, locked.
pub fn lock_change(was_locked: bool, active: bool) -> (r: LockChange)
    ensures
        r == if active && !was_locked {
            LockChange::Paused
        } else if !active && was_locked {
            LockChange::Resumed
        } else {
            LockChange::Unchanged
        },
{
    if active && !was_locked {
        LockChange::Paused
    } else if !active && was_locked {
        LockChange::Resumed
    } else {
        LockChange::Unchanged
    }
}

} // verus!
