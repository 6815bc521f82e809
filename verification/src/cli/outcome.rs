//! What the command-line client says about an answer of the daemon.

use vstd::prelude::*;

use crate::ipc::ServerMessage;
use crate::text::concat2;
use crate::text::concat3;
use crate::text::decimal;
use crate::text::decimal_text;
use crate::text::signed_decimal;
use crate::text::signed_text;
use crate::types::EntryId;
use crate::types::RestoreMode;

verus! {

/// What comes of an answer.
#[derive(Debug)]
pub enum Outcome {
    /// Say this, and succeed.
    Say(String),
    /// Say this on the error stream, and fail.
    Fail(String),
    /// An answer that the request cannot have: fail.
    Unexpected(ServerMessage),
}

/// What is said of an error that the daemon reports.
pub open spec fn daemon_error_text(message: Seq<char>) -> Seq<char> {
    "Error from daemon: "@ + message
}

/// What is said of an error that the daemon reports.
pub fn daemon_error(message: &str) -> (r: String)
    ensures
        r@ == daemon_error_text(message@),
{
    concat2("Error from daemon: ", message)
}

/// `outcome` is what comes of an answer that is expected to be an
/// acknowledgement, on which `text` is said.
pub open spec fn is_acknowledged(outcome: Outcome, reply: ServerMessage, text: Seq<char>) -> bool {
    match (reply, outcome) {
        (ServerMessage::Acknowledged { .. }, Outcome::Say(s)) => s@ == text,
        (ServerMessage::Error { message, .. }, Outcome::Fail(s)) => s@ == daemon_error_text(
            message@,
        ),
        (_, Outcome::Unexpected(m)) => {
            &&& m == reply
            &&& !(reply is Acknowledged)
            &&& !(reply is Error)
        },
        _ => false,
    }
}

fn acknowledged(reply: ServerMessage, text: String) -> (r: Outcome)
    ensures
        is_acknowledged(r, reply, text@),
{
    match reply {
        ServerMessage::Acknowledged { .. } => Outcome::Say(text),
        ServerMessage::Error { message, .. } => Outcome::Fail(daemon_error(message.as_str())),
        other => Outcome::Unexpected(other),
    }
}

/// What comes of a request to pin or unpin an entry.
pub fn pin_outcome(id: EntryId, pinned: bool, reply: ServerMessage) -> (r: Outcome)
    ensures
        is_acknowledged(
            r,
            reply,
            "Entry "@ + signed_decimal(id as int) + if pinned {
                " pinned."@
            } else {
                " unpinned."@
            },
        ),
{
    let shown = signed_text(id);
    let text = concat3(
        "Entry ",
        shown.as_str(),
        if pinned {
            " pinned."
        } else {
            " unpinned."
        },
    );
    acknowledged(reply, text)
}

/// What is said when entries were deleted.
pub open spec fn deleted_text(count: nat) -> Seq<char> {
    if count == 1 {
        "Entry deleted."@
    } else {
        decimal(count) + " entries deleted."@
    }
}

/// What comes of a request to delete `count` entries.
pub fn delete_outcome(count: usize, reply: ServerMessage) -> (r: Outcome)
    ensures
        is_acknowledged(r, reply, deleted_text(count as nat)),
{
    let text = if count == 1 {
        "Entry deleted.".to_owned()
    } else {
        let n = decimal_text(count as u64);
        concat2(n.as_str(), " entries deleted.")
    };
    acknowledged(reply, text)
}

/// What comes of a request to clear the history.
pub fn clear_outcome(include_pinned: bool, reply: ServerMessage) -> (r: Outcome)
    ensures
        is_acknowledged(
            r,
            reply,
            if include_pinned {
                "All clipboard history cleared."@
            } else {
                "Unpinned clipboard history cleared."@
            },
        ),
{
    let text = if include_pinned {
        "All clipboard history cleared.".to_owned()
    } else {
        "Unpinned clipboard history cleared.".to_owned()
    };
    acknowledged(reply, text)
}

/// What is said of a pinned entry that cannot be unpinned before clearing.
pub open spec fn unpin_error_text(id: EntryId, message: Seq<char>) -> Seq<char> {
    "Error unpinning entry "@ + signed_decimal(id as int) + ": "@ + message
}

/// Whether clearing goes on after the answer to unpinning an entry; if not,
/// what comes of it.
pub fn unpin_failure(id: EntryId, reply: ServerMessage) -> (r: Option<Outcome>)
    ensures
        match r {
            None => reply is Acknowledged,
            Some(Outcome::Fail(s)) => (reply matches ServerMessage::Error { message, .. } && s@
                == unpin_error_text(id, message@)),
            Some(Outcome::Unexpected(m)) => {
                &&& m == reply
                &&& !(reply is Acknowledged)
                &&& !(reply is Error)
            },
            Some(Outcome::Say(_)) => false,
        },
{
    match reply {
        ServerMessage::Acknowledged { .. } => None,
        ServerMessage::Error { message, .. } => {
            let shown = signed_text(id);
            let mut text = concat3("Error unpinning entry ", shown.as_str(), ": ");
            text.append(message.as_str());
            Some(Outcome::Fail(text))
        },
        other => Some(Outcome::Unexpected(other)),
    }
}

/// How an entry is restored.
pub fn paste_mode(plain: bool) -> (r: RestoreMode)
    ensures
        r == if plain {
            RestoreMode::PlainText
        } else {
            RestoreMode::Original
        },
{
    if plain {
        RestoreMode::PlainText
    } else {
        RestoreMode::Original
    }
}

/// What is said of an entry that could not be restored.
pub open spec fn paste_error_text(id: EntryId, error: Option<String>) -> Seq<char> {
    "Failed to restore entry "@ + signed_decimal(id as int) + ": "@ + match error {
        Some(e) => e@,
        None => "unknown error"@,
    }
}

/// What comes of a request to restore an entry.
pub fn paste_outcome(id: EntryId, reply: ServerMessage) -> (r: Outcome)
    ensures
        match (reply, r) {
            (ServerMessage::RestoreResult { success, error, .. }, Outcome::Say(s)) => success && s@
                == "Entry "@ + signed_decimal(id as int) + " restored to clipboard."@,
            (ServerMessage::RestoreResult { success, error, .. }, Outcome::Fail(s)) => !success
                && s@ == paste_error_text(id, error),
            (ServerMessage::Error { message, .. }, Outcome::Fail(s)) => s@ == daemon_error_text(
                message@,
            ),
            (_, Outcome::Unexpected(m)) => {
                &&& m == reply
                &&& !(reply is RestoreResult)
                &&& !(reply is Error)
            },
            _ => false,
        },
{
    match reply {
        ServerMessage::RestoreResult { success, error, .. } => {
            let shown = signed_text(id);
            if success {
                Outcome::Say(concat3("Entry ", shown.as_str(), " restored to clipboard."))
            } else {
                let mut text = concat3("Failed to restore entry ", shown.as_str(), ": ");
                match &error {
                    Some(e) => {
                        text.append(e.as_str());
                    },
                    None => {
                        text.append("unknown error");
                    },
                }
                Outcome::Fail(text)
            }
        },
        ServerMessage::Error { message, .. } => Outcome::Fail(daemon_error(message.as_str())),
        other => Outcome::Unexpected(other),
    }
}

} // verus!
