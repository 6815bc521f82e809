//! The actions of the popup: what is asked of the daemon, and what follows.

use vstd::prelude::*;

use super::query::empty_message;
use super::query::empty_text;
use super::query::connection_message;
use super::query::connection_text;
use super::query::QueryState;
use super::query::POPUP_LIMIT;
use crate::config::Config;
use crate::ipc::ClientMessage;
use crate::ipc::PROTOCOL_VERSION;
use crate::text::same_text;
use crate::types::class_name;
use crate::types::optional_text;
use crate::types::EntryId;
use crate::types::EntrySummary;
use crate::types::RestoreMode;

verus! {

// ---------------------------------------------------------------------------
// Requests
// ---------------------------------------------------------------------------

/// An action that is about the selected entry, or about all of them.
#[derive(Debug, Clone, Copy, PartialEq, Eq, Structural)]
pub enum PopupAction {
    Restore(RestoreMode),
    DeleteEntry,
    TogglePin,
    ClearAll,
}

/// The message is the request of an action on the selected entry. Only clearing
/// everything needs no selection.
pub open spec fn is_request(
    message: Option<ClientMessage>,
    action: PopupAction,
    selected: Option<EntrySummary>,
) -> bool {
    match (action, selected) {
        (PopupAction::ClearAll, _) => message == Some(
            ClientMessage::ClearUnpinned { version: PROTOCOL_VERSION },
        ),
        (_, None) => message is None,
        (PopupAction::Restore(mode), Some(entry)) => message == Some(
            ClientMessage::Restore { version: PROTOCOL_VERSION, id: entry.id, mode },
        ),
        (PopupAction::DeleteEntry, Some(entry)) => match message {
            Some(ClientMessage::Delete { version, ids }) => version == PROTOCOL_VERSION && ids@
                == seq![entry.id],
            _ => false,
        },
        (PopupAction::TogglePin, Some(entry)) => message == Some(
            ClientMessage::Pin {
                version: PROTOCOL_VERSION,
                id: entry.id,
                pinned: !entry.pinned,
            },
        ),
    }
}

/// The request of an action on the selected entry.
pub fn action_request(action: PopupAction, selected: Option<&EntrySummary>) -> (r: Option<
    ClientMessage,
>)
    ensures
        is_request(
            r,
            action,
            match selected {
                Some(e) => Some(*e),
                None => None,
            },
        ),
{
    match (action, selected) {
        (PopupAction::ClearAll, _) => Some(ClientMessage::clear_unpinned()),
        (_, None) => None,
        (PopupAction::Restore(mode), Some(entry)) => Some(ClientMessage::restore(entry.id, mode)),
        (PopupAction::DeleteEntry, Some(entry)) => {
            let mut ids: Vec<EntryId> = Vec::new();
            ids.push(entry.id);
            assert(ids@ =~= seq![entry.id]);
            Some(ClientMessage::delete(ids))
        },
        (PopupAction::TogglePin, Some(entry)) => Some(
            ClientMessage::pin(entry.id, !entry.pinned),
        ),
    }
}

/// Whether the answer of a dialog is to go ahead with clearing.
pub fn confirms_clear(response: &str) -> (r: bool)
    ensures
        r == (response@ == "clear"@),
{
    same_text(response, "clear")
}

/// Whether the list is loaded again after an action: where it may have changed.
pub fn reloads_after(action: PopupAction, succeeded: bool) -> (r: bool)
    ensures
        r == (succeeded && !(action is Restore)),
{
    match action {
        PopupAction::Restore(_) => false,
        _ => succeeded,
    }
}

/// Whether the popup closes on an action, without waiting for its result.
pub fn closes_on(action: PopupAction, has_selection: bool) -> (r: bool)
    ensures
        r == (has_selection && action is Restore),
{
    match action {
        PopupAction::Restore(_) => has_selection,
        _ => false,
    }
}

/// The configuration that the settings dialog starts with: that of the daemon,
/// or one read from disk where the daemon does not give it.
pub fn settings_config(from_daemon: Option<Config>, from_disk: Config) -> (r: Config)
    ensures
        r == match from_daemon {
            Some(c) => c,
            None => from_disk,
        },
{
    match from_daemon {
        Some(c) => c,
        None => from_disk,
    }
}

// ---------------------------------------------------------------------------
// Loading
// ---------------------------------------------------------------------------

/// The query that the popup sends.
pub fn load_request(state: &QueryState) -> (r: ClientMessage)
    ensures
        match r {
            ClientMessage::Query { version, text, content_class, offset, limit } => {
                &&& version == PROTOCOL_VERSION
                &&& optional_text(text) == optional_text(state.text)
                &&& optional_text(content_class) == match state.class {
                    Some(c) => Some(class_name(c)),
                    None => None,
                }
                &&& offset == 0
                &&& limit == POPUP_LIMIT
            },
            _ => false,
        },
{
    let text = match &state.text {
        Some(t) => Some(t.clone()),
        None => None,
    };
    let class = match state.class {
        Some(c) => Some(c.as_str().to_owned()),
        None => None,
    };
    ClientMessage::query(text, class, 0, POPUP_LIMIT)
}

/// What the popup shows once it has the result of its query.
#[derive(Debug)]
pub enum Shown {
    /// A message in place of the list.
    Message(String),
    /// The entries, out of so many; and whether the filter tabs follow them.
    Entries { entries: Vec<EntrySummary>, total: u32, update_tabs: bool },
}

/// What the popup shows once it has the result of its query, or the reason why
/// there is none. The filter tabs follow the entries where no filter applies.
pub fn load_entries(
    state: &QueryState,
    result: std::result::Result<(Vec<EntrySummary>, u32), String>,
) -> (r: Shown)
    ensures
        match result {
            Err(e) => (r matches Shown::Message(m) && m@ == connection_text(e@)),
            Ok((found, count)) => if found@.len() == 0 {
                r matches Shown::Message(m) && m@ == empty_text(
                    optional_text(state.text),
                    state.class,
                )
            } else {
                r == (Shown::Entries {
                    entries: found,
                    total: count,
                    update_tabs: state.class is None,
                })
            },
        },
{
    match result {
        Err(e) => Shown::Message(connection_message(e.as_str())),
        Ok((found, count)) => if found.len() == 0 {
            Shown::Message(empty_message(state))
        } else {
            Shown::Entries { entries: found, total: count, update_tabs: state.class.is_none() }
        },
    }
}

} // verus!
