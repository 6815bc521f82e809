//! What the popup does and shows.

use vstd::prelude::*;

use crate::ipc::ClientMessage;
use crate::ipc::ServerMessage;
use crate::text::decimal;
use crate::types::optional_text;
use crate::types::ContentClass;
use crate::types::EntrySummary;
use crate::types::RestoreMode;
use crate::ui::actions::is_request;
use crate::ui::actions::PopupAction;
use crate::ui::args::has_argument;
use crate::ui::args::token_after;
use crate::ui::keys::is_control;
use crate::ui::keys::key_action;
use crate::ui::keys::tab_class;
use crate::ui::keys::Key;
use crate::ui::keys::KeyAction;
use crate::ui::keys::KeyPress;
use crate::ui::query::clamped;
use crate::ui::query::connection_text;
use crate::ui::query::empty_text;
use crate::ui::query::has_tab;
use crate::ui::query::tab_of;
use crate::ui::query::Tab;
use crate::ui::replies::is_failure;
use crate::ui::replies::Failure;
use crate::ui::rows::badge_style;
use crate::ui::rows::badge_text;
use crate::ui::rows::relative_time;

verus! {

// ---------------------------------------------------------------------------
// Keys
// ---------------------------------------------------------------------------

/// Escape closes and Enter restores, whatever else is held and wherever the
/// focus is; Enter keeps the formatting only without the shift key and only
/// where the popup was not opened to paste as plain text.
pub proof fn law_escape_and_enter(press: KeyPress, plain: bool, search_focused: bool)
    ensures
        press.key == Key::Escape <==> key_action(press, plain, search_focused) == KeyAction::Close,
        press.key == Key::Enter && !press.shift && !plain ==> key_action(
            press,
            plain,
            search_focused,
        ) == KeyAction::Restore(RestoreMode::Original),
        press.key == Key::Enter && (press.shift || plain) ==> key_action(
            press,
            plain,
            search_focused,
        ) == KeyAction::Restore(RestoreMode::PlainText),
        press.key != Key::Enter ==> !(key_action(press, plain, search_focused) is Restore),
{
}

/// With the control key held, each action has one key and no other; clearing
/// also takes the shift key.
pub proof fn law_control_keys(press: KeyPress, plain: bool, search_focused: bool)
    requires
        press.key != Key::Escape,
        press.key != Key::Enter,
    ensures
        ({
            let action = key_action(press, plain, search_focused);
            &&& action == KeyAction::DeleteEntry <==> press.ctrl && press.key == Key::BackSpace
            &&& action == KeyAction::TogglePin <==> press.ctrl && press.key == Key::LetterP
            &&& action == KeyAction::ClearAll <==> press.ctrl && press.shift && press.key
                == Key::Delete
            &&& action == KeyAction::OpenSettings <==> press.ctrl && press.key == Key::Comma
            &&& action == KeyAction::Filter(0) <==> press.ctrl && press.key == Key::Digit1
            &&& action == KeyAction::Filter(1) <==> press.ctrl && press.key == Key::Digit2
            &&& action == KeyAction::Filter(2) <==> press.ctrl && press.key == Key::Digit3
            &&& action == KeyAction::Filter(3) <==> press.ctrl && press.key == Key::Digit4
            &&& action == KeyAction::Filter(4) <==> press.ctrl && press.key == Key::Digit5
        }),
{
}

/// A key starts a search with the character that it types: only outside the
/// search field, only without the control key, and only where the character is
/// no control character.
pub proof fn law_search_by_typing(press: KeyPress, plain: bool, search_focused: bool, c: char)
    requires
        press.key != Key::Escape,
        press.key != Key::Enter,
    ensures
        key_action(press, plain, search_focused) == KeyAction::StartSearch(c) <==> !press.ctrl
            && !search_focused && press.character == Some(c) && !is_control(c),
        search_focused && !press.ctrl ==> key_action(press, plain, search_focused)
            == KeyAction::Proceed,
        is_control(c) <==> (c as u32) <= 31 || 127 <= (c as u32) <= 159,
{
}

/// The filter keys choose among the tabs in the order in which they stand.
pub proof fn law_filter_tabs(idx: int)
    ensures
        tab_class(0) is None,
        tab_class(1) == Some(ContentClass::Text),
        tab_class(2) == Some(ContentClass::Image),
        tab_class(3) == Some(ContentClass::Files),
        tab_class(4) == Some(ContentClass::Url),
        !(1 <= idx <= 4) ==> tab_class(idx) is None,
        1 <= idx <= 4 ==> tab_of(tab_class(idx)) != Tab::All,
        tab_of(tab_class(2)) == Tab::Images,
        tab_of(tab_class(3)) == Tab::Files,
        tab_of(tab_class(4)) == Tab::Links,
        tab_of(tab_class(1)) == Tab::Text,
{
}

// ---------------------------------------------------------------------------
// Tabs
// ---------------------------------------------------------------------------

/// Plain and rich text share a tab, every other class has its own, and only no
/// class at all is shown by the tab for everything.
pub proof fn law_tab_of_a_class(a: ContentClass, b: ContentClass)
    ensures
        tab_of(None) == Tab::All,
        tab_of(Some(a)) != Tab::All,
        tab_of(Some(ContentClass::Text)) == Tab::Text,
        tab_of(Some(ContentClass::Image)) == Tab::Images,
        tab_of(Some(ContentClass::Files)) == Tab::Files,
        tab_of(Some(ContentClass::Url)) == Tab::Links,
        tab_of(Some(a)) == tab_of(Some(b)) <==> a == b || ((a == ContentClass::Text || a
            == ContentClass::RichText) && (b == ContentClass::Text || b
            == ContentClass::RichText)),
{
}

/// An entry brings the tab of its class with it, and takes no other one away.
pub proof fn law_entry_brings_its_tab(entries: Seq<EntrySummary>, one: EntrySummary, tab: Tab)
    ensures
        has_tab(entries.push(one), tab) <==> has_tab(entries, tab) || tab_of(
            Some(one.content_class),
        ) == tab,
        !has_tab(Seq::<EntrySummary>::empty(), tab),
{
    let more = entries.push(one);
    let n = entries.len() as int;
    assert(more[n] == one);
    if has_tab(entries, tab) {
        let i = choose|i: int|
            0 <= i < n && tab_of(Some((#[trigger] entries[i]).content_class)) == tab;
        assert(more[i] == entries[i]);
    }
    if has_tab(more, tab) {
        let i = choose|i: int|
            0 <= i < more.len() && tab_of(Some((#[trigger] more[i]).content_class)) == tab;
        if i < n {
            assert(more[i] == entries[i]);
        }
    }
}

// ---------------------------------------------------------------------------
// Rows
// ---------------------------------------------------------------------------

/// A time is told in minutes from a minute on, in hours from an hour on, in
/// days from a day on and in weeks from thirty days on; before that, and where
/// a time is ahead or not known, it has just happened.
pub proof fn law_relative_time(now_ms: int, millis: int)
    requires
        now_ms != 0,
        millis != 0,
    ensures
        ({
            let age = now_ms - millis;
            &&& age < 60_000 ==> relative_time(now_ms, millis) == "just now"@
            &&& 60_000 <= age < 3_600_000 ==> relative_time(now_ms, millis) == decimal(
                (age / 60_000) as nat,
            ) + "m"@
            &&& 3_600_000 <= age < 86_400_000 ==> relative_time(now_ms, millis) == decimal(
                (age / 3_600_000) as nat,
            ) + "h"@
            &&& 86_400_000 <= age < 2_592_000_000 ==> relative_time(now_ms, millis) == decimal(
                (age / 86_400_000) as nat,
            ) + "d"@
            &&& 2_592_000_000 <= age ==> relative_time(now_ms, millis) == decimal(
                (age / 604_800_000) as nat,
            ) + "w"@
        }),
        relative_time(0, millis) == "just now"@,
        relative_time(now_ms, 0) == "just now"@,
{
    let age = now_ms - millis;
    assert((age / 1000) / 60 == age / 60_000);
    assert((age / 1000) / 3600 == age / 3_600_000);
    assert((age / 1000) / 86400 == age / 86_400_000);
    assert((age / 1000) / 604800 == age / 604_800_000);
}

/// Each class has its own badge.
pub proof fn law_badges(class: ContentClass)
    ensures
        class == ContentClass::Text <==> badge_text(class) == "TXT"@,
        class == ContentClass::RichText <==> badge_text(class) == "HTML"@,
        class == ContentClass::Image <==> badge_text(class) == "IMG"@,
        class == ContentClass::Files <==> badge_text(class) == "FILE"@,
        class == ContentClass::Url <==> badge_text(class) == "URL"@,
        badge_style(class) == "badge-"@ + crate::types::class_name(class),
{
    reveal_strlit("TXT");
    reveal_strlit("HTML");
    reveal_strlit("IMG");
    reveal_strlit("FILE");
    reveal_strlit("URL");
    assert("TXT"@[0] == 'T' && "HTML"@[0] == 'H' && "IMG"@[0] == 'I');
    assert("FILE"@[0] == 'F' && "URL"@[0] == 'U');
    reveal_strlit("badge-");
    reveal_strlit("text");
    reveal_strlit("richtext");
    reveal_strlit("image");
    reveal_strlit("files");
    reveal_strlit("url");
    reveal_strlit("badge-text");
    reveal_strlit("badge-richtext");
    reveal_strlit("badge-image");
    reveal_strlit("badge-files");
    reveal_strlit("badge-url");
    assert("badge-"@ + "text"@ =~= "badge-text"@);
    assert("badge-"@ + "richtext"@ =~= "badge-richtext"@);
    assert("badge-"@ + "image"@ =~= "badge-image"@);
    assert("badge-"@ + "files"@ =~= "badge-files"@);
    assert("badge-"@ + "url"@ =~= "badge-url"@);
}

/// A number is brought into a range by as little as possible.
pub proof fn law_clamped(n: int, low: int, high: int)
    requires
        low <= high,
    ensures
        low <= clamped(n, low, high) <= high,
        low <= n <= high ==> clamped(n, low, high) == n,
        n <= low ==> clamped(n, low, high) == low,
        n >= high ==> clamped(n, low, high) == high,
{
}

/// Where nothing is found, a search is named, a filter is spoken of, and only
/// without either is the history empty.
pub proof fn law_nothing_found(text: Seq<char>, class: Option<ContentClass>, error: Seq<char>)
    ensures
        empty_text(Some(text), class) == "No matches for '"@ + text
            + "'. Try a different search."@,
        class is Some ==> empty_text(None, class)
            == "No clipboard history for the selected filter."@,
        empty_text(None, None) == "No clipboard history yet.\nCopy something to get started."@,
        connection_text(error)
            == "Cannot connect to nixclipd.\nIs the daemon running?\n\nRun 'nixclip doctor' for diagnostics.\n\nError: "@
            + error,
{
}

// ---------------------------------------------------------------------------
// Requests
// ---------------------------------------------------------------------------

/// What the popup asks of the daemon concerns the selected entry and no other;
/// pinning turns into its opposite, and without a selection only clearing is
/// asked for.
pub proof fn law_popup_requests(
    message: Option<ClientMessage>,
    action: PopupAction,
    selected: Option<EntrySummary>,
)
    requires
        is_request(message, action, selected),
    ensures
        message is None <==> selected is None && action != PopupAction::ClearAll,
        message is Some ==> message->Some_0.carried_version() == 1,
        action == PopupAction::ClearAll ==> message is Some && message->Some_0 is ClearUnpinned,
        match (action, selected) {
            (PopupAction::Restore(wanted), Some(entry)) => (message matches Some(
                ClientMessage::Restore { id, mode, .. },
            ) && id == entry.id && mode == wanted),
            (PopupAction::DeleteEntry, Some(entry)) => (message matches Some(
                ClientMessage::Delete { ids, .. },
            ) && ids@.len() == 1 && ids@[0] == entry.id),
            (PopupAction::TogglePin, Some(entry)) => (message matches Some(
                ClientMessage::Pin { id, pinned, .. },
            ) && id == entry.id && pinned != entry.pinned),
            _ => true,
        },
{
}

/// An answer that is missing fails with the reason, an error with its message,
/// and any other one as it is.
pub proof fn law_failed_answer(
    failure: Failure,
    answer: std::result::Result<ServerMessage, String>,
)
    requires
        is_failure(failure, answer),
    ensures
        match answer {
            Err(e) => failure == Failure::Message(e),
            Ok(ServerMessage::Error { message, .. }) => failure == Failure::Message(message),
            Ok(other) => failure == Failure::Unexpected(other),
        },
{
}

// ---------------------------------------------------------------------------
// Arguments
// ---------------------------------------------------------------------------

/// An argument is looked for behind the name of the program, at every place.
pub proof fn law_has_argument(args: Seq<Option<String>>, one: Option<String>, wanted: Seq<char>)
    requires
        args.len() > 0,
    ensures
        has_argument(args.push(one), wanted) <==> has_argument(args, wanted) || optional_text(one)
            == Some(wanted),
        !has_argument(seq![one], wanted),
{
    let more = args.push(one);
    let n = args.len() as int;
    assert(more[n] == one);
    if has_argument(args, wanted) {
        let i = choose|i: int| 1 <= i < n && optional_text(#[trigger] args[i]) == Some(wanted);
        assert(more[i] == args[i]);
    }
    if has_argument(more, wanted) {
        let i = choose|i: int|
            1 <= i < more.len() && optional_text(#[trigger] more[i]) == Some(wanted);
        if i < n {
            assert(more[i] == args[i]);
        }
    }
}

/// The activation token is the argument behind the first `--activation-token`,
/// and there is none without that argument or behind it.
pub proof fn law_activation_token(args: Seq<Option<String>>, start: int, i: int)
    requires
        0 <= start <= i <= args.len(),
        forall|j: int|
            start <= j < i ==> optional_text(#[trigger] args[j]) != Some("--activation-token"@),
    ensures
        i == args.len() ==> token_after(args, start) is None,
        i < args.len() - 1 && optional_text(args[i]) == Some("--activation-token"@) ==> token_after(
            args,
            start,
        ) == optional_text(args[i + 1]),
        i == args.len() - 1 ==> token_after(args, start) is None,
    decreases i - start,
{
    if start < i {
        law_activation_token(args, start + 1, i);
    } else if i == args.len() - 1 {
        assert(token_after(args, i + 1) is None);
    }
}

} // verus!
