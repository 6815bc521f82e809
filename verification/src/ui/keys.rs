//! What a key does in the popup.

use vstd::prelude::*;

use crate::types::ContentClass;
use crate::types::RestoreMode;

verus! {

/// A key that may have a meaning of its own.
#[derive(Debug, Clone, Copy, PartialEq, Eq, Structural)]
pub enum Key {
    Escape,
    /// Return, or Enter on the keypad.
    Enter,
    BackSpace,
    /// The letter P, in either case.
    LetterP,
    Delete,
    Comma,
    Digit1,
    Digit2,
    Digit3,
    Digit4,
    Digit5,
    Other,
}

/// A key press: the key, the character that it types and the modifiers.
#[derive(Debug, Clone, Copy, PartialEq, Eq, Structural)]
pub struct KeyPress {
    pub key: Key,
    pub character: Option<char>,
    pub ctrl: bool,
    pub shift: bool,
}

/// What a key press does.
#[derive(Debug, Clone, Copy, PartialEq, Eq, Structural)]
pub enum KeyAction {
    Close,
    Restore(RestoreMode),
    DeleteEntry,
    TogglePin,
    ClearAll,
    OpenSettings,
    /// Choose the filter tab at this position.
    Filter(i32),
    /// Move to the search field and type this character.
    StartSearch(char),
    /// Nothing here: the key goes where it would have gone.
    Proceed,
}

/// A control character: one that types nothing.
pub open spec fn is_control(c: char) -> bool {
    (c as u32) < 0x20 || 0x7f <= (c as u32) < 0xa0
}

/// What a key press does, given whether the popup was opened to paste as plain
/// text and whether the search field has the focus.
pub open spec fn key_action(press: KeyPress, plain: bool, search_focused: bool) -> KeyAction {
    if press.key == Key::Escape {
        KeyAction::Close
    } else if press.key == Key::Enter {
        if press.shift || plain {
            KeyAction::Restore(RestoreMode::PlainText)
        } else {
            KeyAction::Restore(RestoreMode::Original)
        }
    } else if press.ctrl {
        match press.key {
            Key::BackSpace => KeyAction::DeleteEntry,
            Key::LetterP => KeyAction::TogglePin,
            Key::Delete => if press.shift {
                KeyAction::ClearAll
            } else {
                KeyAction::Proceed
            },
            Key::Comma => KeyAction::OpenSettings,
            Key::Digit1 => KeyAction::Filter(0),
            Key::Digit2 => KeyAction::Filter(1),
            Key::Digit3 => KeyAction::Filter(2),
            Key::Digit4 => KeyAction::Filter(3),
            Key::Digit5 => KeyAction::Filter(4),
            _ => KeyAction::Proceed,
        }
    } else if !search_focused && press.character is Some && !is_control(
        press.character->Some_0,
    ) {
        KeyAction::StartSearch(press.character->Some_0)
    } else {
        KeyAction::Proceed
    }
}

fn types_nothing(c: char) -> (r: bool)
    ensures
        r == is_control(c),
{
    let n: u32 = c as u32;
    n < 0x20 || (0x7f <= n && n < 0xa0)
}

/// What a key press does.
pub fn on_key(press: KeyPress, plain: bool, search_focused: bool) -> (r: KeyAction)
    ensures
        r == key_action(press, plain, search_focused),
{
    match press.key {
        Key::Escape => {
            return KeyAction::Close;
        },
        Key::Enter => {
            if press.shift || plain {
                return KeyAction::Restore(RestoreMode::PlainText);
            }
            return KeyAction::Restore(RestoreMode::Original);
        },
        _ => {},
    }
    if press.ctrl {
        return match press.key {
            Key::BackSpace => KeyAction::DeleteEntry,
            Key::LetterP => KeyAction::TogglePin,
            Key::Delete => if press.shift {
                KeyAction::ClearAll
            } else {
                KeyAction::Proceed
            },
            Key::Comma => KeyAction::OpenSettings,
            Key::Digit1 => KeyAction::Filter(0),
            Key::Digit2 => KeyAction::Filter(1),
            Key::Digit3 => KeyAction::Filter(2),
            Key::Digit4 => KeyAction::Filter(3),
            Key::Digit5 => KeyAction::Filter(4),
            _ => KeyAction::Proceed,
        };
    }
    if search_focused {
        return KeyAction::Proceed;
    }
    match press.character {
        Some(c) => if types_nothing(c) {
            KeyAction::Proceed
        } else {
            KeyAction::StartSearch(c)
        },
        None => KeyAction::Proceed,
    }
}

/// The content class of the filter tab at a position; none for the first one,
/// which shows everything.
pub open spec fn tab_class(idx: int) -> Option<ContentClass> {
    if idx == 1 {
        Some(ContentClass::Text)
    } else if idx == 2 {
        Some(ContentClass::Image)
    } else if idx == 3 {
        Some(ContentClass::Files)
    } else if idx == 4 {
        Some(ContentClass::Url)
    } else {
        None
    }
}

/// The content class of the filter tab at a position.
pub fn filter_class(idx: i32) -> (r: Option<ContentClass>)
    ensures
        r == tab_class(idx as int),
{
    match idx {
        1 => Some(ContentClass::Text),
        2 => Some(ContentClass::Image),
        3 => Some(ContentClass::Files),
        4 => Some(ContentClass::Url),
        _ => None,
    }
}

/// Any character that is typed outside the search field starts a search, with
/// or without the shift key held.
pub proof fn law_typing_starts_a_search(press: KeyPress, plain: bool)
    requires
        press.key != Key::Escape,
        press.key != Key::Enter,
        !press.ctrl,
        press.character is Some,
        !is_control(press.character->Some_0),
    ensures
        key_action(press, plain, false) == KeyAction::StartSearch(press.character->Some_0),
{
}

/// Opened to paste as plain text, the popup never restores the formatting; and
/// entries are deleted, pinned or cleared only with the control key held.
pub proof fn law_changes_need_control(press: KeyPress, plain: bool, search_focused: bool)
    ensures
        plain ==> key_action(press, plain, search_focused) != KeyAction::Restore(
            RestoreMode::Original,
        ),
        !press.ctrl ==> {
            let action = key_action(press, plain, search_focused);
            &&& action != KeyAction::DeleteEntry
            &&& action != KeyAction::TogglePin
            &&& action != KeyAction::ClearAll
        },
{
}

} // verus!
