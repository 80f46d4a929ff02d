//! Key and mouse bindings of the terminal client: what an input event does.

use vstd::prelude::*;
use crate::selection::SelectionPosition;
use crate::text::{blank, is_blank};

verus! {

/// The key of a key press, as far as the bindings distinguish keys.
#[derive(Debug, Clone, Copy, PartialEq, Eq, Structural)]
pub enum Key {
    Char(char),
    Enter,
    Up,
    Down,
    Other,
}

/// A key press with its modifiers.
#[derive(Debug, Clone, Copy, PartialEq, Eq, Structural)]
pub struct KeyPress {
    pub key: Key,
    pub ctrl: bool,
    pub alt: bool,
    pub shift: bool,
    pub super_key: bool,
}

/// What a key press does.
#[derive(Debug, Clone, Copy, PartialEq, Eq, Structural)]
pub enum KeyAction {
    /// Copy the selected text to the clipboard.
    CopySelection,
    Quit,
    /// Insert a line break into the input.
    InsertNewline,
    /// Take the input and send it, unless it is blank.
    Submit,
    ScrollUp,
    ScrollDown,
    /// Hand the key to the input editor.
    Edit,
}

/// The bindings, in order of precedence: Ctrl/Super+C copies while text is
/// selected, Ctrl+C quits, Shift+Enter or Ctrl+J break the line, Enter or
/// Ctrl+M submit, Alt+Up/Down scroll, anything else edits.
pub open spec fn binding(k: KeyPress, has_selection: bool) -> KeyAction {
    if k.key == Key::Char('c') && (k.ctrl || k.super_key) && has_selection {
        KeyAction::CopySelection
    } else if k.key == Key::Char('c') && k.ctrl && !k.shift {
        KeyAction::Quit
    } else if (k.key == Key::Enter && k.shift) || (k.key == Key::Char('j') && k.ctrl) {
        KeyAction::InsertNewline
    } else if k.key == Key::Enter || (k.key == Key::Char('m') && k.ctrl) {
        KeyAction::Submit
    } else if k.key == Key::Up && k.alt {
        KeyAction::ScrollUp
    } else if k.key == Key::Down && k.alt {
        KeyAction::ScrollDown
    } else {
        KeyAction::Edit
    }
}

pub fn key_action(k: KeyPress, has_selection: bool) -> (a: KeyAction)
    ensures
        a == binding(k, has_selection),
{
    if k.key == Key::Char('c') && (k.ctrl || k.super_key) && has_selection {
        KeyAction::CopySelection
    } else if k.key == Key::Char('c') && k.ctrl && !k.shift {
        KeyAction::Quit
    } else if (k.key == Key::Enter && k.shift) || (k.key == Key::Char('j') && k.ctrl) {
        KeyAction::InsertNewline
    } else if k.key == Key::Enter || (k.key == Key::Char('m') && k.ctrl) {
        KeyAction::Submit
    } else if k.key == Key::Up && k.alt {
        KeyAction::ScrollUp
    } else if k.key == Key::Down && k.alt {
        KeyAction::ScrollDown
    } else {
        KeyAction::Edit
    }
}

/// The message to send for submitted input: none when it is blank.
pub fn outgoing_text(input: String) -> (r: Option<String>)
    ensures
        is_blank(input@) ==> r is None,
        !is_blank(input@) ==> r == Some(input),
{
    if blank(input.as_str()) {
        None
    } else {
        Some(input)
    }
}

/// A mouse event, as far as the bindings distinguish them.
#[derive(Debug, Clone, Copy, PartialEq, Eq, Structural)]
pub enum MouseKind {
    ScrollUp,
    ScrollDown,
    LeftDown,
    LeftDrag,
    LeftUp,
    RightUp,
    Other,
}

/// What a mouse event does.
#[derive(Debug, Clone, Copy, PartialEq, Eq, Structural)]
pub enum MouseAction {
    ScrollUp,
    ScrollDown,
    StartSelection(SelectionPosition),
    ClearSelection,
    ExtendSelection(SelectionPosition),
    CopySelection,
    Nothing,
}

/// The mouse bindings: the wheel scrolls; a left press starts a selection
/// on text (and clears it elsewhere); dragging or releasing the left button
/// over text moves the selection's end; releasing the right button copies
/// the selection, if any. `position` is the text position under the pointer.
pub open spec fn mouse_binding(kind: MouseKind, position: Option<SelectionPosition>, has_selection: bool) -> MouseAction {
    match kind {
        MouseKind::ScrollUp => MouseAction::ScrollUp,
        MouseKind::ScrollDown => MouseAction::ScrollDown,
        MouseKind::LeftDown => match position {
            Some(p) => MouseAction::StartSelection(p),
            None => MouseAction::ClearSelection,
        },
        MouseKind::LeftDrag | MouseKind::LeftUp => match position {
            Some(p) => MouseAction::ExtendSelection(p),
            None => MouseAction::Nothing,
        },
        MouseKind::RightUp => if has_selection {
            MouseAction::CopySelection
        } else {
            MouseAction::Nothing
        },
        MouseKind::Other => MouseAction::Nothing,
    }
}

pub fn mouse_action(kind: MouseKind, position: Option<SelectionPosition>, has_selection: bool) -> (a: MouseAction)
    ensures
        a == mouse_binding(kind, position, has_selection),
{
    match kind {
        MouseKind::ScrollUp => MouseAction::ScrollUp,
        MouseKind::ScrollDown => MouseAction::ScrollDown,
        MouseKind::LeftDown => match position {
            Some(p) => MouseAction::StartSelection(p),
            None => MouseAction::ClearSelection,
        },
        MouseKind::LeftDrag | MouseKind::LeftUp => match position {
            Some(p) => MouseAction::ExtendSelection(p),
            None => MouseAction::Nothing,
        },
        MouseKind::RightUp => if has_selection {
            MouseAction::CopySelection
        } else {
            MouseAction::Nothing
        },
        MouseKind::Other => MouseAction::Nothing,
    }
}

} // verus!
