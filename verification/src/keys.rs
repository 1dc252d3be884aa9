//! What a key press does: the keyboard state turns a key into a logical key
//! and modifiers, and the binding below turns those into an editor action.

use vstd::prelude::*;
use crate::text_edit::{utf8, CursorMove};
use crate::protocol::bytes_equal;

verus! {

/// The keyboard modifiers held during a key press.
#[derive(Debug, Clone, Copy, PartialEq, Eq, Structural)]
pub struct Modifiers {
    pub shift: bool,
    pub ctrl: bool,
    pub alt: bool,
}

impl Default for Modifiers {
    fn default() -> (modifiers: Self)
        ensures
            !modifiers.shift && !modifiers.ctrl && !modifiers.alt,
    {
        Modifiers { shift: false, ctrl: false, alt: false }
    }
}

/// A key as the editor sees it.
#[derive(Debug, Clone, PartialEq, Eq)]
pub enum LogicalKey {
    /// A key that types text.
    Character(String),
    Escape,
    Delete,
    Backspace,
    Enter,
    ArrowLeft,
    ArrowRight,
    Home,
    End,
    Other,
}

/// A key press with the modifiers held.
#[derive(Debug, Clone, PartialEq, Eq)]
pub struct KeyChord {
    pub key: LogicalKey,
    pub modifiers: Modifiers,
}

/// The X keysym of the Escape key.
pub const KEY_ESCAPE: u32 = 0xff1b;

/// The X keysym of the Delete key.
pub const KEY_DELETE: u32 = 0xffff;

/// The X keysym of the BackSpace key.
pub const KEY_BACKSPACE: u32 = 0xff08;

/// The X keysym of the Return key.
pub const KEY_RETURN: u32 = 0xff0d;

/// The X keysym of the keypad's Enter key.
pub const KEY_KP_ENTER: u32 = 0xff8d;

/// The X keysym of the Left arrow key.
pub const KEY_LEFT: u32 = 0xff51;

/// The X keysym of the Right arrow key.
pub const KEY_RIGHT: u32 = 0xff53;

/// The X keysym of the Home key.
pub const KEY_HOME: u32 = 0xff50;

/// The X keysym of the End key.
pub const KEY_END: u32 = 0xff57;

/// The logical key of a keysym; `text` is what the key types.
pub open spec fn logical_key_spec(keysym: u32, text: String) -> LogicalKey {
    if keysym == KEY_ESCAPE {
        LogicalKey::Escape
    } else if keysym == KEY_DELETE {
        LogicalKey::Delete
    } else if keysym == KEY_BACKSPACE {
        LogicalKey::Backspace
    } else if keysym == KEY_RETURN || keysym == KEY_KP_ENTER {
        LogicalKey::Enter
    } else if keysym == KEY_LEFT {
        LogicalKey::ArrowLeft
    } else if keysym == KEY_RIGHT {
        LogicalKey::ArrowRight
    } else if keysym == KEY_HOME {
        LogicalKey::Home
    } else if keysym == KEY_END {
        LogicalKey::End
    } else if text@.len() == 0 {
        LogicalKey::Other
    } else {
        LogicalKey::Character(text)
    }
}

/// The logical key of a keysym: the editing keys by their keysym, any other
/// key by the text it types, or `Other` when it types none.
pub fn logical_key(keysym: u32, text: String) -> (key: LogicalKey)
    ensures
        key == logical_key_spec(keysym, text),
{
    if keysym == KEY_ESCAPE {
        LogicalKey::Escape
    } else if keysym == KEY_DELETE {
        LogicalKey::Delete
    } else if keysym == KEY_BACKSPACE {
        LogicalKey::Backspace
    } else if keysym == KEY_RETURN || keysym == KEY_KP_ENTER {
        LogicalKey::Enter
    } else if keysym == KEY_LEFT {
        LogicalKey::ArrowLeft
    } else if keysym == KEY_RIGHT {
        LogicalKey::ArrowRight
    } else if keysym == KEY_HOME {
        LogicalKey::Home
    } else if keysym == KEY_END {
        LogicalKey::End
    } else if text.as_str().unicode_len() == 0 {
        LogicalKey::Other
    } else {
        LogicalKey::Character(text)
    }
}

/// What the editor is asked to do.
#[derive(Debug, PartialEq, Eq)]
pub enum Action {
    Undo,
    Redo,
    SelectAll,
    ToggleEraser,
    ToggleFill,
    /// Delete the selection, or the grapheme after the cursor while typing.
    Delete,
    Clear,
    Cancel,
    CommitText,
    Backspace,
    BackspaceWord,
    MoveCursor(CursorMove),
    InsertText(String),
}

/// The lower-case form of a text, as `str::to_lowercase` gives it.
pub uninterp spec fn lowercase_of(text: Seq<char>) -> Seq<char>;

/// Calls `str::to_lowercase`. Trusted: the result is the lower-case mapping
/// of the text, which depends on the text alone.
#[verifier::external_body]
fn lowercase(text: &str) -> (lower: String)
    ensures
        lower@ == lowercase_of(text@),
{
    text.to_lowercase()
}

/// A control character: general category Cc, U+0000 to U+001F and U+007F to U+009F.
pub open spec fn is_control_spec(c: char) -> bool {
    (c as u32) <= 0x1f || (0x7f <= (c as u32) && (c as u32) <= 0x9f)
}

/// Whether `c` is a control character.
pub fn is_control(c: char) -> (control: bool)
    ensures
        control == is_control_spec(c),
{
    let code = c as u32;
    code <= 0x1f || (0x7f <= code && code <= 0x9f)
}

/// Whether the text holds a control character.
pub fn has_control(text: &str) -> (found: bool)
    ensures
        found == exists|i: int| 0 <= i < text@.len() && is_control_spec(text@[i]),
{
    let mut found = false;
    for c in it: text.chars()
        invariant
            it.seq() == text@,
            found == exists|i: int| 0 <= i < it.index() && is_control_spec(it.seq()[i]),
    {
        if is_control(c) {
            found = true;
        }
    }
    found
}

/// The lower-case letter z, in UTF-8.
pub open spec fn undo_key() -> Seq<u8> {
    seq![0x7au8]
}

/// The lower-case letter y, in UTF-8.
pub open spec fn redo_key() -> Seq<u8> {
    seq![0x79u8]
}

/// The lower-case letter a, in UTF-8.
pub open spec fn select_all_key() -> Seq<u8> {
    seq![0x61u8]
}

/// The action of Ctrl with a key that types `lower`, in lower case and
/// UTF-8: Z undoes, Shift+Z and Y redo, A selects everything.
pub open spec fn ctrl_binding_spec(lower: Seq<u8>, shift: bool) -> Option<Action> {
    if lower == undo_key() {
        if shift {
            Some(Action::Redo)
        } else {
            Some(Action::Undo)
        }
    } else if lower == redo_key() {
        Some(Action::Redo)
    } else if lower == select_all_key() {
        Some(Action::SelectAll)
    } else {
        None
    }
}

/// The action a key chord is bound to. While typing, editing keys act on the
/// text and plain characters are typed; otherwise Escape cancels, Backspace
/// and Delete delete the selection, Ctrl+Z undoes, Ctrl+Shift+Z and Ctrl+Y
/// redo, and Ctrl+A selects everything.
pub open spec fn binding(key: LogicalKey, modifiers: Modifiers, editing_text: bool) -> Option<Action> {
    if editing_text {
        match key {
            LogicalKey::Escape => Some(Action::Cancel),
            LogicalKey::Delete => Some(Action::Delete),
            LogicalKey::Backspace => Some(Action::Backspace),
            LogicalKey::Enter => Some(Action::CommitText),
            LogicalKey::ArrowLeft => Some(Action::MoveCursor(CursorMove::Left)),
            LogicalKey::ArrowRight => Some(Action::MoveCursor(CursorMove::Right)),
            LogicalKey::Home => Some(Action::MoveCursor(CursorMove::Home)),
            LogicalKey::End => Some(Action::MoveCursor(CursorMove::End)),
            LogicalKey::Character(text) => if !modifiers.ctrl && !(exists|i: int|
                0 <= i < text@.len() && is_control_spec(text@[i])) {
                Some(Action::InsertText(text))
            } else {
                None
            },
            LogicalKey::Other => None,
        }
    } else {
        match key {
            LogicalKey::Escape => Some(Action::Cancel),
            LogicalKey::Backspace => Some(Action::Delete),
            LogicalKey::Delete => Some(Action::Delete),
            LogicalKey::Character(text) => if !modifiers.ctrl {
                None
            } else {
                ctrl_binding_spec(utf8(lowercase_of(text@)), modifiers.shift)
            },
            _ => None,
        }
    }
}

const UNDO_KEY: [u8; 1] = [0x7a];

const REDO_KEY: [u8; 1] = [0x79];

const SELECT_ALL_KEY: [u8; 1] = [0x61];

/// The action of Ctrl with a key that types `lower`, in lower case and UTF-8.
pub fn ctrl_binding(lower: &[u8], shift: bool) -> (action: Option<Action>)
    ensures
        action == ctrl_binding_spec(lower@, shift),
{
    let undo = UNDO_KEY.as_slice();
    let redo = REDO_KEY.as_slice();
    let select_all = SELECT_ALL_KEY.as_slice();
    assert(undo@ =~= undo_key());
    assert(redo@ =~= redo_key());
    assert(select_all@ =~= select_all_key());
    if bytes_equal(lower, undo) {
        if shift {
            Some(Action::Redo)
        } else {
            Some(Action::Undo)
        }
    } else if bytes_equal(lower, redo) {
        Some(Action::Redo)
    } else if bytes_equal(lower, select_all) {
        Some(Action::SelectAll)
    } else {
        None
    }
}

/// The action a key chord is bound to.
pub fn resolve_keybinding(chord: &KeyChord, editing_text: bool) -> (action: Option<Action>)
    ensures
        action == binding(chord.key, chord.modifiers, editing_text),
{
    if editing_text {
        return match &chord.key {
            LogicalKey::Escape => Some(Action::Cancel),
            LogicalKey::Delete => Some(Action::Delete),
            LogicalKey::Backspace => Some(Action::Backspace),
            LogicalKey::Enter => Some(Action::CommitText),
            LogicalKey::ArrowLeft => Some(Action::MoveCursor(CursorMove::Left)),
            LogicalKey::ArrowRight => Some(Action::MoveCursor(CursorMove::Right)),
            LogicalKey::Home => Some(Action::MoveCursor(CursorMove::Home)),
            LogicalKey::End => Some(Action::MoveCursor(CursorMove::End)),
            LogicalKey::Character(text) => {
                if !chord.modifiers.ctrl && !has_control(text.as_str()) {
                    Some(Action::InsertText(text.clone()))
                } else {
                    None
                }
            },
            LogicalKey::Other => None,
        };
    }
    match &chord.key {
        LogicalKey::Escape => Some(Action::Cancel),
        LogicalKey::Backspace | LogicalKey::Delete => Some(Action::Delete),
        LogicalKey::Character(character) => {
            if !chord.modifiers.ctrl {
                return None;
            }
            let lower = lowercase(character.as_str());
            let bytes = lower.as_str().as_bytes();
            assert(bytes@ == utf8(lowercase_of(character@)));
            ctrl_binding(bytes, chord.modifiers.shift)
        },
        _ => None,
    }
}

} // verus!
