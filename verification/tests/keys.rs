use vellum::keys::{
    ctrl_binding, logical_key, resolve_keybinding, Action, KeyChord, LogicalKey, Modifiers, KEY_BACKSPACE,
    KEY_DELETE, KEY_END, KEY_ESCAPE, KEY_HOME, KEY_KP_ENTER, KEY_LEFT, KEY_RETURN, KEY_RIGHT,
};
use vellum::text_edit::CursorMove;

fn chord(key: LogicalKey, shift: bool, ctrl: bool) -> KeyChord {
    KeyChord {
        key,
        modifiers: Modifiers {
            shift,
            ctrl,
            alt: false,
        },
    }
}

fn character(text: &str) -> LogicalKey {
    LogicalKey::Character(text.to_string())
}

#[test]
fn ctrl_z_undoes_and_ctrl_shift_z_redoes() {
    assert_eq!(resolve_keybinding(&chord(character("z"), false, true), false), Some(Action::Undo));
    assert_eq!(resolve_keybinding(&chord(character("Z"), false, true), false), Some(Action::Undo));
    assert_eq!(resolve_keybinding(&chord(character("Z"), true, true), false), Some(Action::Redo));
    assert_eq!(resolve_keybinding(&chord(character("z"), false, false), false), None);
    assert_eq!(resolve_keybinding(&chord(character("x"), false, true), false), None);
    assert_eq!(resolve_keybinding(&chord(LogicalKey::Escape, false, false), false), Some(Action::Cancel));
}

#[test]
fn the_documented_shortcuts_work_outside_text() {
    assert_eq!(resolve_keybinding(&chord(character("y"), false, true), false), Some(Action::Redo));
    assert_eq!(resolve_keybinding(&chord(character("Y"), false, true), false), Some(Action::Redo));
    assert_eq!(resolve_keybinding(&chord(character("a"), false, true), false), Some(Action::SelectAll));
    assert_eq!(resolve_keybinding(&chord(character("a"), false, false), false), None);
    assert_eq!(resolve_keybinding(&chord(LogicalKey::Delete, false, false), false), Some(Action::Delete));
    assert_eq!(resolve_keybinding(&chord(LogicalKey::Backspace, false, false), false), Some(Action::Delete));
    assert_eq!(resolve_keybinding(&chord(LogicalKey::Enter, false, false), false), None);
    assert_eq!(resolve_keybinding(&chord(character("z"), false, true), true), None);
}

#[test]
fn editing_keys_act_on_the_text() {
    let cases = [
        (LogicalKey::Escape, Action::Cancel),
        (LogicalKey::Delete, Action::Delete),
        (LogicalKey::Backspace, Action::Backspace),
        (LogicalKey::Enter, Action::CommitText),
        (LogicalKey::ArrowLeft, Action::MoveCursor(CursorMove::Left)),
        (LogicalKey::ArrowRight, Action::MoveCursor(CursorMove::Right)),
        (LogicalKey::Home, Action::MoveCursor(CursorMove::Home)),
        (LogicalKey::End, Action::MoveCursor(CursorMove::End)),
    ];
    for (key, action) in cases {
        assert_eq!(resolve_keybinding(&chord(key, false, false), true), Some(action));
    }
    assert_eq!(resolve_keybinding(&chord(LogicalKey::Other, false, false), true), None);
}

#[test]
fn plain_characters_are_typed() {
    assert_eq!(
        resolve_keybinding(&chord(character("é"), true, false), true),
        Some(Action::InsertText("é".to_string()))
    );
    assert_eq!(resolve_keybinding(&chord(character("z"), false, true), true), None);
    assert_eq!(resolve_keybinding(&chord(character("\u{8}"), false, false), true), None);
    assert_eq!(resolve_keybinding(&chord(character("a\u{85}"), false, false), true), None);
    assert_eq!(
        resolve_keybinding(&chord(character("\u{a0}"), false, false), true),
        Some(Action::InsertText("\u{a0}".to_string()))
    );
}

#[test]
fn keysyms_name_the_editing_keys() {
    let cases = [
        (KEY_ESCAPE, 0xff1b, LogicalKey::Escape),
        (KEY_DELETE, 0xffff, LogicalKey::Delete),
        (KEY_BACKSPACE, 0xff08, LogicalKey::Backspace),
        (KEY_RETURN, 0xff0d, LogicalKey::Enter),
        (KEY_KP_ENTER, 0xff8d, LogicalKey::Enter),
        (KEY_LEFT, 0xff51, LogicalKey::ArrowLeft),
        (KEY_RIGHT, 0xff53, LogicalKey::ArrowRight),
        (KEY_HOME, 0xff50, LogicalKey::Home),
        (KEY_END, 0xff57, LogicalKey::End),
    ];
    for (keysym, value, key) in cases {
        assert_eq!(keysym, value);
        assert_eq!(logical_key(keysym, "q".to_string()), key);
    }
}

#[test]
fn other_keys_are_what_they_type() {
    assert_eq!(logical_key(0x61, "a".to_string()), LogicalKey::Character("a".to_string()));
    assert_eq!(logical_key(0xffe1, String::new()), LogicalKey::Other);
}

#[test]
fn ctrl_letters_decide_by_their_lower_case_text() {
    assert_eq!(ctrl_binding(b"z", false), Some(Action::Undo));
    assert_eq!(ctrl_binding(b"z", true), Some(Action::Redo));
    assert_eq!(ctrl_binding(b"y", false), Some(Action::Redo));
    assert_eq!(ctrl_binding(b"a", true), Some(Action::SelectAll));
    assert_eq!(ctrl_binding(b"Z", false), None);
    assert_eq!(ctrl_binding(b"", false), None);
}
