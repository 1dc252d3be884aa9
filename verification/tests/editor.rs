use vellum::damage::Damage;
use vellum::document::Document;
use vellum::editor::{cancel_damage, cursor_hint, Editor, InteractionKind, TextCommit, ToolState, Wheel};
use vellum::keys::{Action, Modifiers};
use vellum::text_edit::{CursorMove, TextEdit};
use vellum::handles::{Corner, CursorHint, Edge, Handle};
use vellum::tool::Tool;

#[test]
fn starts_with_the_default_tool() {
    let state = ToolState::new(Tool::Rectangle, false);
    assert_eq!(state.tool(), Tool::Rectangle);
    assert_eq!(state.default_tool(), Tool::Rectangle);
    assert_eq!(state.picker_tool(), Tool::Rectangle);
    assert_eq!(state.activation_tool(), None);
}

#[test]
fn eraser_default_goes_back_to_the_pen() {
    let state = ToolState::new(Tool::Eraser, true);
    assert_eq!(state.tool(), Tool::Eraser);
    assert_eq!(state.picker_tool(), Tool::Pen);
    assert_eq!(state.eraser_toggle(), Tool::Pen);
}

#[test]
fn eraser_toggle_twice_restores_the_tool() {
    let mut state = ToolState::new(Tool::Pen, true);
    assert!(state.switch_to(Tool::Arrow));
    let target = state.eraser_toggle();
    assert_eq!(target, Tool::Eraser);
    assert!(state.switch_to(target));
    assert_eq!(state.picker_tool(), Tool::Arrow);
    let back = state.eraser_toggle();
    assert_eq!(back, Tool::Arrow);
    assert!(state.switch_to(back));
    assert_eq!(state.tool(), Tool::Arrow);
}

#[test]
fn switching_to_the_same_tool_changes_nothing() {
    let mut state = ToolState::new(Tool::Text, true);
    assert!(!state.switch_to(Tool::Text));
    assert_eq!(state.tool(), Tool::Text);
}

#[test]
fn activation_goes_back_to_the_default_unless_remembered() {
    let mut forgetful = ToolState::new(Tool::Pen, false);
    forgetful.switch_to(Tool::Select);
    assert_eq!(forgetful.activation_tool(), Some(Tool::Pen));
    let mut remembering = ToolState::new(Tool::Pen, true);
    remembering.switch_to(Tool::Select);
    assert_eq!(remembering.activation_tool(), None);
}

#[test]
fn cancelling_repaints_what_the_interaction_touched() {
    assert_eq!(cancel_damage(None), Damage::Unchanged);
    assert_eq!(cancel_damage(Some(InteractionKind::Moving)), Damage::Scene);
    assert_eq!(
        cancel_damage(Some(InteractionKind::Resizing { handle: Handle::End })),
        Damage::Scene
    );
    assert_eq!(cancel_damage(Some(InteractionKind::Freehand { cached: true })), Damage::Scene);
    assert_eq!(cancel_damage(Some(InteractionKind::Freehand { cached: false })), Damage::Preview);
    assert_eq!(cancel_damage(Some(InteractionKind::Drawing)), Damage::Preview);
    assert_eq!(cancel_damage(Some(InteractionKind::EditingText)), Damage::Preview);
    assert_eq!(cancel_damage(Some(InteractionKind::Erasing)), Damage::Preview);
}

#[test]
fn the_cursor_follows_drags_then_what_is_under_the_pointer() {
    let corner = Handle::Corner(Corner::TopRight);
    assert_eq!(
        cursor_hint(Some(InteractionKind::Moving), Tool::Pen, 0, None, false),
        CursorHint::Move
    );
    assert_eq!(
        cursor_hint(Some(InteractionKind::Resizing { handle: corner }), Tool::Select, 1, None, false),
        CursorHint::NeswResize
    );
    assert_eq!(
        cursor_hint(None, Tool::Select, 1, Some(Handle::Edge(Edge::Left)), true),
        CursorHint::EwResize
    );
    assert_eq!(cursor_hint(None, Tool::Select, 1, None, true), CursorHint::Move);
    assert_eq!(cursor_hint(None, Tool::Select, 1, None, false), CursorHint::Crosshair);
    assert_eq!(cursor_hint(None, Tool::Select, 2, Some(corner), true), CursorHint::Crosshair);
    assert_eq!(cursor_hint(None, Tool::Pen, 1, Some(corner), true), CursorHint::Crosshair);
    assert_eq!(
        cursor_hint(Some(InteractionKind::Drawing), Tool::Select, 1, None, true),
        CursorHint::Move
    );
}

fn editor(tool: Tool) -> Editor<u32> {
    let mut document = Document::new();
    document.insert_kind(10);
    document.insert_kind(20);
    document.insert_kind(30);
    Editor { tools: ToolState::new(tool, true), document, interaction: None, text: None, picker: None }
}

fn plain() -> Modifiers {
    Modifiers { shift: false, ctrl: false, alt: false }
}

fn ctrl() -> Modifiers {
    Modifiers { shift: false, ctrl: true, alt: false }
}

fn ids(editor: &Editor<u32>) -> Vec<u64> {
    editor.document.elements().iter().map(|e| e.id).collect()
}

#[test]
fn pressing_starts_the_tool_s_interaction() {
    let mut pen = editor(Tool::Pen);
    assert_eq!(pen.pointer_down(plain(), false, None, None, None), Damage::Preview);
    assert_eq!(pen.interaction, Some(InteractionKind::Freehand { cached: false }));
    let mut shape = editor(Tool::Triangle);
    shape.interaction = Some(InteractionKind::Moving);
    assert_eq!(shape.pointer_down(plain(), false, None, None, None), Damage::Scene);
    assert_eq!(shape.interaction, Some(InteractionKind::Drawing));
    let mut text = editor(Tool::Text);
    text.interaction = Some(InteractionKind::EditingText);
    text.text = Some(TextEdit { id: None, content: "hi".to_string(), cursor: 2 });
    let typed = TextCommit { data: 40, unchanged: false };
    assert_eq!(text.pointer_down(plain(), false, None, None, Some(typed)), Damage::Scene);
    assert_eq!(ids(&text), vec![1, 2, 3, 4]);
    assert_eq!(text.document.element(4).map(|e| e.data), Some(40));
    assert_eq!(text.interaction, Some(InteractionKind::EditingText));
    assert_eq!(text.text.as_ref().map(|t| (t.content.as_str(), t.cursor)), Some(("", 0)));
}

#[test]
fn the_eraser_removes_what_it_hits() {
    let mut eraser = editor(Tool::Eraser);
    assert_eq!(eraser.pointer_down(plain(), false, Some(2), None, None), Damage::Scene);
    assert_eq!(ids(&eraser), vec![1, 3]);
    assert_eq!(eraser.interaction, Some(InteractionKind::Erasing));
    assert_eq!(eraser.pointer_down(plain(), false, None, None, None), Damage::Preview);
    let mut pen = editor(Tool::Pen);
    assert_eq!(pen.pointer_down(plain(), true, Some(3), None, None), Damage::Scene);
    assert_eq!(ids(&pen), vec![1, 2]);
    assert!(pen.document.undo());
    assert_eq!(ids(&pen), vec![1, 2, 3]);
}

#[test]
fn selecting_by_click_and_ctrl_click() {
    let mut select = editor(Tool::Select);
    assert_eq!(select.pointer_down(plain(), false, Some(2), None, None), Damage::Scene);
    assert_eq!(select.document.selected(), &vec![2]);
    assert_eq!(select.interaction, Some(InteractionKind::Moving));
    assert_eq!(select.pointer_down(ctrl(), false, Some(3), None, None), Damage::Scene);
    assert_eq!(select.document.selected(), &vec![2, 3]);
    assert_eq!(select.interaction, None);
    assert_eq!(select.pointer_down(ctrl(), false, Some(2), None, None), Damage::Preview);
    assert_eq!(select.document.selected(), &vec![3]);
    assert_eq!(select.pointer_down(ctrl(), false, None, None, None), Damage::Unchanged);
    assert_eq!(select.pointer_down(plain(), false, None, None, None), Damage::Preview);
    assert!(select.document.selected().is_empty());
}

#[test]
fn a_handle_of_the_one_selected_annotation_resizes_it() {
    let mut select = editor(Tool::Select);
    select.pointer_down(plain(), false, Some(1), None, None);
    let handle = Handle::Corner(Corner::BottomLeft);
    assert_eq!(select.pointer_down(plain(), false, Some(1), Some(handle), None), Damage::Scene);
    assert_eq!(select.interaction, Some(InteractionKind::Resizing { handle }));
    select.interaction = None;
    select.pointer_down(ctrl(), false, Some(2), Some(handle), None);
    assert_eq!(select.interaction, None);
    assert_eq!(select.document.selected(), &vec![1, 2]);
}

#[test]
fn escape_drops_then_deselects_then_leaves() {
    let mut e = editor(Tool::Select);
    e.pointer_down(plain(), false, Some(1), None, None);
    let first = e.handle_action(Action::Cancel, None);
    assert_eq!((first.damage, first.deactivate), (Damage::Scene, false));
    assert_eq!(e.document.selected(), &vec![1]);
    let second = e.handle_action(Action::Cancel, None);
    assert_eq!((second.damage, second.deactivate), (Damage::Preview, false));
    assert!(e.document.selected().is_empty());
    let third = e.handle_action(Action::Cancel, None);
    assert_eq!((third.damage, third.deactivate), (Damage::Unchanged, true));
}

#[test]
fn escape_with_the_wheel_open_only_closes_it() {
    let mut e = editor(Tool::Select);
    e.pointer_down(plain(), false, Some(1), None, None);
    e.picker = Some(Wheel::Tools { hovered: None });
    let effect = e.handle_action(Action::Cancel, None);
    assert_eq!((effect.damage, effect.deactivate), (Damage::Preview, false));
    assert!(e.picker.is_none());
    assert_eq!(e.interaction, Some(InteractionKind::Moving));
}

#[test]
fn select_all_switches_to_select_and_delete_undoes() {
    let mut e = editor(Tool::Pen);
    let effect = e.handle_action(Action::SelectAll, None);
    assert_eq!(effect.damage, Damage::Preview);
    assert_eq!(e.tools.tool(), Tool::Select);
    assert_eq!(e.document.selected(), &vec![1, 2, 3]);
    e.document.toggle_selected(2);
    let deleted = e.handle_action(Action::Delete, None);
    assert_eq!(deleted.damage, Damage::Scene);
    assert_eq!(ids(&e), vec![2]);
    let undone = e.handle_action(Action::Undo, None);
    assert_eq!(undone.damage, Damage::Scene);
    assert_eq!(ids(&e), vec![1, 2, 3]);
    assert_eq!(e.handle_action(Action::Clear, None).damage, Damage::Scene);
    assert!(ids(&e).is_empty());
    assert_eq!(e.handle_action(Action::Redo, None).damage, Damage::Unchanged);
}

#[test]
fn typing_actions_edit_the_text() {
    let mut e = editor(Tool::Text);
    e.pointer_down(plain(), false, None, None, None);
    assert_eq!(e.handle_action(Action::InsertText("ab".to_string()), None).damage, Damage::Preview);
    assert_eq!(e.handle_action(Action::MoveCursor(CursorMove::Left), None).damage, Damage::Preview);
    assert_eq!(e.handle_action(Action::Delete, None).damage, Damage::Preview);
    assert_eq!(e.text.as_ref().map(|t| t.content.clone()), Some("a".to_string()));
    assert_eq!(e.handle_action(Action::Undo, None).damage, Damage::Unchanged);
    assert_eq!(ids(&e), vec![1, 2, 3]);
    assert!(e.commits_text(&Action::CommitText));
    assert!(!e.commits_text(&Action::Undo));
    let typed = TextCommit { data: 40, unchanged: false };
    assert_eq!(e.handle_action(Action::CommitText, Some(typed)).damage, Damage::Scene);
    assert!(e.text.is_none());
    assert_eq!(e.interaction, None);
    assert_eq!(ids(&e), vec![1, 2, 3, 4]);
    assert!(e.document.undo());
    assert_eq!(ids(&e), vec![1, 2, 3]);
}

#[test]
fn the_eraser_toggle_and_activation() {
    let mut e = Editor {
        tools: ToolState::new(Tool::Pen, false),
        document: Document::<u32>::new(),
        interaction: None,
        text: None,
        picker: None,
    };
    assert_eq!(e.handle_action(Action::ToggleEraser, None).damage, Damage::Preview);
    assert_eq!(e.tools.tool(), Tool::Eraser);
    assert_eq!(e.activate(None), Damage::Preview);
    assert_eq!(e.tools.tool(), Tool::Pen);
    assert_eq!(e.activate(None), Damage::Unchanged);
    e.picker = Some(Wheel::Tools { hovered: None });
    assert_eq!(e.deactivate(None), Damage::Preview);
    assert!(e.picker.is_none());
}

#[test]
fn a_double_click_on_the_selected_text_edits_it() {
    let mut e = editor(Tool::Select);
    e.pointer_down(plain(), false, Some(2), None, None);
    e.interaction = None;
    assert_eq!(e.double_click_at(None), Damage::Unchanged);
    assert_eq!(e.double_click_at(Some("héllo".to_string())), Damage::Scene);
    assert_eq!(e.interaction, Some(InteractionKind::EditingText));
    assert_eq!(e.text.as_ref().map(|t| t.cursor), Some(6));
    let mut pen = editor(Tool::Pen);
    assert_eq!(pen.double_click_at(Some("x".to_string())), Damage::Unchanged);
}

#[test]
fn escape_that_leaves_clears_only_when_configured() {
    let mut keep = editor(Tool::Pen);
    keep.document.select_all();
    keep.picker = Some(Wheel::Tools { hovered: None });
    assert_eq!(keep.leave_on_escape(false, None), Damage::Preview);
    assert_eq!(ids(&keep), vec![1, 2, 3]);
    assert!(keep.document.selected().is_empty());
    assert!(keep.picker.is_none());

    let mut clear = editor(Tool::Pen);
    clear.interaction = Some(InteractionKind::Drawing);
    assert_eq!(clear.leave_on_escape(true, None), Damage::Scene);
    assert!(ids(&clear).is_empty());
    assert_eq!(clear.interaction, None);
    assert!(clear.document.undo());
    assert_eq!(ids(&clear), vec![1, 2, 3]);

    let mut empty: Editor<u32> = Editor {
        tools: ToolState::new(Tool::Pen, true),
        document: Document::new(),
        interaction: None,
        text: None,
        picker: None,
    };
    assert_eq!(empty.leave_on_escape(true, None), Damage::Unchanged);
    assert!(!empty.document.undo());
}

fn typing(editor: &mut Editor<u32>, id: Option<u64>, content: &str) {
    editor.interaction = Some(InteractionKind::EditingText);
    editor.text = Some(TextEdit { id, content: content.to_string(), cursor: content.len() });
}

#[test]
fn committing_an_edited_text_updates_its_annotation() {
    let mut e = editor(Tool::Text);
    typing(&mut e, Some(2), "new");
    assert_eq!(e.commit_text(Some(TextCommit { data: 21, unchanged: false })), Damage::Scene);
    assert_eq!(ids(&e), vec![1, 2, 3]);
    assert_eq!(e.document.element(2).map(|el| el.data), Some(21));
    assert!(e.document.undo());
    assert_eq!(e.document.element(2).map(|el| el.data), Some(20));

    typing(&mut e, Some(2), "same");
    assert_eq!(e.commit_text(Some(TextCommit { data: 20, unchanged: true })), Damage::Preview);
    assert_eq!(e.document.element(2).map(|el| el.data), Some(20));
    assert!(e.text.is_none());
}

#[test]
fn committing_an_empty_text_removes_what_it_edited() {
    let mut e = editor(Tool::Text);
    typing(&mut e, Some(3), "");
    assert_eq!(e.commit_text(None), Damage::Scene);
    assert_eq!(ids(&e), vec![1, 2]);
    assert!(e.document.undo());
    assert_eq!(ids(&e), vec![1, 2, 3]);

    typing(&mut e, None, "");
    assert_eq!(e.commit_text(None), Damage::Preview);
    assert_eq!(ids(&e), vec![1, 2, 3]);
    assert_eq!(e.commit_text(None), Damage::Unchanged);
}

#[test]
fn switching_tools_commits_the_text_first() {
    let mut e = editor(Tool::Text);
    e.document.select_all();
    typing(&mut e, None, "note");
    let damage = e.switch_tool(Tool::Pen, Some(TextCommit { data: 50, unchanged: false }));
    assert_eq!(damage, Damage::Scene);
    assert_eq!(ids(&e), vec![1, 2, 3, 4]);
    assert!(e.document.selected().is_empty());
    assert_eq!(e.tools.tool(), Tool::Pen);
}

#[test]
fn a_double_click_edits_the_selected_annotation_by_id() {
    let mut e = editor(Tool::Select);
    e.pointer_down(plain(), false, Some(2), None, None);
    e.interaction = None;
    assert_eq!(e.double_click_at(Some("ab".to_string())), Damage::Scene);
    assert_eq!(e.text.as_ref().map(|t| t.id), Some(Some(2)));
    let mut stale = editor(Tool::Select);
    stale.document.toggle_selected(9);
    assert_eq!(stale.double_click_at(Some("ab".to_string())), Damage::Unchanged);
}

#[test]
fn the_wheel_hovers_chooses_a_tool_or_leads_to_colors() {
    let mut e = editor(Tool::Pen);
    assert_eq!(e.wheel_motion(Some(Tool::Arrow), None), Damage::Unchanged);
    assert_eq!(e.toggle_wheel(), Damage::Preview);
    assert_eq!(e.picker, Some(Wheel::Tools { hovered: None }));
    assert_eq!(e.wheel_motion(Some(Tool::Arrow), Some(3)), Damage::Preview);
    assert_eq!(e.wheel_motion(Some(Tool::Arrow), None), Damage::Unchanged);
    assert_eq!(e.picker, Some(Wheel::Tools { hovered: Some(Tool::Arrow) }));
    assert_eq!(e.wheel_release(Some(Tool::Arrow), None, None), (Damage::Preview, None));
    assert_eq!(e.tools.tool(), Tool::Arrow);
    assert_eq!(e.picker, None);

    e.open_tool_wheel();
    assert_eq!(e.wheel_release(None, Some(1), None), (Damage::Preview, None));
    assert_eq!(e.picker, Some(Wheel::Colors { hovered: None }));
    assert_eq!(e.wheel_motion(None, Some(2)), Damage::Preview);
    assert_eq!(e.wheel_release(None, Some(2), None), (Damage::Preview, Some(2)));
    assert_eq!(e.picker, None);
    assert_eq!(e.wheel_release(None, Some(2), None), (Damage::Unchanged, None));
    assert_eq!(e.toggle_wheel(), Damage::Preview);
    assert_eq!(e.dismiss_wheel(), Damage::Preview);
    assert_eq!(e.dismiss_wheel(), Damage::Unchanged);
}

#[test]
fn a_color_recolors_the_selection_as_one_step() {
    let mut e = editor(Tool::Select);
    assert_eq!(e.apply_color(vec![]), Damage::Preview);
    e.document.toggle_selected(1);
    e.document.toggle_selected(3);
    assert_eq!(e.apply_color(vec![(1, 11), (3, 33)]), Damage::Scene);
    assert_eq!(e.document.element(1).map(|el| el.data), Some(11));
    assert_eq!(e.document.element(2).map(|el| el.data), Some(20));
    assert_eq!(e.document.element(3).map(|el| el.data), Some(33));
    assert!(e.document.undo());
    assert_eq!(e.document.element(3).map(|el| el.data), Some(30));
    assert_eq!(e.apply_color(vec![]), Damage::Preview);
}

#[test]
fn releasing_commits_strokes_shapes_and_moves() {
    let mut e = editor(Tool::Pen);
    e.pointer_down(plain(), false, None, None, None);
    assert_eq!(e.pointer_motion(None, true, false), Damage::Preview);
    assert_eq!(e.pointer_motion(None, false, true), Damage::Scene);
    assert_eq!(e.interaction, Some(InteractionKind::Freehand { cached: true }));
    assert_eq!(e.pointer_up(Some(40), vec![]), Damage::Scene);
    assert_eq!(ids(&e), vec![1, 2, 3, 4]);
    assert_eq!(e.interaction, None);

    let mut select = editor(Tool::Select);
    select.pointer_down(plain(), false, Some(2), None, None);
    assert_eq!(select.pointer_motion(None, false, false), Damage::Preview);
    assert_eq!(select.pointer_up(None, vec![(2, 22)]), Damage::Scene);
    assert_eq!(select.document.element(2).map(|el| el.data), Some(22));
    assert!(select.document.undo());
    assert_eq!(select.document.element(2).map(|el| el.data), Some(20));

    let mut eraser = editor(Tool::Eraser);
    eraser.pointer_down(plain(), false, None, None, None);
    assert_eq!(eraser.pointer_motion(Some(1), false, false), Damage::Scene);
    assert_eq!(eraser.pointer_motion(Some(1), false, false), Damage::Unchanged);
    assert_eq!(ids(&eraser), vec![2, 3]);
    assert_eq!(eraser.pointer_up(None, vec![]), Damage::Unchanged);
    assert_eq!(eraser.interaction, None);
    assert_eq!(eraser.pointer_up(None, vec![]), Damage::Unchanged);
}
