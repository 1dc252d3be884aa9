//! The editor: its choice of tool, what the pointer is in the middle of, the
//! text being typed, the open wheel, and what presses, motions, releases,
//! actions and (de)activation do to them and to the annotations. Where
//! annotations and the pointer are, and how they look, is the caller's: hit
//! tests, and the annotations made of strokes, shapes and text, come in as
//! arguments.

use vstd::prelude::*;
use crate::damage::{larger, Damage, EditorEffect};
use crate::document::{
    clicked, deletes_something, distinct_changes, id_removed, ids_of, lemma_ids_unique, list_cleared,
    present_changes, recorded,
    redo_step, same_document, selection_deleted, selection_set, toggled, undo_step, Document,
};
use crate::history::{
    apply_updates, has_id, lemma_position_found, lemma_position_unique, lemma_update_round_trip,
    position_of, take_inserted, updates_match, Element, EntryModel,
};
use crate::keys::{Action, Modifiers};
use crate::text_edit::{
    backspaced, backspaced_word, deleted_forward, moved_cursor, next_boundary_of,
    previous_boundary_of, previous_word_boundary_of, typed, utf8, without_range, TextEdit,
};
use vstd::utf8::{encode_utf8_valid_utf8, is_char_boundary_start_end_of_seq};
use crate::handles::{cursor, cursor_spec, CursorHint, Handle};
use crate::tool::Tool;

verus! {

/// The active tool, the tool the overlay starts with, and the tool the
/// eraser toggle goes back to.
#[derive(Debug, Clone, Copy, PartialEq, Eq, Structural)]
pub struct ToolState {
    tool: Tool,
    default_tool: Tool,
    last_non_eraser_tool: Tool,
    remember_last_tool: bool,
}

impl ToolState {
    /// The active tool.
    pub closed spec fn tool_view(self) -> Tool {
        self.tool
    }

    /// The tool the overlay starts with.
    pub closed spec fn default_tool_view(self) -> Tool {
        self.default_tool
    }

    /// The tool the eraser toggle and the tool wheel stand for while the eraser is active.
    pub closed spec fn last_non_eraser_view(self) -> Tool {
        self.last_non_eraser_tool
    }

    /// Whether activating the overlay keeps the tool used last.
    pub closed spec fn remember_view(self) -> bool {
        self.remember_last_tool
    }

    /// The tool to go back to is never the eraser, and it is the active tool
    /// whenever the eraser is not active.
    pub closed spec fn wf(self) -> bool {
        &&& self.last_non_eraser_tool != Tool::Eraser
        &&& self.tool != Tool::Eraser ==> self.last_non_eraser_tool == self.tool
    }

    /// Starts with `default_tool`; when that is the eraser, the toggle goes back to the pen.
    pub fn new(default_tool: Tool, remember_last_tool: bool) -> (state: Self)
        ensures
            state.wf(),
            state.tool_view() == default_tool,
            state.default_tool_view() == default_tool,
            state.remember_view() == remember_last_tool,
            state.last_non_eraser_view() == if default_tool == Tool::Eraser {
                Tool::Pen
            } else {
                default_tool
            },
    {
        let last = if default_tool == Tool::Eraser {
            Tool::Pen
        } else {
            default_tool
        };
        ToolState {
            tool: default_tool,
            default_tool,
            last_non_eraser_tool: last,
            remember_last_tool,
        }
    }

    /// The active tool.
    pub fn tool(&self) -> (tool: Tool)
        ensures
            tool == self.tool_view(),
    {
        self.tool
    }

    /// The tool the overlay starts with.
    pub fn default_tool(&self) -> (tool: Tool)
        ensures
            tool == self.default_tool_view(),
    {
        self.default_tool
    }

    /// The tool to switch to when the overlay is activated.
    pub open spec fn activation_spec(self) -> Option<Tool> {
        if self.remember_view() || self.tool_view() == self.default_tool_view() {
            None
        } else {
            Some(self.default_tool_view())
        }
    }

    /// The tool to switch to when the overlay is activated: the default tool,
    /// unless the last tool is remembered or already the default.
    pub fn activation_tool(&self) -> (tool: Option<Tool>)
        ensures
            tool == self.activation_spec(),
            tool == if self.remember_view() || self.tool_view() == self.default_tool_view() {
                None::<Tool>
            } else {
                Some(self.default_tool_view())
            },
    {
        if self.remember_last_tool || self.tool == self.default_tool {
            None
        } else {
            Some(self.default_tool)
        }
    }

    /// The tool the eraser toggle switches to: back to the last other tool
    /// from the eraser, to the eraser from any other tool.
    pub fn eraser_toggle(&self) -> (tool: Tool)
        ensures
            tool == if self.tool_view() == Tool::Eraser {
                self.last_non_eraser_view()
            } else {
                Tool::Eraser
            },
    {
        if self.tool == Tool::Eraser {
            self.last_non_eraser_tool
        } else {
            Tool::Eraser
        }
    }

    /// The tool the tool wheel shows as current: while erasing, the tool the
    /// eraser toggle goes back to.
    pub fn picker_tool(&self) -> (tool: Tool)
        requires
            self.wf(),
        ensures
            tool == if self.tool_view() == Tool::Eraser {
                self.last_non_eraser_view()
            } else {
                self.tool_view()
            },
            tool != Tool::Eraser,
    {
        if self.tool == Tool::Eraser {
            self.last_non_eraser_tool
        } else {
            self.tool
        }
    }

    /// Makes `tool` the active tool and remembers it for the eraser toggle
    /// unless it is the eraser. Returns whether the tool changed.
    pub fn switch_to(&mut self, tool: Tool) -> (changed: bool)
        requires
            old(self).wf(),
        ensures
            final(self).wf(),
            changed == (old(self).tool_view() != tool),
            switched(*old(self), tool, *final(self)),
            final(self).tool_view() == tool,
            final(self).last_non_eraser_view() == if tool == Tool::Eraser {
                old(self).last_non_eraser_view()
            } else {
                tool
            },
            final(self).default_tool_view() == old(self).default_tool_view(),
            final(self).remember_view() == old(self).remember_view(),
    {
        let changed = self.tool != tool;
        self.tool = tool;
        if tool != Tool::Eraser {
            self.last_non_eraser_tool = tool;
        }
        changed
    }
}

/// The state reached by switching to `tool`.
pub open spec fn switched(state: ToolState, tool: Tool, next: ToolState) -> bool {
    &&& next.tool_view() == tool
    &&& next.last_non_eraser_view() == if tool == Tool::Eraser {
        state.last_non_eraser_view()
    } else {
        tool
    }
    &&& next.default_tool_view() == state.default_tool_view()
    &&& next.remember_view() == state.remember_view()
}

/// The eraser toggle undoes itself: toggling twice brings back the tool
/// that was active, and the tool to go back to.
pub proof fn lemma_eraser_toggle_twice(state: ToolState, once: ToolState, twice: ToolState)
    requires
        state.wf(),
        switched(
            state,
            if state.tool_view() == Tool::Eraser {
                state.last_non_eraser_view()
            } else {
                Tool::Eraser
            },
            once,
        ),
        switched(
            once,
            if once.tool_view() == Tool::Eraser {
                once.last_non_eraser_view()
            } else {
                Tool::Eraser
            },
            twice,
        ),
    ensures
        twice.tool_view() == state.tool_view(),
        twice.last_non_eraser_view() == state.last_non_eraser_view(),
{
}

/// Switching keeps the state well formed, whatever the tool.
pub proof fn lemma_switch_keeps_wf(state: ToolState, tool: Tool, next: ToolState)
    requires
        state.wf(),
        switched(state, tool, next),
    ensures
        next.wf(),
{
}

/// What the pointer is in the middle of, as far as cancelling it and the
/// cursor shape go.
#[derive(Debug, Clone, Copy, PartialEq, Eq, Structural)]
pub enum InteractionKind {
    /// Drawing a freehand stroke; `cached` when parts of it were already
    /// moved into the committed picture.
    Freehand { cached: bool },
    /// Dragging out a line, arrow or shape.
    Drawing,
    /// Dragging selected annotations.
    Moving,
    /// Dragging a handle of the selected annotation.
    Resizing { handle: Handle },
    /// Typing into a text annotation.
    EditingText,
    /// Erasing along the pointer's path.
    Erasing,
}

/// What dropping an interaction repaints: the committed picture when the
/// interaction had taken annotations out of it (moving, resizing, a stroke
/// with cached parts), the previews for any other interaction, nothing when
/// there was none.
pub open spec fn cancel_damage_spec(interaction: Option<InteractionKind>) -> Damage {
    match interaction {
        None => Damage::Unchanged,
        Some(InteractionKind::Moving) => Damage::Scene,
        Some(InteractionKind::Resizing { .. }) => Damage::Scene,
        Some(InteractionKind::Freehand { cached }) => if cached {
            Damage::Scene
        } else {
            Damage::Preview
        },
        Some(_) => Damage::Preview,
    }
}

/// What dropping an interaction repaints.
pub fn cancel_damage(interaction: Option<InteractionKind>) -> (damage: Damage)
    ensures
        damage == cancel_damage_spec(interaction),
{
    match interaction {
        None => Damage::Unchanged,
        Some(InteractionKind::Moving) | Some(InteractionKind::Resizing { .. }) => Damage::Scene,
        Some(InteractionKind::Freehand { cached }) => Damage::from_scene(cached).max(
            Damage::Preview,
        ),
        Some(_) => Damage::Preview,
    }
}

/// The pointer cursor the editor asks for: while dragging, the shape of the
/// drag; with exactly one annotation selected by the select tool, the shape
/// of the handle under the pointer, or a move cursor over the annotation;
/// a crosshair otherwise. `handle_hit` and `body_hit` say what lies under
/// the pointer.
pub open spec fn cursor_hint_spec(
    interaction: Option<InteractionKind>,
    tool: Tool,
    selected: usize,
    handle_hit: Option<Handle>,
    body_hit: bool,
) -> CursorHint {
    match interaction {
        Some(InteractionKind::Moving) => CursorHint::Move,
        Some(InteractionKind::Resizing { handle }) => cursor_spec(handle),
        _ => if tool != Tool::Select || selected != 1 {
            CursorHint::Crosshair
        } else {
            match handle_hit {
                Some(handle) => cursor_spec(handle),
                None => if body_hit {
                    CursorHint::Move
                } else {
                    CursorHint::Crosshair
                },
            }
        },
    }
}

/// The pointer cursor the editor asks for.
pub fn cursor_hint(
    interaction: Option<InteractionKind>,
    tool: Tool,
    selected: usize,
    handle_hit: Option<Handle>,
    body_hit: bool,
) -> (hint: CursorHint)
    ensures
        hint == cursor_hint_spec(interaction, tool, selected, handle_hit, body_hit),
{
    match interaction {
        Some(InteractionKind::Moving) => return CursorHint::Move,
        Some(InteractionKind::Resizing { handle }) => return cursor(handle),
        _ => {},
    }
    if tool != Tool::Select || selected != 1 {
        return CursorHint::Crosshair;
    }
    match handle_hit {
        Some(handle) => cursor(handle),
        None => if body_hit {
            CursorHint::Move
        } else {
            CursorHint::Crosshair
        },
    }
}

/// What the caller makes of the text being typed, for the editor to commit:
/// the annotation the text becomes (its content with the place, size and
/// style the caller keeps), and whether that is exactly what the annotation
/// being edited already holds.
pub struct TextCommit<T> {
    pub data: T,
    pub unchanged: bool,
}

/// The caller has handed what committing the text of `editor` needs: the
/// annotation a non-empty text becomes, and for a new text room for one
/// more id.
pub open spec fn commit_ready<T>(editor: Editor<T>, commit: Option<TextCommit<T>>) -> bool {
    match editor.text {
        Some(t) => t.bytes().len() > 0 ==> {
            &&& commit is Some
            &&& t.id is None ==> editor.document.next_id_view() < u64::MAX
        },
        None => true,
    }
}

/// `after` is `before` with the text `t` committed, each change recorded
/// for undo: an empty text removes the annotation it edits (and a new empty
/// text leaves nothing); a non-empty new text is added on top with the next
/// id; a non-empty edited text replaces the data of its annotation in place,
/// unless the caller found it unchanged.
pub open spec fn text_committed<T>(
    before: Document<T>,
    t: TextEdit,
    commit: Option<TextCommit<T>>,
    after: Document<T>,
) -> bool {
    let els = before.elements_view();
    if t.bytes().len() == 0 {
        match t.id {
            Some(id) => id_removed(before, after, id),
            None => after == before,
        }
    } else {
        let c = commit.unwrap();
        match t.id {
            None => {
                &&& after.elements_view() == els.push(
                    Element { id: before.next_id_view(), data: c.data },
                )
                &&& after.next_id_view() == before.next_id_view() + 1
                &&& after.selected_view() == before.selected_view()
                &&& after.undo_stack() == recorded(
                    before.undo_stack(),
                    EntryModel::Insert(seq![(els.len() as usize, before.next_id_view())]),
                )
                &&& after.redo_stack() == Seq::<EntryModel<T>>::empty()
            },
            Some(id) => if c.unchanged {
                after == before
            } else {
                let p = position_of(els, id);
                &&& after.elements_view() == els.update(p, Element { id: id, data: c.data })
                &&& after.next_id_view() == before.next_id_view()
                &&& after.selected_view() == before.selected_view()
                &&& after.undo_stack() == recorded(
                    before.undo_stack(),
                    EntryModel::Update(seq![(id, els[p].data)]),
                )
                &&& after.redo_stack() == Seq::<EntryModel<T>>::empty()
            },
        }
    }
}

/// What committing the text `t` repaints: the picture when an annotation
/// was added, changed or removed, else the previews.
pub open spec fn text_commit_damage<T>(
    before: Document<T>,
    t: TextEdit,
    commit: Option<TextCommit<T>>,
) -> Damage {
    if t.bytes().len() == 0 {
        match t.id {
            Some(id) => if has_id(before.elements_view(), id) {
                Damage::Scene
            } else {
                Damage::Unchanged
            },
            None => Damage::Preview,
        }
    } else {
        match t.id {
            Some(_) => if commit.unwrap().unchanged {
                Damage::Preview
            } else {
                Damage::Scene
            },
            None => Damage::Scene,
        }
    }
}

/// `after` is the document of `before` once its interaction is finished:
/// the text being typed committed; any other interaction leaves it as it was.
pub open spec fn finished<T>(before: Editor<T>, commit: Option<TextCommit<T>>, after: Document<T>) -> bool {
    match before.text {
        Some(t) => text_committed(before.document, t, commit, after),
        None => after == before.document,
    }
}

/// What finishing the interaction of `before` repaints: the commit of the
/// text being typed, or what dropping any other interaction repaints.
pub open spec fn finish_damage<T>(before: Editor<T>, commit: Option<TextCommit<T>>) -> Damage {
    match before.text {
        Some(t) => text_commit_damage(before.document, t, commit),
        None => cancel_damage_spec(before.interaction),
    }
}

/// The tools that draw a line or a shape by dragging.
pub open spec fn drags_shape(tool: Tool) -> bool {
    tool == Tool::Line || tool == Tool::Arrow || tool == Tool::Triangle || tool == Tool::Rectangle
        || tool == Tool::Ellipse
}

/// Which wheel is open, and which of its choices is under the pointer.
#[derive(Debug, Clone, Copy, PartialEq, Eq, Structural)]
pub enum Wheel {
    /// The tool wheel; its middle leads on to the color wheel.
    Tools { hovered: Option<Tool> },
    /// The color wheel, over the palette's colors by index.
    Colors { hovered: Option<usize> },
}

/// Whether two choices of a tool are the same.
fn same_tool(a: Option<Tool>, b: Option<Tool>) -> (same: bool)
    ensures
        same == (a == b),
{
    match (a, b) {
        (None, None) => true,
        (Some(x), Some(y)) => x == y,
        _ => false,
    }
}

/// Whether two choices of a color are the same.
fn same_color(a: Option<usize>, b: Option<usize>) -> (same: bool)
    ensures
        same == (a == b),
{
    match (a, b) {
        (None, None) => true,
        (Some(x), Some(y)) => x == y,
        _ => false,
    }
}

/// The editor's state its decisions read: the tools, the annotations, what
/// the pointer is in the middle of, the text being typed, and the open
/// wheel. What annotations look like (`T`) and where
/// the pointer is are the caller's.
pub struct Editor<T> {
    pub tools: ToolState,
    pub document: Document<T>,
    pub interaction: Option<InteractionKind>,
    /// The text and cursor while a text annotation is being typed.
    pub text: Option<TextEdit>,
    /// The wheel, while it is open.
    pub picker: Option<Wheel>,
}

/// `after` has no interaction and no text being typed, and the tools and the
/// wheel of `before`.
pub open spec fn dropped<T>(before: Editor<T>, after: Editor<T>) -> bool {
    &&& after.interaction is None
    &&& after.text is None
    &&& after.tools == before.tools
    &&& after.picker == before.picker
}

/// What dropping the interaction of `before` repaints.
pub open spec fn cancel_damage_of<T>(before: Editor<T>) -> Damage {
    cancel_damage_spec(before.interaction)
}

/// Undo: repaints everything when there was an edit to undo, else what
/// dropping the interaction repaints.
pub open spec fn undo_after<T>(before: Editor<T>, after: Editor<T>, damage: Damage) -> bool {
    &&& dropped(before, after)
    &&& if before.document.undo_stack().len() > 0 {
        &&& damage == Damage::Scene
        &&& undo_step(before.document, after.document)
        &&& after.document.selected_view() == Seq::<u64>::empty()
    } else {
        damage == cancel_damage_of(before) && same_document(before.document, after.document)
    }
}

/// Redo, as undo the other way.
pub open spec fn redo_after<T>(before: Editor<T>, after: Editor<T>, damage: Damage) -> bool {
    &&& dropped(before, after)
    &&& if before.document.redo_stack().len() > 0 {
        &&& damage == Damage::Scene
        &&& redo_step(before.document, after.document)
        &&& after.document.selected_view() == Seq::<u64>::empty()
    } else {
        damage == cancel_damage_of(before) && same_document(before.document, after.document)
    }
}

/// Switching to `tool`: nothing when it is active; else the interaction is
/// finished (the text being typed committed), the selection emptied and the
/// tool made active.
pub open spec fn switch_after<T>(
    before: Editor<T>,
    tool: Tool,
    commit: Option<TextCommit<T>>,
    after: Editor<T>,
    damage: Damage,
) -> bool {
    if before.tools.tool_view() == tool {
        after == before && damage == Damage::Unchanged
    } else {
        &&& damage == larger(finish_damage(before, commit), Damage::Preview)
        &&& after.interaction is None
        &&& after.text is None
        &&& after.picker == before.picker
        &&& switched(before.tools, tool, after.tools)
        &&& exists|mid: Document<T>|
            #[trigger] finished(before, commit, mid) && selection_set(
                mid,
                after.document,
                Seq::<u64>::empty(),
            )
    }
}

/// The tool the eraser toggle switches to.
pub open spec fn eraser_target(tools: ToolState) -> Tool {
    if tools.tool_view() == Tool::Eraser {
        tools.last_non_eraser_view()
    } else {
        Tool::Eraser
    }
}

/// What undo repaints.
pub open spec fn undo_damage<T>(before: Editor<T>) -> Damage {
    if before.document.undo_stack().len() > 0 { Damage::Scene } else { cancel_damage_of(before) }
}

/// What redo repaints.
pub open spec fn redo_damage<T>(before: Editor<T>) -> Damage {
    if before.document.redo_stack().len() > 0 { Damage::Scene } else { cancel_damage_of(before) }
}

/// What switching to `tool` repaints.
pub open spec fn switch_damage<T>(before: Editor<T>, tool: Tool, commit: Option<TextCommit<T>>) -> Damage {
    if before.tools.tool_view() == tool {
        Damage::Unchanged
    } else {
        larger(finish_damage(before, commit), Damage::Preview)
    }
}

/// What select all repaints.
pub open spec fn select_all_damage<T>(before: Editor<T>) -> Damage {
    let els = before.document.elements_view();
    let c = cancel_damage_of(before);
    if els.len() == 0 {
        c
    } else {
        let on_select = before.tools.tool_view() == Tool::Select;
        let d = larger(c, if on_select { Damage::Unchanged } else { Damage::Preview });
        let sel = if on_select { before.document.selected_view() } else { Seq::<u64>::empty() };
        if sel == ids_of(els) { d } else { larger(d, Damage::Preview) }
    }
}

/// What deleting the selection repaints.
pub open spec fn delete_selection_damage<T>(before: Editor<T>) -> Damage {
    if before.document.selected_view().len() == 0 {
        Damage::Unchanged
    } else {
        larger(
            cancel_damage_of(before),
            if deletes_something(before.document) { Damage::Scene } else { Damage::Unchanged },
        )
    }
}

/// What clearing repaints.
pub open spec fn clear_damage<T>(before: Editor<T>) -> Damage {
    if before.document.elements_view().len() > 0 { Damage::Scene } else { cancel_damage_of(before) }
}

/// What committing the text repaints: what its commit repaints while a
/// text is typed, nothing otherwise.
pub open spec fn commit_damage<T>(before: Editor<T>, commit: Option<TextCommit<T>>) -> Damage {
    match before.text {
        Some(t) => text_commit_damage(before.document, t, commit),
        None => Damage::Unchanged,
    }
}

/// Every part of `after` but the text being typed is as in `before`.
pub open spec fn only_text_changed<T>(before: Editor<T>, after: Editor<T>) -> bool {
    &&& after.tools == before.tools
    &&& after.document == before.document
    &&& after.interaction == before.interaction
    &&& after.picker == before.picker
}

/// Select all: the interaction is dropped; with annotations present, the
/// select tool is made active and every annotation selected, bottom first.
pub open spec fn select_all_after<T>(before: Editor<T>, after: Editor<T>, damage: Damage) -> bool {
    let els = before.document.elements_view();
    let c = cancel_damage_of(before);
    if els.len() == 0 {
        dropped(before, after) && after.document == before.document && damage == c
    } else {
        let on_select = before.tools.tool_view() == Tool::Select;
        let d = larger(c, if on_select { Damage::Unchanged } else { Damage::Preview });
        let sel = if on_select { before.document.selected_view() } else { Seq::<u64>::empty() };
        &&& after.interaction is None
        &&& after.text is None
        &&& after.picker == before.picker
        &&& switched(before.tools, Tool::Select, after.tools)
        &&& selection_set(before.document, after.document, ids_of(els))
        &&& damage == if sel == ids_of(els) { d } else { larger(d, Damage::Preview) }
    }
}

/// Deleting the selection: nothing without one; else the interaction is
/// dropped and the selection deleted.
pub open spec fn delete_selection_after<T>(before: Editor<T>, after: Editor<T>, damage: Damage) -> bool {
    if before.document.selected_view().len() == 0 {
        after == before && damage == Damage::Unchanged
    } else {
        &&& dropped(before, after)
        &&& selection_deleted(before.document, after.document, deletes_something(before.document))
        &&& damage == larger(
            cancel_damage_of(before),
            if deletes_something(before.document) { Damage::Scene } else { Damage::Unchanged },
        )
    }
}

/// Clearing: the interaction is dropped and the annotations cleared.
pub open spec fn clear_after<T>(before: Editor<T>, after: Editor<T>, damage: Damage) -> bool {
    &&& dropped(before, after)
    &&& list_cleared(before.document, after.document)
    &&& damage == if before.document.elements_view().len() > 0 {
        Damage::Scene
    } else {
        cancel_damage_of(before)
    }
}

/// What an action does to the text `t` being typed and what it repaints,
/// for the actions that act on it.
pub open spec fn text_action_after(action: Action, t: TextEdit, after: TextEdit, damage: Damage) -> bool {
    match action {
        Action::Delete => deleted_forward(t, after, t.cursor < t.bytes().len()) && damage
            == preview_if(t.cursor < t.bytes().len()),
        Action::Backspace => backspaced(t, after, t.cursor > 0) && damage == preview_if(
            t.cursor > 0,
        ),
        Action::BackspaceWord => backspaced_word(t, after, t.cursor > 0) && damage
            == preview_if(t.cursor > 0),
        Action::MoveCursor(movement) => {
            &&& after.id == t.id
            &&& after.content == t.content
            &&& after.cursor == moved_cursor(t, movement)
            &&& damage == preview_if(after.cursor != t.cursor)
        },
        Action::InsertText(text) => typed(t, text@, after) && damage == Damage::Preview,
        _ => false,
    }
}

/// A preview when `changed`, nothing otherwise.
pub open spec fn preview_if(changed: bool) -> Damage {
    if changed { Damage::Preview } else { Damage::Unchanged }
}

/// The actions that act on the text while one is being typed.
pub open spec fn is_text_action(action: Action) -> bool {
    action is Delete || action is Backspace || action is BackspaceWord || action is MoveCursor
        || action is InsertText
}

/// What a text action repaints on the text `t` being typed.
pub open spec fn text_action_damage(action: Action, t: TextEdit) -> Damage {
    match action {
        Action::Delete => preview_if(t.cursor < t.bytes().len()),
        Action::Backspace => preview_if(t.cursor > 0),
        Action::BackspaceWord => preview_if(t.cursor > 0),
        Action::MoveCursor(movement) => preview_if(moved_cursor(t, movement) != t.cursor),
        _ => Damage::Preview,
    }
}

/// Whether handling `action` commits the text being typed: on
/// `CommitText`, and on the eraser toggle, which always changes the tool.
pub open spec fn commits_text_spec<T>(editor: Editor<T>, action: Action) -> bool {
    editor.interaction == Some(InteractionKind::EditingText) && (action is CommitText
        || action is ToggleEraser)
}

/// What handling `action` does to `before`, with `commit` what the caller
/// made of the text being typed: the wheel closes; Escape with the wheel
/// open only closes it; otherwise the action acts, and closing the wheel
/// repaints the previews.
pub open spec fn action_after<T>(
    before: Editor<T>,
    action: Action,
    commit: Option<TextCommit<T>>,
    after: Editor<T>,
    effect: EditorEffect,
) -> bool {
    let closed = before.picker is Some;
    let b = Editor { picker: None, ..before };
    let pv = preview_if(closed);
    if closed && action is Cancel {
        after == b && effect.damage == Damage::Preview && !effect.deactivate
    } else if action is Cancel {
        let c = cancel_damage_of(b);
        &&& dropped(b, after)
        &&& if c != Damage::Unchanged {
            &&& after.document == b.document
            &&& effect.damage == larger(c, Damage::Preview)
            &&& !effect.deactivate
        } else {
            &&& selection_set(b.document, after.document, Seq::<u64>::empty())
            &&& if b.document.selected_view().len() > 0 {
                effect.damage == Damage::Preview && !effect.deactivate
            } else {
                effect.damage == Damage::Unchanged && effect.deactivate
            }
        }
    } else {
        &&& !effect.deactivate
        &&& if is_text_action(action) && b.text is Some {
            &&& only_text_changed(b, after)
            &&& after.text is Some
            &&& text_action_after(
                action,
                b.text.unwrap(),
                after.text.unwrap(),
                text_action_damage(action, b.text.unwrap()),
            )
            &&& effect.damage == larger(text_action_damage(action, b.text.unwrap()), pv)
        } else {
            match action {
                Action::Undo => if b.text is None {
                    undo_after(b, after, undo_damage(b)) && effect.damage == larger(
                        undo_damage(b),
                        pv,
                    )
                } else {
                    after == b && effect.damage == pv
                },
                Action::Redo => if b.text is None {
                    redo_after(b, after, redo_damage(b)) && effect.damage == larger(
                        redo_damage(b),
                        pv,
                    )
                } else {
                    after == b && effect.damage == pv
                },
                Action::SelectAll => select_all_after(b, after, select_all_damage(b))
                    && effect.damage == larger(select_all_damage(b), pv),
                Action::ToggleEraser => switch_after(
                    b,
                    eraser_target(b.tools),
                    commit,
                    after,
                    switch_damage(b, eraser_target(b.tools), commit),
                ) && effect.damage == larger(switch_damage(b, eraser_target(b.tools), commit), pv),
                Action::Delete => delete_selection_after(b, after, delete_selection_damage(b))
                    && effect.damage == larger(delete_selection_damage(b), pv),
                Action::Clear => clear_after(b, after, clear_damage(b)) && effect.damage == larger(
                    clear_damage(b),
                    pv,
                ),
                Action::CommitText => dropped(b, after) && finished(b, commit, after.document)
                    && effect.damage == larger(commit_damage(b, commit), pv),
                _ => after == b && effect.damage == pv,
            }
        }
    }
}

/// What a button press does to `e0`, leaving `e1` and repainting `damage`,
/// as `Editor::pointer_down` says: the interaction is finished first, into
/// the document named `before` here, and then the active tool (or the
/// temporary eraser) acts.
pub open spec fn press_after<T>(
    e0: Editor<T>,
    modifiers: Modifiers,
    temporary_eraser: bool,
    hit: Option<u64>,
    handle_hit: Option<Handle>,
    commit: Option<TextCommit<T>>,
    e1: Editor<T>,
    damage: Damage,
) -> bool {
    exists|before: Document<T>|
        #[trigger] finished(e0, commit, before) && {
        let previous = finish_damage(e0, commit);
        let tool = e0.tools.tool_view();
        let after = e1.document;
        if temporary_eraser || tool == Tool::Eraser {
            &&& e1.interaction == Some(InteractionKind::Erasing)
            &&& match hit {
                Some(id) => id_removed(before, after, id) && damage == larger(
                    previous,
                    if has_id(before.elements_view(), id) {
                        Damage::Scene
                    } else {
                        Damage::Unchanged
                    },
                ),
                None => after == before && damage == previous,
            }
        } else if tool == Tool::Pen {
            &&& e1.interaction == Some(InteractionKind::Freehand { cached: false })
            &&& after == before
            &&& damage == larger(previous, Damage::Preview)
        } else if drags_shape(tool) {
            &&& e1.interaction == Some(InteractionKind::Drawing)
            &&& after == before
            &&& damage == larger(previous, Damage::Preview)
        } else if tool == Tool::Text {
            &&& e1.interaction == Some(InteractionKind::EditingText)
            &&& after == before
            &&& damage == larger(previous, Damage::Preview)
        } else if !modifiers.ctrl && before.selected_view().len() == 1
            && handle_hit is Some {
            &&& e1.interaction == Some(
                InteractionKind::Resizing { handle: handle_hit.unwrap() },
            )
            &&& after == before
            &&& damage == Damage::Scene
        } else if modifiers.ctrl {
            &&& e1.interaction is None
            &&& match hit {
                Some(id) => selection_set(
                    before,
                    after,
                    toggled(before.selected_view(), id),
                ) && damage == larger(previous, Damage::Preview),
                None => after == before && damage == previous,
            }
        } else {
            &&& selection_set(before, after, clicked(before.selected_view(), hit))
            &&& match hit {
                Some(id) => e1.interaction == Some(InteractionKind::Moving)
                    && damage == Damage::Scene,
                None => e1.interaction is None && damage == larger(
                    previous,
                    Damage::Preview,
                ),
            }
        }
    }
}

/// Pressing with the line, arrow, triangle, rectangle or ellipse tool, and
/// no temporary eraser, starts dragging out that shape: the document stays
/// as finishing the interaction left it (nothing is selected, grabbed or
/// erased), and the previews repaint.
pub proof fn lemma_shape_tools_draw<T>(
    e0: Editor<T>,
    modifiers: Modifiers,
    hit: Option<u64>,
    handle_hit: Option<Handle>,
    commit: Option<TextCommit<T>>,
    e1: Editor<T>,
    damage: Damage,
)
    requires
        press_after(e0, modifiers, false, hit, handle_hit, commit, e1, damage),
        e0.tools.tool_view() == Tool::Line || e0.tools.tool_view() == Tool::Arrow
            || e0.tools.tool_view() == Tool::Triangle || e0.tools.tool_view() == Tool::Rectangle
            || e0.tools.tool_view() == Tool::Ellipse,
    ensures
        e1.interaction == Some(InteractionKind::Drawing),
        finished(e0, commit, e1.document),
        damage == larger(finish_damage(e0, commit), Damage::Preview),
{
    let mid = choose|mid: Document<T>|
        #[trigger] finished(e0, commit, mid) && {
            let tool = e0.tools.tool_view();
            &&& drags_shape(tool)
            &&& e1.interaction == Some(InteractionKind::Drawing)
            &&& e1.document == mid
            &&& damage == larger(finish_damage(e0, commit), Damage::Preview)
        };
}

/// Backspace while typing deletes the one grapheme cluster before the
/// cursor and puts the cursor where that cluster began; at the start of the
/// text it changes nothing. The annotations stay as they are.
pub proof fn lemma_backspace_deletes_a_cluster<T>(
    before: Editor<T>,
    commit: Option<TextCommit<T>>,
    after: Editor<T>,
    effect: EditorEffect,
)
    requires
        before.text is Some,
        action_after(before, Action::Backspace, commit, after, effect),
    ensures
        after.text is Some,
        after.document == before.document,
        after.text.unwrap().id == before.text.unwrap().id,
        before.text.unwrap().cursor == 0 ==> after.text == before.text,
        before.text.unwrap().cursor > 0 ==> {
            let t = before.text.unwrap();
            let a = after.text.unwrap();
            &&& a.cursor == previous_boundary_of(t.content@, t.cursor as int)
            &&& a.bytes() == without_range(t.content@, a.cursor as int, t.cursor as int)
        },
        effect.damage == larger(
            preview_if(before.text.unwrap().cursor > 0),
            preview_if(before.picker is Some),
        ),
        !effect.deactivate,
{
}

/// Ctrl+Backspace while typing deletes back to the start of the word before
/// the cursor, where the cursor goes; at the start of the text it changes
/// nothing.
pub proof fn lemma_backspace_word_deletes_a_word<T>(
    before: Editor<T>,
    commit: Option<TextCommit<T>>,
    after: Editor<T>,
    effect: EditorEffect,
)
    requires
        before.text is Some,
        action_after(before, Action::BackspaceWord, commit, after, effect),
    ensures
        after.text is Some,
        after.document == before.document,
        before.text.unwrap().cursor == 0 ==> after.text == before.text,
        before.text.unwrap().cursor > 0 ==> {
            let t = before.text.unwrap();
            let a = after.text.unwrap();
            &&& a.id == t.id
            &&& a.cursor == previous_word_boundary_of(t.content@, t.cursor as int)
            &&& a.bytes() == without_range(t.content@, a.cursor as int, t.cursor as int)
        },
        !effect.deactivate,
{
}

/// Delete while typing deletes the one grapheme cluster after the cursor,
/// which stays put; at the end of the text it changes nothing. It deletes no
/// annotation.
pub proof fn lemma_delete_while_typing_deletes_a_cluster<T>(
    before: Editor<T>,
    commit: Option<TextCommit<T>>,
    after: Editor<T>,
    effect: EditorEffect,
)
    requires
        before.text is Some,
        action_after(before, Action::Delete, commit, after, effect),
    ensures
        after.text is Some,
        after.document == before.document,
        before.text.unwrap().cursor == before.text.unwrap().bytes().len() ==> after.text
            == before.text,
        before.text.unwrap().cursor < before.text.unwrap().bytes().len() ==> {
            let t = before.text.unwrap();
            let a = after.text.unwrap();
            &&& a.id == t.id
            &&& a.cursor == t.cursor
            &&& a.bytes() == without_range(
                t.content@,
                t.cursor as int,
                next_boundary_of(t.content@, t.cursor as int),
            )
        },
        !effect.deactivate,
{
}

/// Typing inserts the text at the cursor and moves the cursor past it; the
/// annotations stay as they are until the text is committed.
pub proof fn lemma_typing_inserts_at_the_cursor<T>(
    before: Editor<T>,
    text: String,
    commit: Option<TextCommit<T>>,
    after: Editor<T>,
    effect: EditorEffect,
)
    requires
        before.text is Some,
        action_after(before, Action::InsertText(text), commit, after, effect),
    ensures
        after.text is Some,
        after.document == before.document,
        ({
            let t = before.text.unwrap();
            let a = after.text.unwrap();
            &&& a.id == t.id
            &&& a.bytes() == t.bytes().subrange(0, t.cursor as int) + utf8(text@) + t.bytes().subrange(
                t.cursor as int,
                t.bytes().len() as int,
            )
            &&& a.cursor == t.cursor + utf8(text@).len()
        }),
        effect.damage == Damage::Preview,
        !effect.deactivate,
{
}

/// Pressing with the eraser, or with any tool and the temporary eraser,
/// erases the annotation under the pointer (the erasure recorded for undo)
/// and goes on erasing; nothing is selected or drawn.
pub proof fn lemma_eraser_press_erases<T>(
    e0: Editor<T>,
    modifiers: Modifiers,
    temporary_eraser: bool,
    id: u64,
    handle_hit: Option<Handle>,
    commit: Option<TextCommit<T>>,
    e1: Editor<T>,
    damage: Damage,
)
    requires
        press_after(e0, modifiers, temporary_eraser, Some(id), handle_hit, commit, e1, damage),
        temporary_eraser || e0.tools.tool_view() == Tool::Eraser,
    ensures
        e1.interaction == Some(InteractionKind::Erasing),
        exists|mid: Document<T>|
            #[trigger] finished(e0, commit, mid) && id_removed(mid, e1.document, id),
{
}

/// Pressing with the pen (and no temporary eraser) starts a freehand stroke
/// and leaves the document as finishing the interaction left it.
pub proof fn lemma_pen_press_starts_a_stroke<T>(
    e0: Editor<T>,
    modifiers: Modifiers,
    hit: Option<u64>,
    handle_hit: Option<Handle>,
    commit: Option<TextCommit<T>>,
    e1: Editor<T>,
    damage: Damage,
)
    requires
        press_after(e0, modifiers, false, hit, handle_hit, commit, e1, damage),
        e0.tools.tool_view() == Tool::Pen,
    ensures
        e1.interaction == Some(InteractionKind::Freehand { cached: false }),
        finished(e0, commit, e1.document),
        damage == larger(finish_damage(e0, commit), Damage::Preview),
{
}

/// A plain press with the select tool on an annotation, with no handle of
/// the one selected annotation under the pointer, selects it (keeping the
/// selection when it already belonged to it) and starts moving the selection.
pub proof fn lemma_select_press_grabs<T>(
    e0: Editor<T>,
    modifiers: Modifiers,
    id: u64,
    commit: Option<TextCommit<T>>,
    e1: Editor<T>,
    damage: Damage,
)
    requires
        press_after(e0, modifiers, false, Some(id), None, commit, e1, damage),
        e0.tools.tool_view() == Tool::Select,
        !modifiers.ctrl,
    ensures
        e1.interaction == Some(InteractionKind::Moving),
        e1.document.selected_view().contains(id),
        damage == Damage::Scene,
{
    let mid = choose|mid: Document<T>|
        #[trigger] finished(e0, commit, mid) && selection_set(
            mid,
            e1.document,
            clicked(mid.selected_view(), Some(id)),
        ) && e1.interaction == Some(InteractionKind::Moving) && damage == Damage::Scene;
    let sel = mid.selected_view();
    if !sel.contains(id) {
        assert(clicked(sel, Some(id)) =~= seq![id]);
        assert(seq![id][0] == id);
    }
}

/// `after` is `before` with the data of the annotations named in `changes`
/// replaced, in place, and the old data recorded for undo as one update;
/// unchanged when none of them is present.
pub open spec fn data_updated<T>(before: Document<T>, changes: Seq<(u64, T)>, after: Document<T>) -> bool {
    let els = before.elements_view();
    let present = present_changes(changes, els);
    let (olds, updated) = apply_updates(present, els);
    &&& after.elements_view() == updated
    &&& after.selected_view() == before.selected_view()
    &&& after.next_id_view() == before.next_id_view()
    &&& if present.len() > 0 {
        &&& after.undo_stack() == recorded(before.undo_stack(), EntryModel::Update(olds))
        &&& after.redo_stack() == Seq::<EntryModel<T>>::empty()
    } else {
        &&& after.undo_stack() == before.undo_stack()
        &&& after.redo_stack() == before.redo_stack()
    }
}

/// `after` is `before` with `data` added on top under the next id, the
/// insertion recorded for undo.
pub open spec fn added<T>(before: Document<T>, data: T, after: Document<T>) -> bool {
    let els = before.elements_view();
    &&& after.elements_view() == els.push(Element { id: before.next_id_view(), data: data })
    &&& after.next_id_view() == before.next_id_view() + 1
    &&& after.selected_view() == before.selected_view()
    &&& after.undo_stack() == recorded(
        before.undo_stack(),
        EntryModel::Insert(seq![(els.len() as usize, before.next_id_view())]),
    )
    &&& after.redo_stack() == Seq::<EntryModel<T>>::empty()
}

/// The caller has handed what releasing the button needs: the annotation a
/// stroke or a dragged shape becomes, with room for one more id.
pub open spec fn release_ready<T>(editor: Editor<T>, drawn: Option<T>) -> bool {
    match editor.interaction {
        Some(InteractionKind::Freehand { .. }) | Some(InteractionKind::Drawing) => drawn is Some
            && editor.document.next_id_view() < u64::MAX,
        _ => true,
    }
}

/// Committing a non-empty text and then undoing once gives back the
/// annotations as they were: a new text is taken off again, an edited text
/// gets its former data back.
pub proof fn lemma_commit_then_undo<T>(
    before: Document<T>,
    t: TextEdit,
    commit: Option<TextCommit<T>>,
    committed: Document<T>,
    undone: Document<T>,
)
    requires
        before.wf(),
        committed.wf(),
        t.bytes().len() > 0,
        commit is Some,
        t.id matches Some(id) ==> has_id(before.elements_view(), id),
        !(t.id is Some && commit.unwrap().unchanged),
        text_committed(before, t, commit, committed),
        undo_step(committed, undone),
    ensures
        undone.elements_view() == before.elements_view(),
{
    let els = before.elements_view();
    let after = committed.elements_view();
    lemma_ids_unique(before);
    lemma_ids_unique(committed);
    match t.id {
        None => {
            let index = els.len();
            let id = before.next_id_view();
            let ins = seq![(index as usize, id)];
            assert(committed.undo_stack().last() == EntryModel::<T>::Insert(ins));
            lemma_position_unique(after, index as int);
            assert(after.remove(index as int) =~= els);
            assert(ins.drop_last() =~= Seq::<(usize, u64)>::empty());
            assert(after[index as int].id == id);
            assert(ins.last().1 == id);
            let r = take_inserted(ins.drop_last(), after.remove(index as int));
            assert(r == (Seq::<(usize, Element<T>)>::empty(), els));
            assert(take_inserted(ins, after).1 == els);
        },
        Some(id) => {
            let p = position_of(els, id);
            let data = commit.unwrap().data;
            let ups = seq![(id, data)];
            lemma_position_found(els, id);
            assert(ups.drop_last() =~= Seq::<(u64, T)>::empty());
            assert(apply_updates(ups.drop_last(), els) == (Seq::<(u64, T)>::empty(), els));
            assert(ups.last() == (id, data));
            assert(apply_updates(ups, els) == (
                Seq::<(u64, T)>::empty().push((id, els[p].data)),
                els.update(p, Element { id: id, data: data }),
            ));
            assert(updates_match(ups, els));
            lemma_update_round_trip(ups, els);
            assert(Seq::<(u64, T)>::empty().push((id, els[p].data)) =~= seq![(id, els[p].data)]);
            assert(committed.undo_stack().last() == EntryModel::<T>::Update(seq![(id, els[p].data)]));
        },
    }
}

impl<T> Editor<T> {
    /// The tools and the annotations are well formed, and a text is being
    /// typed exactly while the interaction is typing, with its cursor on a
    /// character boundary and the annotation it edits present.
    pub open spec fn wf(&self) -> bool {
        &&& self.tools.wf()
        &&& self.document.wf()
        &&& (self.interaction == Some(InteractionKind::EditingText)) == (self.text is Some)
        &&& self.text matches Some(t) ==> t.wf()
        &&& self.text matches Some(t) ==> (t.id matches Some(id) ==> has_id(
            self.document.elements_view(),
            id,
        ))
    }

    /// Drops the interaction and any text being typed; returns what that repaints.
    pub fn cancel_interaction(&mut self) -> (damage: Damage)
        requires
            old(self).wf(),
        ensures
            final(self).wf(),
            dropped(*old(self), *final(self)),
            final(self).document == old(self).document,
            damage == cancel_damage_of(*old(self)),
    {
        let damage = cancel_damage(self.interaction);
        self.interaction = None;
        self.text = None;
        damage
    }

    /// Undoes the most recent edit after dropping the interaction.
    pub fn undo(&mut self) -> (damage: Damage)
        requires
            old(self).wf(),
        ensures
            final(self).wf(),
            undo_after(*old(self), *final(self), damage),
            damage == undo_damage(*old(self)),
    {
        let cancelled = self.cancel_interaction();
        if !self.document.undo() {
            return cancelled;
        }
        Damage::Scene
    }

    /// Redoes the most recently undone edit after dropping the interaction.
    pub fn redo(&mut self) -> (damage: Damage)
        requires
            old(self).wf(),
        ensures
            final(self).wf(),
            redo_after(*old(self), *final(self), damage),
            damage == redo_damage(*old(self)),
    {
        let cancelled = self.cancel_interaction();
        if !self.document.redo() {
            return cancelled;
        }
        Damage::Scene
    }

    /// Commits the text `t` taken out of the editor, as `text_committed`
    /// says.
    fn commit_edit(&mut self, t: TextEdit, commit: Option<TextCommit<T>>) -> (damage: Damage)
        requires
            old(self).tools.wf(),
            old(self).document.wf(),
            t.id matches Some(id) ==> has_id(old(self).document.elements_view(), id),
            t.bytes().len() > 0 ==> commit is Some,
            t.bytes().len() > 0 && t.id is None ==> old(self).document.next_id_view() < u64::MAX,
        ensures
            final(self).document.wf(),
            final(self).tools == old(self).tools,
            final(self).interaction == old(self).interaction,
            final(self).text == old(self).text,
            final(self).picker == old(self).picker,
            text_committed(old(self).document, t, commit, final(self).document),
            damage == text_commit_damage(old(self).document, t, commit),
    {
        if t.content.as_str().as_bytes().len() == 0 {
            return match t.id {
                Some(id) => Damage::from_scene(self.document.remove_id(id)),
                None => Damage::Preview,
            };
        }
        let c = commit.unwrap();
        match t.id {
            None => {
                self.document.insert_kind(c.data);
                Damage::Scene
            },
            Some(id) => if c.unchanged {
                Damage::Preview
            } else {
                let ghost els = self.document.elements_view();
                let ghost data = c.data;
                let mut changes: Vec<(u64, T)> = Vec::new();
                changes.push((id, c.data));
                let ghost ch = seq![(id, data)];
                proof {
                    assert(changes@ =~= ch);
                    assert(ch.drop_last() =~= Seq::<(u64, T)>::empty());
                    assert(present_changes(ch.drop_last(), els) =~= Seq::<(u64, T)>::empty());
                    assert(ch.last() == (id, data));
                    assert(present_changes(ch, els) =~= ch);
                    assert(apply_updates(ch.drop_last(), els) == (Seq::<(u64, T)>::empty(), els));
                    let p = position_of(els, id);
                    assert(apply_updates(ch, els) == (
                        Seq::<(u64, T)>::empty().push((id, els[p].data)),
                        els.update(p, Element { id: id, data: data }),
                    ));
                    assert(Seq::<(u64, T)>::empty().push((id, els[p].data)) =~= seq![(id, els[p].data)]);
                }
                self.document.replace_data(changes);
                Damage::Scene
            },
        }
    }

    /// Finishes the interaction: the text being typed is committed, any
    /// other interaction dropped.
    pub fn finish_interaction(&mut self, commit: Option<TextCommit<T>>) -> (damage: Damage)
        requires
            old(self).wf(),
            commit_ready(*old(self), commit),
        ensures
            final(self).wf(),
            dropped(*old(self), *final(self)),
            finished(*old(self), commit, final(self).document),
            damage == finish_damage(*old(self), commit),
    {
        match self.text.take() {
            Some(t) => {
                self.interaction = None;
                self.commit_edit(t, commit)
            },
            None => self.cancel_interaction(),
        }
    }

    /// Ends the text being typed, committed as `text_committed` says with
    /// `commit`, the annotation the caller made of it. Any other interaction
    /// is dropped without repainting.
    pub fn commit_text(&mut self, commit: Option<TextCommit<T>>) -> (damage: Damage)
        requires
            old(self).wf(),
            commit_ready(*old(self), commit),
        ensures
            final(self).wf(),
            dropped(*old(self), *final(self)),
            finished(*old(self), commit, final(self).document),
            damage == commit_damage(*old(self), commit),
    {
        if self.text.is_some() {
            self.finish_interaction(commit)
        } else {
            self.interaction = None;
            Damage::Unchanged
        }
    }

    /// Makes `tool` active: the interaction is finished (the text being
    /// typed committed) and the selection emptied; nothing when `tool` is
    /// active already.
    pub fn switch_tool(&mut self, tool: Tool, commit: Option<TextCommit<T>>) -> (damage: Damage)
        requires
            old(self).wf(),
            commit_ready(*old(self), commit),
        ensures
            final(self).wf(),
            switch_after(*old(self), tool, commit, *final(self), damage),
            damage == switch_damage(*old(self), tool, commit),
    {
        if self.tools.tool() == tool {
            return Damage::Unchanged;
        }
        let done = self.finish_interaction(commit);
        let ghost mid = self.document;
        self.document.select_hit(None);
        self.tools.switch_to(tool);
        proof {
            assert(finished(*old(self), commit, mid));
        }
        done.max(Damage::Preview)
    }

    /// Switches between the eraser and the last other tool.
    pub fn toggle_eraser(&mut self, commit: Option<TextCommit<T>>) -> (damage: Damage)
        requires
            old(self).wf(),
            commit_ready(*old(self), commit),
        ensures
            final(self).wf(),
            switch_after(*old(self), eraser_target(old(self).tools), commit, *final(self), damage),
            damage == switch_damage(*old(self), eraser_target(old(self).tools), commit),
    {
        let tool = self.tools.eraser_toggle();
        self.switch_tool(tool, commit)
    }

    /// Drawing mode comes on: back to the default tool unless the last tool
    /// is remembered.
    pub fn activate(&mut self, commit: Option<TextCommit<T>>) -> (damage: Damage)
        requires
            old(self).wf(),
            commit_ready(*old(self), commit),
        ensures
            final(self).wf(),
            match old(self).tools.activation_spec() {
                None => *final(self) == *old(self) && damage == Damage::Unchanged,
                Some(tool) => switch_after(*old(self), tool, commit, *final(self), damage),
            },
    {
        match self.tools.activation_tool() {
            None => Damage::Unchanged,
            Some(tool) => self.switch_tool(tool, commit),
        }
    }

    /// Drawing mode goes off: the interaction is finished (the text being
    /// typed committed), the selection emptied and the wheel closed.
    pub fn deactivate(&mut self, commit: Option<TextCommit<T>>) -> (damage: Damage)
        requires
            old(self).wf(),
            commit_ready(*old(self), commit),
        ensures
            final(self).wf(),
            final(self).interaction is None,
            final(self).text is None,
            final(self).picker is None,
            final(self).tools == old(self).tools,
            exists|mid: Document<T>|
                #[trigger] finished(*old(self), commit, mid) && selection_set(
                    mid,
                    final(self).document,
                    Seq::<u64>::empty(),
                ) && damage == larger(
                    finish_damage(*old(self), commit),
                    preview_if(mid.selected_view().len() > 0 || old(self).picker is Some),
                ),
    {
        let done = self.finish_interaction(commit);
        let ghost mid = self.document;
        let had_selection = self.document.selected().len() > 0;
        self.document.select_hit(None);
        let had_picker = self.picker.is_some();
        self.picker = None;
        proof {
            assert(finished(*old(self), commit, mid));
        }
        done.max(Damage::from_preview(had_selection || had_picker))
    }

    /// Drawing mode goes off because Escape had nothing left to cancel; with
    /// `clear_on_escape` the annotations are cleared too, as one step that
    /// undo brings back.
    pub fn leave_on_escape(
        &mut self,
        clear_on_escape: bool,
        commit: Option<TextCommit<T>>,
    ) -> (damage: Damage)
        requires
            old(self).wf(),
            commit_ready(*old(self), commit),
        ensures
            final(self).wf(),
            final(self).interaction is None,
            final(self).text is None,
            final(self).picker is None,
            final(self).tools == old(self).tools,
            exists|mid: Document<T>|
                #[trigger] finished(*old(self), commit, mid) && if clear_on_escape
                    && mid.elements_view().len() > 0 {
                    list_cleared(mid, final(self).document) && damage == Damage::Scene
                } else {
                    &&& selection_set(mid, final(self).document, Seq::<u64>::empty())
                    &&& damage == larger(
                        finish_damage(*old(self), commit),
                        preview_if(mid.selected_view().len() > 0 || old(self).picker is Some),
                    )
                },
    {
        let damage = self.deactivate(commit);
        let ghost left = *self;
        let ghost mid = choose|mid: Document<T>|
            #[trigger] finished(*old(self), commit, mid) && selection_set(
                mid,
                left.document,
                Seq::<u64>::empty(),
            ) && damage == larger(
                finish_damage(*old(self), commit),
                preview_if(mid.selected_view().len() > 0 || old(self).picker is Some),
            );
        if clear_on_escape && self.document.elements().len() > 0 {
            let cleared = self.clear();
            proof {
                assert(finished(*old(self), commit, mid));
            }
            cleared
        } else {
            proof {
                assert(finished(*old(self), commit, mid));
            }
            damage
        }
    }

    /// Opens the tool wheel under the pointer or the pen, nothing hovered.
    pub fn open_tool_wheel(&mut self) -> (damage: Damage)
        requires
            old(self).wf(),
        ensures
            final(self).wf(),
            *final(self) == (Editor { picker: Some(Wheel::Tools { hovered: None }), ..*old(self) }),
            damage == Damage::Preview,
    {
        self.picker = Some(Wheel::Tools { hovered: None });
        Damage::Preview
    }

    /// Closes the wheel; repaints the previews when one was open.
    pub fn dismiss_wheel(&mut self) -> (damage: Damage)
        requires
            old(self).wf(),
        ensures
            final(self).wf(),
            *final(self) == (Editor { picker: None, ..*old(self) }),
            damage == preview_if(old(self).picker is Some),
    {
        let open = self.picker.is_some();
        self.picker = None;
        Damage::from_preview(open)
    }

    /// The right button: closes the wheel when one is open, else opens the
    /// tool wheel.
    pub fn toggle_wheel(&mut self) -> (damage: Damage)
        requires
            old(self).wf(),
        ensures
            final(self).wf(),
            *final(self) == (Editor {
                picker: if old(self).picker is Some {
                    None
                } else {
                    Some(Wheel::Tools { hovered: None })
                },
                ..*old(self)
            }),
            damage == Damage::Preview,
    {
        if self.picker.is_some() {
            self.dismiss_wheel()
        } else {
            self.open_tool_wheel()
        }
    }

    /// The pointer moved over the open wheel; `tool_choice` and
    /// `color_choice` are what lies under it on the tool wheel and on the
    /// color wheel. The open wheel's hovered choice follows; the previews are
    /// repainted when it changed.
    pub fn wheel_motion(&mut self, tool_choice: Option<Tool>, color_choice: Option<usize>) -> (damage: Damage)
        requires
            old(self).wf(),
        ensures
            final(self).wf(),
            match old(self).picker {
                None => *final(self) == *old(self) && damage == Damage::Unchanged,
                Some(Wheel::Tools { hovered }) => *final(self) == (Editor {
                    picker: Some(Wheel::Tools { hovered: tool_choice }),
                    ..*old(self)
                }) && damage == preview_if(hovered != tool_choice),
                Some(Wheel::Colors { hovered }) => *final(self) == (Editor {
                    picker: Some(Wheel::Colors { hovered: color_choice }),
                    ..*old(self)
                }) && damage == preview_if(hovered != color_choice),
            },
    {
        match self.picker {
            None => Damage::Unchanged,
            Some(Wheel::Tools { hovered }) => {
                let changed = !same_tool(hovered, tool_choice);
                self.picker = Some(Wheel::Tools { hovered: tool_choice });
                Damage::from_preview(changed)
            },
            Some(Wheel::Colors { hovered }) => {
                let changed = !same_color(hovered, color_choice);
                self.picker = Some(Wheel::Colors { hovered: color_choice });
                Damage::from_preview(changed)
            },
        }
    }

    /// The button is released over the open wheel, which closes. On the tool
    /// wheel the tool under the pointer is chosen, as switching tools does
    /// (the text being typed committed with `commit`), and its middle opens
    /// the color wheel instead. On the color wheel the palette index under
    /// the pointer is handed back, for the caller to apply its color.
    pub fn wheel_release(
        &mut self,
        tool_choice: Option<Tool>,
        color_choice: Option<usize>,
        commit: Option<TextCommit<T>>,
    ) -> (result: (Damage, Option<usize>))
        requires
            old(self).wf(),
            commit_ready(*old(self), commit),
        ensures
            final(self).wf(),
            match old(self).picker {
                None => *final(self) == *old(self) && result == (Damage::Unchanged, None::<usize>),
                Some(Wheel::Tools { .. }) => match tool_choice {
                    Some(tool) => {
                        let closed = Editor { picker: None, ..*old(self) };
                        &&& switch_after(closed, tool, commit, *final(self), switch_damage(closed, tool, commit))
                        &&& result == (larger(Damage::Preview, switch_damage(closed, tool, commit)), None::<usize>)
                    },
                    None => *final(self) == (Editor {
                        picker: Some(Wheel::Colors { hovered: None }),
                        ..*old(self)
                    }) && result == (Damage::Preview, None::<usize>),
                },
                Some(Wheel::Colors { .. }) => *final(self) == (Editor { picker: None, ..*old(self) })
                    && result == (Damage::Preview, color_choice),
            },
    {
        match self.picker {
            None => (Damage::Unchanged, None),
            Some(Wheel::Tools { .. }) => {
                self.picker = None;
                match tool_choice {
                    Some(tool) => {
                        let switched = self.switch_tool(tool, commit);
                        (Damage::Preview.max(switched), None)
                    },
                    None => {
                        self.picker = Some(Wheel::Colors { hovered: None });
                        (Damage::Preview, None)
                    },
                }
            },
            Some(Wheel::Colors { .. }) => {
                self.picker = None;
                (Damage::Preview, color_choice)
            },
        }
    }

    /// A palette color is applied: to the text being typed, whose style is
    /// the caller's (the previews repaint); else to the selected annotations,
    /// for which `recolored` holds the new data of those whose color changes.
    /// Recoloring is recorded for undo as one update and repaints the picture;
    /// with nothing to recolor only the previews repaint.
    pub fn apply_color(&mut self, recolored: Vec<(u64, T)>) -> (damage: Damage)
        requires
            old(self).wf(),
            distinct_changes(recolored@),
            forall|i: int|
                0 <= i < recolored@.len() ==> old(self).document.selected_view().contains(
                    #[trigger] recolored@[i].0,
                ),
        ensures
            final(self).wf(),
            final(self).tools == old(self).tools,
            final(self).interaction == old(self).interaction,
            final(self).text == old(self).text,
            final(self).picker == old(self).picker,
            if old(self).text is Some || old(self).document.selected_view().len() == 0 {
                final(self).document == old(self).document && damage == Damage::Preview
            } else {
                let els = old(self).document.elements_view();
                let present = present_changes(recolored@, els);
                let (olds, updated) = apply_updates(present, els);
                &&& final(self).document.elements_view() == updated
                &&& final(self).document.selected_view() == old(self).document.selected_view()
                &&& final(self).document.next_id_view() == old(self).document.next_id_view()
                &&& if present.len() > 0 {
                    &&& final(self).document.undo_stack() == recorded(
                        old(self).document.undo_stack(),
                        EntryModel::Update(olds),
                    )
                    &&& final(self).document.redo_stack() == Seq::<EntryModel<T>>::empty()
                    &&& damage == Damage::Scene
                } else {
                    &&& final(self).document.undo_stack() == old(self).document.undo_stack()
                    &&& final(self).document.redo_stack() == old(self).document.redo_stack()
                    &&& damage == Damage::Preview
                }
            },
    {
        if self.text.is_some() || self.document.selected().len() == 0 {
            return Damage::Preview;
        }
        if self.document.replace_data(recolored) {
            Damage::Scene
        } else {
            Damage::Preview
        }
    }

    /// The pointer moves. A freehand stroke grows (`stroke_changed`: its
    /// preview changed; `froze_chunk`: part of it moved into the committed
    /// picture, which then repaints); drags repaint their previews; erasing
    /// erases `hit`, the annotation under the pointer.
    pub fn pointer_motion(&mut self, hit: Option<u64>, stroke_changed: bool, froze_chunk: bool) -> (damage: Damage)
        requires
            old(self).wf(),
        ensures
            final(self).wf(),
            final(self).tools == old(self).tools,
            final(self).text == old(self).text,
            final(self).picker == old(self).picker,
            match old(self).interaction {
                Some(InteractionKind::Freehand { cached }) => {
                    &&& final(self).interaction == Some(
                        InteractionKind::Freehand { cached: cached || froze_chunk },
                    )
                    &&& final(self).document == old(self).document
                    &&& damage == if froze_chunk {
                        Damage::Scene
                    } else {
                        preview_if(stroke_changed)
                    }
                },
                Some(InteractionKind::Erasing) => {
                    &&& final(self).interaction == old(self).interaction
                    &&& match hit {
                        Some(id) => id_removed(old(self).document, final(self).document, id)
                            && damage == if has_id(old(self).document.elements_view(), id) {
                            Damage::Scene
                        } else {
                            Damage::Unchanged
                        },
                        None => final(self).document == old(self).document && damage
                            == Damage::Unchanged,
                    }
                },
                Some(InteractionKind::Drawing) | Some(InteractionKind::Moving) | Some(
                    InteractionKind::Resizing { .. },
                ) => *final(self) == *old(self) && damage == Damage::Preview,
                _ => *final(self) == *old(self) && damage == Damage::Unchanged,
            },
    {
        match self.interaction {
            Some(InteractionKind::Freehand { cached }) => {
                self.interaction = Some(InteractionKind::Freehand { cached: cached || froze_chunk });
                if froze_chunk {
                    Damage::Scene
                } else {
                    Damage::from_preview(stroke_changed)
                }
            },
            Some(InteractionKind::Erasing) => match hit {
                Some(id) => Damage::from_scene(self.document.remove_id(id)),
                None => Damage::Unchanged,
            },
            Some(InteractionKind::Drawing) | Some(InteractionKind::Moving) | Some(
                InteractionKind::Resizing { .. },
            ) => Damage::Preview,
            _ => Damage::Unchanged,
        }
    }

    /// The button is released. A freehand stroke or a dragged shape becomes
    /// the annotation `drawn`, added on top; a move or a resize stores
    /// `moved`, the new data of the annotations it changed (none when the
    /// pointer came back to where it started), as one update; each repaints
    /// the picture. Erasing just ends; typing goes on.
    pub fn pointer_up(&mut self, drawn: Option<T>, moved: Vec<(u64, T)>) -> (damage: Damage)
        requires
            old(self).wf(),
            release_ready(*old(self), drawn),
            distinct_changes(moved@),
        ensures
            final(self).wf(),
            final(self).tools == old(self).tools,
            final(self).text == old(self).text,
            final(self).picker == old(self).picker,
            match old(self).interaction {
                Some(InteractionKind::Freehand { .. }) | Some(InteractionKind::Drawing) => {
                    &&& final(self).interaction is None
                    &&& added(old(self).document, drawn.unwrap(), final(self).document)
                    &&& damage == Damage::Scene
                },
                Some(InteractionKind::Moving) | Some(InteractionKind::Resizing { .. }) => {
                    &&& final(self).interaction is None
                    &&& data_updated(old(self).document, moved@, final(self).document)
                    &&& damage == Damage::Scene
                },
                Some(InteractionKind::Erasing) => {
                    &&& final(self).interaction is None
                    &&& final(self).document == old(self).document
                    &&& damage == Damage::Unchanged
                },
                _ => *final(self) == *old(self) && damage == Damage::Unchanged,
            },
    {
        match self.interaction {
            Some(InteractionKind::Freehand { .. }) | Some(InteractionKind::Drawing) => {
                self.interaction = None;
                match drawn {
                    Some(data) => {
                        self.document.insert_kind(data);
                    },
                    None => {},
                }
                Damage::Scene
            },
            Some(InteractionKind::Moving) | Some(InteractionKind::Resizing { .. }) => {
                self.interaction = None;
                self.document.replace_data(moved);
                Damage::Scene
            },
            Some(InteractionKind::Erasing) => {
                self.interaction = None;
                Damage::Unchanged
            },
            _ => Damage::Unchanged,
        }
    }

    /// Selects every annotation with the select tool.
    pub fn select_all(&mut self) -> (damage: Damage)
        requires
            old(self).wf(),
        ensures
            final(self).wf(),
            select_all_after(*old(self), *final(self), damage),
            damage == select_all_damage(*old(self)),
    {
        let cancelled = self.cancel_interaction();
        if self.document.elements().len() == 0 {
            return cancelled;
        }
        let switched_damage = self.switch_tool(Tool::Select, None);
        let damage = cancelled.max(switched_damage);
        let changed = self.document.select_all();
        if changed {
            damage.max(Damage::Preview)
        } else {
            damage
        }
    }

    /// Deletes the selected annotations, dropping the interaction first.
    pub fn delete_selection(&mut self) -> (damage: Damage)
        requires
            old(self).wf(),
        ensures
            final(self).wf(),
            delete_selection_after(*old(self), *final(self), damage),
            damage == delete_selection_damage(*old(self)),
    {
        if self.document.selected().len() == 0 {
            return Damage::Unchanged;
        }
        let cancelled = self.cancel_interaction();
        let changed = self.document.delete_selection();
        cancelled.max(Damage::from_scene(changed))
    }

    /// Clears every annotation, dropping the interaction first.
    pub fn clear(&mut self) -> (damage: Damage)
        requires
            old(self).wf(),
        ensures
            final(self).wf(),
            clear_after(*old(self), *final(self), damage),
            damage == clear_damage(*old(self)),
    {
        let cancelled = self.cancel_interaction();
        if self.document.elements().len() == 0 {
            return cancelled;
        }
        self.document.clear();
        Damage::Scene
    }

    /// A double click with the select tool on the one selected annotation:
    /// when it is a text annotation under the pointer, whose content the
    /// caller passes as `text`, and still present, editing it starts with the
    /// cursor at the end; the commit then updates that annotation.
    pub fn double_click_at(&mut self, text: Option<String>) -> (damage: Damage)
        requires
            old(self).wf(),
        ensures
            final(self).wf(),
            if old(self).tools.tool_view() == Tool::Select && old(self).document.selected_view().len()
                == 1 && has_id(old(self).document.elements_view(), old(self).document.selected_view()[0])
                && text is Some {
                &&& damage == Damage::Scene
                &&& final(self).interaction == Some(InteractionKind::EditingText)
                &&& final(self).text == Some(
                    TextEdit {
                        id: Some(old(self).document.selected_view()[0]),
                        content: text.unwrap(),
                        cursor: utf8(text.unwrap()@).len() as usize,
                    },
                )
                &&& final(self).tools == old(self).tools
                &&& final(self).document == old(self).document
                &&& final(self).picker == old(self).picker
            } else {
                *final(self) == *old(self) && damage == Damage::Unchanged
            },
    {
        if self.tools.tool() != Tool::Select || self.document.selected().len() != 1 {
            return Damage::Unchanged;
        }
        let id = self.document.selected()[0];
        if self.document.element(id).is_none() {
            return Damage::Unchanged;
        }
        match text {
            None => Damage::Unchanged,
            Some(content) => {
                let cursor = content.as_str().as_bytes().len();
                proof {
                    encode_utf8_valid_utf8(content@);
                    is_char_boundary_start_end_of_seq(utf8(content@));
                }
                self.interaction = Some(InteractionKind::EditingText);
                self.text = Some(TextEdit { id: Some(id), content, cursor });
                Damage::Scene
            },
        }
    }

    /// A button press at the pointer. The current interaction is finished
    /// first: the text being typed is committed with `commit`, what the
    /// caller made of it; any other is dropped. Then, with the eraser (or the
    /// temporary eraser of the middle button or the pen's button) the
    /// annotation `hit` under the pointer is erased; the pen starts a stroke;
    /// the line and shape tools start a drag; the text tool starts typing;
    /// the select tool grabs `handle_hit`, the handle under the pointer of
    /// the one selected annotation, unless Ctrl is held, and otherwise
    /// toggles `hit` in the selection with Ctrl, or selects it and starts
    /// moving the selection. Returns what must be redrawn.
    pub fn pointer_down(
        &mut self,
        modifiers: Modifiers,
        temporary_eraser: bool,
        hit: Option<u64>,
        handle_hit: Option<Handle>,
        commit: Option<TextCommit<T>>,
    ) -> (damage: Damage)
        requires
            old(self).wf(),
            commit_ready(*old(self), commit),
        ensures
            final(self).wf(),
            final(self).tools == old(self).tools,
            final(self).picker == old(self).picker,
            old(self).tools.tool_view() == Tool::Text && !temporary_eraser ==> final(self).text is Some
                && final(self).text.unwrap().id is None
                && final(self).text.unwrap().content@ == Seq::<char>::empty()
                && final(self).text.unwrap().cursor == 0,
            !(old(self).tools.tool_view() == Tool::Text && !temporary_eraser)
                ==> final(self).text is None,
            press_after(*old(self), modifiers, temporary_eraser, hit, handle_hit, commit, *final(self), damage),
    {
        let previous = self.finish_interaction(commit);
        let ghost mid = self.document;
        proof {
            assert(finished(*old(self), commit, mid));
        }
        let tool = self.tools.tool();
        if temporary_eraser || tool == Tool::Eraser {
            self.interaction = Some(InteractionKind::Erasing);
            let removed = match hit {
                Some(id) => self.document.remove_id(id),
                None => false,
            };
            return previous.max(Damage::from_scene(removed));
        }
        if tool == Tool::Pen {
            self.interaction = Some(InteractionKind::Freehand { cached: false });
            return previous.max(Damage::Preview);
        }
        if tool == Tool::Line || tool == Tool::Arrow || tool == Tool::Triangle || tool
            == Tool::Rectangle || tool == Tool::Ellipse {
            self.interaction = Some(InteractionKind::Drawing);
            return previous.max(Damage::Preview);
        }
        if tool == Tool::Text {
            proof {
                encode_utf8_valid_utf8(Seq::<char>::empty());
                is_char_boundary_start_end_of_seq(utf8(Seq::<char>::empty()));
            }
            self.text = Some(TextEdit { id: None, content: String::new(), cursor: 0 });
            self.interaction = Some(InteractionKind::EditingText);
            return previous.max(Damage::Preview);
        }
        if !modifiers.ctrl && self.document.selected().len() == 1 {
            if let Some(handle) = handle_hit {
                self.interaction = Some(InteractionKind::Resizing { handle });
                return Damage::Scene;
            }
        }
        if modifiers.ctrl {
            return match hit {
                Some(id) => {
                    self.document.toggle_selected(id);
                    previous.max(Damage::Preview)
                },
                None => previous,
            };
        }
        let changed = self.document.select_hit(hit);
        if hit.is_some() {
            self.interaction = Some(InteractionKind::Moving);
            Damage::Scene
        } else {
            previous.max(Damage::from_preview(changed))
        }
    }

    /// Whether handling `action` commits the text being typed, for which the
    /// caller hands `handle_action` the annotation it makes of the text.
    pub fn commits_text(&self, action: &Action) -> (commits: bool)
        ensures
            commits == commits_text_spec(*self, *action),
    {
        match self.interaction {
            Some(InteractionKind::EditingText) => match action {
                Action::CommitText | Action::ToggleEraser => true,
                _ => false,
            },
            _ => false,
        }
    }

    /// Handles an action: closes the wheel (Escape with the wheel open does
    /// only that); undo and redo unless typing; select all; the eraser
    /// toggle; deleting the selection, or while typing the cluster after the
    /// cursor; clearing; Escape drops the interaction, else empties the
    /// selection, else asks to leave drawing mode; committing the text; and
    /// the typing actions. Fill toggling acts on the caller's properties and
    /// does nothing here. `commit` is what the caller made of the text being
    /// typed, for the actions that commit it (`commits_text`).
    pub fn handle_action(&mut self, action: Action, commit: Option<TextCommit<T>>) -> (effect: EditorEffect)
        requires
            old(self).wf(),
            commits_text_spec(*old(self), action) ==> commit_ready(*old(self), commit),
            match (old(self).text, action) {
                (Some(t), Action::InsertText(text)) => t.bytes().len() + utf8(text@).len()
                    <= usize::MAX,
                _ => true,
            },
        ensures
            final(self).wf(),
            effect.feedback is None,
            action_after(*old(self), action, commit, *final(self), effect),
    {
        let closed = self.picker.is_some();
        self.picker = None;
        if closed && matches!(action, Action::Cancel) {
            return EditorEffect { damage: Damage::Preview, deactivate: false, feedback: None };
        }
        let mut deactivate = false;
        let typing = self.text.is_some();
        let inner = match action {
            Action::Undo => if typing {
                Damage::Unchanged
            } else {
                self.undo()
            },
            Action::Redo => if typing {
                Damage::Unchanged
            } else {
                self.redo()
            },
            Action::SelectAll => self.select_all(),
            Action::ToggleEraser => self.toggle_eraser(commit),
            Action::ToggleFill => Damage::Unchanged,
            Action::Delete => if typing {
                let mut t = self.text.take().unwrap();
                let changed = t.delete();
                self.text = Some(t);
                Damage::from_preview(changed)
            } else {
                self.delete_selection()
            },
            Action::Clear => self.clear(),
            Action::Cancel => {
                let cancelled = self.cancel_interaction();
                if cancelled.changed() {
                    cancelled.max(Damage::Preview)
                } else {
                    let had_selection = self.document.selected().len() > 0;
                    self.document.select_hit(None);
                    if had_selection {
                        Damage::Preview
                    } else {
                        deactivate = true;
                        Damage::Unchanged
                    }
                }
            },
            Action::CommitText => self.commit_text(commit),
            Action::Backspace => if typing {
                let mut t = self.text.take().unwrap();
                let changed = t.backspace();
                self.text = Some(t);
                Damage::from_preview(changed)
            } else {
                Damage::Unchanged
            },
            Action::BackspaceWord => if typing {
                let mut t = self.text.take().unwrap();
                let changed = t.backspace_word();
                self.text = Some(t);
                Damage::from_preview(changed)
            } else {
                Damage::Unchanged
            },
            Action::MoveCursor(movement) => if typing {
                let mut t = self.text.take().unwrap();
                let changed = t.move_cursor(movement);
                self.text = Some(t);
                Damage::from_preview(changed)
            } else {
                Damage::Unchanged
            },
            Action::InsertText(text) => if typing {
                let mut t = self.text.take().unwrap();
                t.insert(text.as_str());
                self.text = Some(t);
                Damage::Preview
            } else {
                Damage::Unchanged
            },
        };
        EditorEffect { damage: inner.max(Damage::from_preview(closed)), deactivate, feedback: None }
    }
}

} // verus!
