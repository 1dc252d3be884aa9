//! Decisions taken on pointer and tablet input that do not depend on where
//! the pointer is: which buttons a frame of events pressed or released,
//! whether a button is held, and whether a press and release form a click.

use vstd::prelude::*;

verus! {

/// The longest press, in milliseconds, that still counts as a click.
pub const CLICK_DURATION_MS: u32 = 300;

/// The longest gap, in milliseconds, between two clicks of a double click.
pub const DOUBLE_CLICK_MS: u32 = 400;

/// The left button in a set of buttons.
pub const LEFT: u8 = 1;

/// The right button.
pub const RIGHT: u8 = 2;

/// The middle button.
pub const MIDDLE: u8 = 4;

/// The side buttons that undo.
pub const UNDO: u8 = 8;

/// The side buttons that redo.
pub const REDO: u8 = 16;

/// A tablet pen touching the surface.
pub const PEN: u8 = 1;

/// The tablet pen's eraser button.
pub const BUTTON: u8 = 2;

/// The evdev code of the pen's eraser button.
pub const ERASER_BUTTON: u32 = 331;

/// Milliseconds from `earlier` to `later` on a clock that wraps around at 2^32.
pub open spec fn elapsed_spec(earlier: u32, later: u32) -> int {
    if later >= earlier {
        later - earlier
    } else {
        later + 0x1_0000_0000 - earlier
    }
}

/// Milliseconds from `earlier` to `later` on a clock that wraps around.
pub fn elapsed(earlier: u32, later: u32) -> (ms: u32)
    ensures
        ms == elapsed_spec(earlier, later),
{
    later.wrapping_sub(earlier)
}

/// A press and a release form a click when both happened and the release
/// came at most `CLICK_DURATION_MS` after the press.
pub fn short_click(pressed: Option<u32>, released: Option<u32>) -> (click: bool)
    ensures
        click == match (pressed, released) {
            (Some(p), Some(r)) => elapsed_spec(p, r) <= CLICK_DURATION_MS,
            _ => false,
        },
{
    match (pressed, released) {
        (Some(p), Some(r)) => elapsed(p, r) <= CLICK_DURATION_MS,
        _ => false,
    }
}

/// A second click continues a double click when it comes at most
/// `DOUBLE_CLICK_MS` after the first.
pub fn double_click_in_time(previous: u32, time: u32) -> (in_time: bool)
    ensures
        in_time == (elapsed_spec(previous, time) <= DOUBLE_CLICK_MS),
{
    elapsed(previous, time) <= DOUBLE_CLICK_MS
}

/// The set of pointer buttons an evdev button code stands for, if any.
pub open spec fn button_mask_spec(button: u32) -> Option<u8> {
    if button == 272 {
        Some(LEFT)
    } else if button == 273 {
        Some(RIGHT)
    } else if button == 274 {
        Some(MIDDLE)
    } else if button == 275 || button == 278 {
        Some(UNDO)
    } else if button == 276 || button == 277 {
        Some(REDO)
    } else {
        None
    }
}

/// The set of pointer buttons an evdev button code stands for: left, right,
/// middle, the side and back buttons for undo, the extra and forward buttons for redo.
pub fn button_mask(button: u32) -> (mask: Option<u8>)
    ensures
        mask == button_mask_spec(button),
{
    match button {
        272 => Some(LEFT),
        273 => Some(RIGHT),
        274 => Some(MIDDLE),
        275 | 278 => Some(UNDO),
        276 | 277 => Some(REDO),
        _ => None,
    }
}

/// The buttons pressed and released during one frame of input events.
#[derive(Debug, Clone, Copy, PartialEq, Eq, Structural)]
pub struct Transitions {
    pub pressed: u8,
    pub released: u8,
}

impl Default for Transitions {
    fn default() -> (transitions: Self)
        ensures
            transitions.pressed == 0 && transitions.released == 0,
    {
        Transitions { pressed: 0, released: 0 }
    }
}

impl Transitions {
    /// Whether any of `button` was pressed in the frame.
    pub fn pressed(self, button: u8) -> (pressed: bool)
        ensures
            pressed == (self.pressed & button != 0),
    {
        self.pressed & button != 0
    }

    /// Whether any of `button` was released in the frame.
    pub fn released(self, button: u8) -> (released: bool)
        ensures
            released == (self.released & button != 0),
    {
        self.released & button != 0
    }

    /// Notes that `button` was pressed.
    pub fn press(&mut self, button: u8)
        ensures
            final(self).pressed == old(self).pressed | button,
            final(self).released == old(self).released,
    {
        self.pressed = self.pressed | button;
    }

    /// Notes that `button` was released.
    pub fn release(&mut self, button: u8)
        ensures
            final(self).released == old(self).released | button,
            final(self).pressed == old(self).pressed,
    {
        self.released = self.released | button;
    }
}

/// Follows whether `button` is held through a frame: a press holds it, a
/// release in the same frame lets it go.
pub fn update_button(held: &mut bool, transitions: Transitions, button: u8)
    ensures
        *final(held) == if transitions.released & button != 0 {
            false
        } else if transitions.pressed & button != 0 {
            true
        } else {
            *old(held)
        },
{
    if transitions.pressed(button) {
        *held = true;
    }
    if transitions.released(button) {
        *held = false;
    }
}

/// One pointer event; `P` is a position on the surface. Only the vertical
/// scroll axis matters: events of the other axis are `Other`.
pub enum PointerEvent<P> {
    /// The pointer entered the surface at a position.
    Enter { serial: u32, position: P },
    /// The pointer left the surface.
    Leave { serial: u32 },
    /// The pointer moved to a position.
    Motion(P),
    /// A button changed state at `time`: pressed, released, or a state not known.
    Button { time: u32, button: u32, pressed: Option<bool> },
    /// Scrolling by whole wheel clicks.
    AxisDiscrete(i32),
    /// Scrolling in 120ths of a wheel click.
    AxisValue120(i32),
    /// Scrolling stopped.
    AxisStop,
    /// The end of a frame of events.
    Frame,
    /// An event that does not matter here.
    Other,
}

/// What the events of one pointer frame said so far. Continuous scrolling
/// is measured in fractions of a wheel click and is not kept here; the
/// overlay sums it beside the frame.
pub struct PointerFrame<P> {
    /// The last position the pointer entered or moved to.
    pub motion: Option<P>,
    /// The buttons pressed and released, as sets of `LEFT`, `RIGHT`, `MIDDLE`, `UNDO`, `REDO`.
    pub transitions: Transitions,
    /// When the left button was last pressed.
    pub left_press_time: Option<u32>,
    /// Wheel clicks scrolled.
    pub axis_discrete: i32,
    /// 120ths of wheel clicks scrolled.
    pub axis_value120: i32,
    /// Whether scrolling stopped.
    pub vertical_axis_stopped: bool,
    /// The serial of an enter event, if any.
    pub enter_serial: Option<u32>,
    /// The serial of a leave event, if any.
    pub leave_serial: Option<u32>,
}

/// A pointer frame in which nothing happened.
pub open spec fn empty_pointer_frame<P>() -> PointerFrame<P> {
    PointerFrame {
        motion: None,
        transitions: Transitions { pressed: 0, released: 0 },
        left_press_time: None,
        axis_discrete: 0,
        axis_value120: 0,
        vertical_axis_stopped: false,
        enter_serial: None,
        leave_serial: None,
    }
}

/// The scroll sums of a frame stay within range after one more event.
pub open spec fn pointer_event_fits<P>(frame: PointerFrame<P>, event: PointerEvent<P>) -> bool {
    match event {
        PointerEvent::AxisDiscrete(clicks) => i32::MIN <= frame.axis_discrete + clicks <= i32::MAX,
        PointerEvent::AxisValue120(value) => i32::MIN <= frame.axis_value120 + value <= i32::MAX,
        _ => true,
    }
}

/// The pointer frame after one more event.
pub open spec fn pointer_frame_after<P>(
    frame: PointerFrame<P>,
    event: PointerEvent<P>,
) -> PointerFrame<P> {
    match event {
        PointerEvent::Enter { serial, position } => PointerFrame {
            enter_serial: Some(serial),
            motion: Some(position),
            ..frame
        },
        PointerEvent::Leave { serial } => PointerFrame { leave_serial: Some(serial), ..frame },
        PointerEvent::Motion(position) => PointerFrame { motion: Some(position), ..frame },
        PointerEvent::Button { time, button, pressed } => match (pressed, button_mask_spec(button)) {
            (Some(true), Some(mask)) => PointerFrame {
                transitions: Transitions {
                    pressed: frame.transitions.pressed | mask,
                    ..frame.transitions
                },
                left_press_time: if mask == LEFT {
                    Some(time)
                } else {
                    frame.left_press_time
                },
                ..frame
            },
            (Some(false), Some(mask)) => PointerFrame {
                transitions: Transitions {
                    released: frame.transitions.released | mask,
                    ..frame.transitions
                },
                ..frame
            },
            _ => frame,
        },
        PointerEvent::AxisDiscrete(clicks) => PointerFrame {
            axis_discrete: (frame.axis_discrete + clicks) as i32,
            ..frame
        },
        PointerEvent::AxisValue120(value) => PointerFrame {
            axis_value120: (frame.axis_value120 + value) as i32,
            ..frame
        },
        PointerEvent::AxisStop => PointerFrame { vertical_axis_stopped: true, ..frame },
        PointerEvent::Frame => empty_pointer_frame(),
        PointerEvent::Other => frame,
    }
}

impl<P> PointerFrame<P> {
    /// A frame in which nothing happened yet.
    pub fn new() -> (frame: Self)
        ensures
            frame == empty_pointer_frame::<P>(),
    {
        PointerFrame {
            motion: None,
            transitions: Transitions { pressed: 0, released: 0 },
            left_press_time: None,
            axis_discrete: 0,
            axis_value120: 0,
            vertical_axis_stopped: false,
            enter_serial: None,
            leave_serial: None,
        }
    }

    /// Takes in one event; at the end of a frame, hands out what the frame
    /// said and starts a new one.
    pub fn dispatch(&mut self, event: PointerEvent<P>) -> (finished: Option<PointerFrame<P>>)
        requires
            pointer_event_fits(*old(self), event),
        ensures
            *final(self) == pointer_frame_after(*old(self), event),
            finished == if event is Frame {
                Some(*old(self))
            } else {
                None::<PointerFrame<P>>
            },
    {
        match event {
            PointerEvent::Enter { serial, position } => {
                self.enter_serial = Some(serial);
                self.motion = Some(position);
                None
            },
            PointerEvent::Leave { serial } => {
                self.leave_serial = Some(serial);
                None
            },
            PointerEvent::Motion(position) => {
                self.motion = Some(position);
                None
            },
            PointerEvent::Button { time, button, pressed } => {
                match (pressed, button_mask(button)) {
                    (Some(true), Some(mask)) => {
                        self.transitions.press(mask);
                        if mask == LEFT {
                            self.left_press_time = Some(time);
                        }
                    },
                    (Some(false), Some(mask)) => self.transitions.release(mask),
                    _ => {},
                }
                None
            },
            PointerEvent::AxisDiscrete(clicks) => {
                self.axis_discrete = self.axis_discrete + clicks;
                None
            },
            PointerEvent::AxisValue120(value) => {
                self.axis_value120 = self.axis_value120 + value;
                None
            },
            PointerEvent::AxisStop => {
                self.vertical_axis_stopped = true;
                None
            },
            PointerEvent::Frame => {
                let mut finished = PointerFrame::new();
                std::mem::swap(self, &mut finished);
                Some(finished)
            },
            PointerEvent::Other => None,
        }
    }
}

/// What the pointer has been doing across frames: where it is, which
/// buttons it holds, and what a left press needs to know for a double click.
pub struct PointerGesture<P> {
    /// The pointer's position on the surface, while it is on it.
    pub position: Option<P>,
    /// The serial for setting the cursor shape, while the pointer is on the surface.
    pub cursor_serial: Option<u32>,
    pub left_held: bool,
    pub right_held: bool,
    pub middle_held: bool,
    /// Whether the held left button went down while the wheel was open.
    pub left_in_picker: bool,
    /// Where the held left button went down.
    pub left_press_pos: Option<P>,
    /// When and where the last left click that could start a double click was.
    pub last_left_click: Option<(u32, P)>,
}

/// What a pointer frame asks the overlay to do, in order, all at the
/// pointer's position.
#[derive(Debug, Clone, Copy, PartialEq, Eq, Structural)]
pub enum PointerAction {
    /// The pointer left: drop the gesture; `interaction_active` when the left
    /// or middle button was held.
    CancelGesture { interaction_active: bool },
    Undo,
    Redo,
    /// Set the cursor shape the editor asks for.
    SetCursor,
    /// A left press; on a double click, first try to edit the text under
    /// the pointer and press only when that does nothing.
    LeftPress { double_click: bool },
    /// Open the tool and color wheel, or close it when open.
    ToggleWheel,
    /// Close the wheel.
    DismissWheel,
    /// Press with the temporary eraser.
    EraseDown,
    /// Move.
    Motion,
    /// Release; `right` for the right button.
    Up { right: bool },
    /// Turn the frame's scrolling into wheel steps and adjust by them.
    Scroll,
    /// Forget the scrolling left over from earlier frames.
    ResetScroll,
}

/// The longest distance, as squared pixels, between two clicks of a double
/// click, and the shortest drag that stops a click from starting one.
pub const CLICK_SLOP_SQUARED: u32 = 36;

/// The gesture once a frame's positions, serials and buttons are taken in.
pub open spec fn gesture_after_frame<P>(g: PointerGesture<P>, f: PointerFrame<P>) -> PointerGesture<P> {
    let entered = PointerGesture {
        position: match f.motion {
            Some(p) => Some(p),
            None => g.position,
        },
        cursor_serial: match f.enter_serial {
            Some(serial) => Some(serial),
            None => g.cursor_serial,
        },
        ..g
    };
    let placed = if f.leave_serial is Some {
        PointerGesture { position: None, cursor_serial: None, ..entered }
    } else {
        entered
    };
    PointerGesture {
        left_held: held_after(g.left_held, f.transitions, LEFT),
        right_held: held_after(g.right_held, f.transitions, RIGHT),
        middle_held: held_after(g.middle_held, f.transitions, MIDDLE),
        ..placed
    }
}

/// The gesture with every button let go and nothing remembered of clicks.
pub open spec fn gesture_cancelled<P>(g: PointerGesture<P>) -> PointerGesture<P> {
    PointerGesture {
        left_held: false,
        right_held: false,
        middle_held: false,
        left_in_picker: false,
        left_press_pos: None,
        last_left_click: None,
        ..g
    }
}

/// The left press at `time` continues a double click: the wheel is closed,
/// the last click was at most `DOUBLE_CLICK_MS` before, and near enough.
pub open spec fn is_double_click<P>(
    g: PointerGesture<P>,
    time: Option<u32>,
    picker: bool,
    near_last_click: bool,
) -> bool {
    &&& !picker
    &&& match (time, g.last_left_click) {
        (Some(t), Some((previous, _))) => elapsed_spec(previous, t) <= DOUBLE_CLICK_MS
            && near_last_click,
        _ => false,
    }
}

/// A one-action sequence when `b`, else none.
pub open spec fn when(b: bool, action: PointerAction) -> Seq<PointerAction> {
    if b {
        seq![action]
    } else {
        Seq::<PointerAction>::empty()
    }
}

/// What a frame decides, once the gesture has taken the frame in.
#[derive(Debug, Clone, Copy, PartialEq, Eq, Structural)]
pub struct PointerDecision {
    pub undo: bool,
    pub redo: bool,
    pub set_cursor: bool,
    /// A left press, and whether it continues a double click.
    pub press: bool,
    pub double_click: bool,
    /// Whether the wheel is open when the left press comes.
    pub press_in_picker: bool,
    pub toggle_wheel: bool,
    pub erase: bool,
    /// The drag went far enough that the last click starts no double click.
    pub forget_click: bool,
    pub motion: bool,
    pub left_up: bool,
    pub left_released: bool,
    pub right_up: bool,
    pub middle_up: bool,
    pub scroll: bool,
    pub reset_scroll: bool,
}

/// The decisions of a frame for a gesture `g` that has taken it in, given
/// whether the wheel was open as the frame began, whether the pointer is
/// within `CLICK_SLOP_SQUARED` of the last click, and whether it moved past
/// that from where the held left button went down before this frame. The
/// wheel counts as closed after undo, redo and dismissing it, and as toggled
/// after toggling it.
pub open spec fn pointer_decision<P>(
    g: PointerGesture<P>,
    f: PointerFrame<P>,
    picker: bool,
    near_last_click: bool,
    moved_past_slop: bool,
) -> PointerDecision {
    let t = f.transitions;
    let left_pressed = t.pressed & LEFT != 0;
    let left_released = t.released & LEFT != 0;
    let right_pressed = t.pressed & RIGHT != 0;
    let middle_pressed = t.pressed & MIDDLE != 0;
    let undo = t.pressed & UNDO != 0;
    let redo = t.pressed & REDO != 0;
    let positioned = g.position is Some;
    let picker1 = picker && !undo && !redo;
    let toggle = right_pressed && positioned;
    let picker2 = if toggle {
        !picker1
    } else {
        picker1
    };
    let erase = middle_pressed && positioned;
    let picker3 = picker2 && !erase;
    let press = left_pressed && positioned;
    let moved = f.motion is Some && positioned;
    let in_picker = if press {
        picker1
    } else {
        g.left_in_picker
    };
    PointerDecision {
        undo,
        redo,
        set_cursor: (f.enter_serial is Some || f.motion is Some) && positioned
            && g.cursor_serial is Some,
        press,
        double_click: is_double_click(g, f.left_press_time, picker1, near_last_click),
        press_in_picker: picker1,
        toggle_wheel: toggle,
        erase,
        forget_click: moved && !left_pressed && (g.left_held || left_released)
            && g.left_press_pos is Some && moved_past_slop,
        motion: moved && (picker3 || g.left_held || g.right_held || g.middle_held)
            && !left_pressed && !right_pressed && !middle_pressed,
        left_up: positioned && left_released && (!in_picker || picker3),
        left_released: positioned && left_released,
        right_up: positioned && t.released & RIGHT != 0,
        middle_up: positioned && t.released & MIDDLE != 0,
        scroll: positioned && !picker3,
        reset_scroll: positioned && picker3 && f.vertical_axis_stopped,
    }
}

/// The actions a frame's decisions ask for, in order.
pub open spec fn decision_actions(d: PointerDecision) -> Seq<PointerAction> {
    when(d.undo, PointerAction::Undo) + when(d.redo, PointerAction::Redo) + when(
        d.set_cursor,
        PointerAction::SetCursor,
    ) + when(d.press, PointerAction::LeftPress { double_click: d.double_click }) + when(
        d.toggle_wheel,
        PointerAction::ToggleWheel,
    ) + when(d.erase, PointerAction::DismissWheel) + when(d.erase, PointerAction::EraseDown)
        + when(d.motion, PointerAction::Motion) + when(d.left_up, PointerAction::Up { right: false })
        + when(d.right_up, PointerAction::Up { right: true }) + when(
        d.middle_up,
        PointerAction::Up { right: false },
    ) + when(d.scroll, PointerAction::Scroll) + when(d.reset_scroll, PointerAction::ResetScroll)
}

/// The gesture after a frame's decisions: a left press remembers where it
/// went down, whether in the wheel, and the click for a double click (none
/// once it completes one); a long drag forgets the click; a left release
/// forgets the press.
pub open spec fn gesture_after_decision<P>(
    g: PointerGesture<P>,
    f: PointerFrame<P>,
    d: PointerDecision,
) -> PointerGesture<P> {
    let g1 = if d.press {
        PointerGesture {
            left_press_pos: g.position,
            left_in_picker: d.press_in_picker,
            last_left_click: if d.double_click {
                None
            } else {
                match (f.left_press_time, g.position) {
                    (Some(time), Some(p)) => Some((time, p)),
                    _ => None,
                }
            },
            ..g
        }
    } else {
        g
    };
    let g2 = if d.forget_click {
        PointerGesture { last_left_click: None, ..g1 }
    } else {
        g1
    };
    if d.left_released {
        PointerGesture { left_in_picker: false, left_press_pos: None, ..g2 }
    } else {
        g2
    }
}

/// What a frame does to the gesture, and the actions it asks for: leaving
/// the surface cancels the gesture; otherwise the frame's decisions.
pub open spec fn pointer_frame_spec<P>(
    g0: PointerGesture<P>,
    f: PointerFrame<P>,
    picker: bool,
    near_last_click: bool,
    moved_past_slop: bool,
) -> (PointerGesture<P>, Seq<PointerAction>) {
    let g = gesture_after_frame(g0, f);
    if f.leave_serial is Some {
        (
            gesture_cancelled(g),
            seq![PointerAction::CancelGesture { interaction_active: g.left_held || g.middle_held }],
        )
    } else {
        let d = pointer_decision(g, f, picker, near_last_click, moved_past_slop);
        (gesture_after_decision(g, f, d), decision_actions(d))
    }
}

/// The actions of a frame's decisions, in order.
pub fn decision_action_list(d: PointerDecision) -> (actions: Vec<PointerAction>)
    ensures
        actions@ == decision_actions(d),
{
    let mut actions: Vec<PointerAction> = Vec::new();
    push_when(&mut actions, d.undo, PointerAction::Undo);
    push_when(&mut actions, d.redo, PointerAction::Redo);
    push_when(&mut actions, d.set_cursor, PointerAction::SetCursor);
    push_when(&mut actions, d.press, PointerAction::LeftPress { double_click: d.double_click });
    push_when(&mut actions, d.toggle_wheel, PointerAction::ToggleWheel);
    push_when(&mut actions, d.erase, PointerAction::DismissWheel);
    push_when(&mut actions, d.erase, PointerAction::EraseDown);
    push_when(&mut actions, d.motion, PointerAction::Motion);
    push_when(&mut actions, d.left_up, PointerAction::Up { right: false });
    push_when(&mut actions, d.right_up, PointerAction::Up { right: true });
    push_when(&mut actions, d.middle_up, PointerAction::Up { right: false });
    push_when(&mut actions, d.scroll, PointerAction::Scroll);
    push_when(&mut actions, d.reset_scroll, PointerAction::ResetScroll);
    assert(actions@ =~= decision_actions(d));
    actions
}

/// A click that completes a double click starts none: the press after it
/// is a double click only once another single click came between.
pub proof fn lemma_double_click_consumed<P>(
    g: PointerGesture<P>,
    f: PointerFrame<P>,
    d: PointerDecision,
    time: Option<u32>,
    picker: bool,
    near_last_click: bool,
)
    requires
        d.press,
        d.double_click,
    ensures
        gesture_after_decision(g, f, d).last_left_click is None,
        !is_double_click(gesture_after_decision(g, f, d), time, picker, near_last_click),
{
}

/// Appends `action` when `b`.
fn push_when(actions: &mut Vec<PointerAction>, b: bool, action: PointerAction)
    ensures
        final(actions)@ == old(actions)@ + when(b, action),
{
    if b {
        actions.push(action);
    }
    assert(final(actions)@ =~= old(actions)@ + when(b, action));
}

impl<P: Copy> PointerGesture<P> {
    /// A pointer that is not on the surface.
    pub fn new() -> (gesture: Self)
        ensures
            gesture.position is None,
            gesture.cursor_serial is None,
            gesture == gesture_cancelled(gesture),
    {
        PointerGesture {
            position: None,
            cursor_serial: None,
            left_held: false,
            right_held: false,
            middle_held: false,
            left_in_picker: false,
            left_press_pos: None,
            last_left_click: None,
        }
    }

    /// Lets go of every button and forgets the clicks; returns whether the
    /// left or middle button was held, that is whether an interaction was going on.
    pub fn cancel_gesture(&mut self) -> (interaction_active: bool)
        ensures
            interaction_active == (old(self).left_held || old(self).middle_held),
            *final(self) == gesture_cancelled(*old(self)),
    {
        let interaction_active = self.left_held || self.middle_held;
        self.left_held = false;
        self.right_held = false;
        self.middle_held = false;
        self.left_in_picker = false;
        self.left_press_pos = None;
        self.last_left_click = None;
        interaction_active
    }

    /// The decisions of a frame that this gesture has taken in.
    pub fn decide(
        &self,
        frame: &PointerFrame<P>,
        picker_active: bool,
        near_last_click: bool,
        moved_past_slop: bool,
    ) -> (d: PointerDecision)
        ensures
            d == pointer_decision(*self, *frame, picker_active, near_last_click, moved_past_slop),
    {
        let t = frame.transitions;
        let left_pressed = t.pressed(LEFT);
        let left_released = t.released(LEFT);
        let right_pressed = t.pressed(RIGHT);
        let middle_pressed = t.pressed(MIDDLE);
        let undo = t.pressed(UNDO);
        let redo = t.pressed(REDO);
        let positioned = self.position.is_some();
        let picker1 = picker_active && !undo && !redo;
        let toggle = right_pressed && positioned;
        let picker2 = if toggle {
            !picker1
        } else {
            picker1
        };
        let erase = middle_pressed && positioned;
        let picker3 = picker2 && !erase;
        let press = left_pressed && positioned;
        let moved = frame.motion.is_some() && positioned;
        let in_picker = if press {
            picker1
        } else {
            self.left_in_picker
        };
        let double_click = !picker1 && match (frame.left_press_time, self.last_left_click) {
            (Some(time), Some((previous, _))) => double_click_in_time(previous, time)
                && near_last_click,
            _ => false,
        };
        PointerDecision {
            undo,
            redo,
            set_cursor: (frame.enter_serial.is_some() || frame.motion.is_some()) && positioned
                && self.cursor_serial.is_some(),
            press,
            double_click,
            press_in_picker: picker1,
            toggle_wheel: toggle,
            erase,
            forget_click: moved && !left_pressed && (self.left_held || left_released)
                && self.left_press_pos.is_some() && moved_past_slop,
            motion: moved && (picker3 || self.left_held || self.right_held || self.middle_held)
                && !left_pressed && !right_pressed && !middle_pressed,
            left_up: positioned && left_released && (!in_picker || picker3),
            left_released: positioned && left_released,
            right_up: positioned && t.released(RIGHT),
            middle_up: positioned && t.released(MIDDLE),
            scroll: positioned && !picker3,
            reset_scroll: positioned && picker3 && frame.vertical_axis_stopped,
        }
    }

    /// Carries out a frame's decisions on the gesture.
    pub fn apply_decision(&mut self, frame: &PointerFrame<P>, d: PointerDecision)
        ensures
            *final(self) == gesture_after_decision(*old(self), *frame, d),
    {
        if d.press {
            self.left_press_pos = self.position;
            self.left_in_picker = d.press_in_picker;
            self.last_left_click = if d.double_click {
                None
            } else {
                match (frame.left_press_time, self.position) {
                    (Some(time), Some(p)) => Some((time, p)),
                    _ => None,
                }
            };
        }
        if d.forget_click {
            self.last_left_click = None;
        }
        if d.left_released {
            self.left_in_picker = false;
            self.left_press_pos = None;
        }
    }

    /// Takes in a finished frame and decides what it asks for. `picker_active`
    /// says whether the wheel was open as the frame began; `near_last_click`
    /// whether the pointer's new position lies within `CLICK_SLOP_SQUARED` of
    /// the last click; `moved_past_slop` whether it lies farther than that
    /// from where the held left button went down before this frame.
    pub fn frame_actions(
        &mut self,
        frame: &PointerFrame<P>,
        picker_active: bool,
        near_last_click: bool,
        moved_past_slop: bool,
    ) -> (actions: Vec<PointerAction>)
        ensures
            (*final(self), actions@) == pointer_frame_spec(
                *old(self),
                *frame,
                picker_active,
                near_last_click,
                moved_past_slop,
            ),
    {
        let ghost g0 = *self;
        match frame.motion {
            Some(p) => self.position = Some(p),
            None => {},
        }
        match frame.enter_serial {
            Some(serial) => self.cursor_serial = Some(serial),
            None => {},
        }
        if frame.leave_serial.is_some() {
            self.position = None;
            self.cursor_serial = None;
        }
        let t = frame.transitions;
        update_button(&mut self.left_held, t, LEFT);
        update_button(&mut self.right_held, t, RIGHT);
        update_button(&mut self.middle_held, t, MIDDLE);
        assert(*self == gesture_after_frame(g0, *frame));
        if frame.leave_serial.is_some() {
            let mut actions: Vec<PointerAction> = Vec::new();
            let interaction_active = self.cancel_gesture();
            actions.push(PointerAction::CancelGesture { interaction_active });
            assert(actions@ =~= seq![PointerAction::CancelGesture { interaction_active }]);
            return actions;
        }
        let d = self.decide(frame, picker_active, near_last_click, moved_past_slop);
        self.apply_decision(frame, d);
        let actions = decision_action_list(d);
        actions
    }
}

/// One event of a tablet pen; `P` is a position on the surface.
pub enum PenEvent<P> {
    /// The pen came near the surface; the serial is for setting its cursor.
    ProximityIn { serial: u32 },
    /// The pen touched the surface.
    Down,
    /// The pen left the surface.
    Up,
    /// The pen moved to a position.
    Motion(P),
    /// A pen button changed state: pressed, released, or a state not known.
    Button { button: u32, pressed: Option<bool> },
    /// The end of a frame of events.
    Frame,
    /// An event that does not matter here.
    Other,
}

/// What the events of one pen frame said so far.
pub struct PenFrame<P> {
    /// The last position the pen moved to.
    pub motion: Option<P>,
    /// Touches (`PEN`) and eraser button changes (`BUTTON`).
    pub transitions: Transitions,
    /// The serial of a proximity event, if any.
    pub enter_serial: Option<u32>,
}

/// A frame in which nothing happened.
pub open spec fn empty_pen_frame<P>() -> PenFrame<P> {
    PenFrame { motion: None, transitions: Transitions { pressed: 0, released: 0 }, enter_serial: None }
}

/// The frame after one more event.
pub open spec fn pen_frame_after<P>(frame: PenFrame<P>, event: PenEvent<P>) -> PenFrame<P> {
    match event {
        PenEvent::ProximityIn { serial } => PenFrame { enter_serial: Some(serial), ..frame },
        PenEvent::Down => PenFrame {
            transitions: Transitions { pressed: frame.transitions.pressed | PEN, ..frame.transitions },
            ..frame
        },
        PenEvent::Up => PenFrame {
            transitions: Transitions {
                released: frame.transitions.released | PEN,
                ..frame.transitions
            },
            ..frame
        },
        PenEvent::Motion(position) => PenFrame { motion: Some(position), ..frame },
        PenEvent::Button { button, pressed } => if button != ERASER_BUTTON {
            frame
        } else {
            match pressed {
                Some(true) => PenFrame {
                    transitions: Transitions {
                        pressed: frame.transitions.pressed | BUTTON,
                        ..frame.transitions
                    },
                    ..frame
                },
                Some(false) => PenFrame {
                    transitions: Transitions {
                        released: frame.transitions.released | BUTTON,
                        ..frame.transitions
                    },
                    ..frame
                },
                None => frame,
            }
        },
        PenEvent::Frame => empty_pen_frame(),
        PenEvent::Other => frame,
    }
}

impl<P> PenFrame<P> {
    /// A frame in which nothing happened yet.
    pub fn new() -> (frame: Self)
        ensures
            frame == empty_pen_frame::<P>(),
    {
        PenFrame { motion: None, transitions: Transitions { pressed: 0, released: 0 }, enter_serial: None }
    }

    /// Takes in one event; at the end of a frame, hands out what the frame
    /// said and starts a new one.
    pub fn dispatch(&mut self, event: PenEvent<P>) -> (finished: Option<PenFrame<P>>)
        ensures
            *final(self) == pen_frame_after(*old(self), event),
            finished == if event is Frame {
                Some(*old(self))
            } else {
                None::<PenFrame<P>>
            },
    {
        match event {
            PenEvent::ProximityIn { serial } => {
                self.enter_serial = Some(serial);
                None
            },
            PenEvent::Down => {
                self.transitions.press(PEN);
                None
            },
            PenEvent::Up => {
                self.transitions.release(PEN);
                None
            },
            PenEvent::Motion(position) => {
                self.motion = Some(position);
                None
            },
            PenEvent::Button { button, pressed } => {
                if button == ERASER_BUTTON {
                    match pressed {
                        Some(true) => self.transitions.press(BUTTON),
                        Some(false) => self.transitions.release(BUTTON),
                        None => {},
                    }
                }
                None
            },
            PenEvent::Frame => {
                let mut finished = PenFrame::new();
                std::mem::swap(self, &mut finished);
                Some(finished)
            },
            PenEvent::Other => None,
        }
    }
}

/// What a pen frame asks the editor to do, in order.
#[derive(Debug, Clone, Copy, PartialEq, Eq, Structural)]
pub enum PenAction {
    /// Press at the pen's position, erasing while the eraser button is held.
    Down { temporary_eraser: bool },
    /// Release at the pen's position.
    Up,
    /// Move to the pen's position.
    Motion,
    /// Open the tool and color wheel at the pen's position.
    OpenWheel,
}

/// Where the pen is and what it holds down.
pub struct PenState<P> {
    pub position: Option<P>,
    pub pen_held: bool,
    pub button_held: bool,
}

/// The held state after a frame: a press holds, a release in the same frame lets go.
pub open spec fn held_after(held: bool, transitions: Transitions, input: u8) -> bool {
    if transitions.released & input != 0 {
        false
    } else if transitions.pressed & input != 0 {
        true
    } else {
        held
    }
}

/// The actions of a frame, for a pen that is somewhere on the surface and
/// holds down what `pen_held` and `button_held` say after the frame: a touch
/// presses (erasing while the button is held); pressing or releasing the
/// button during a stroke ends the stroke and starts one that erases or
/// draws; pressing the button while the pen hovers opens the wheel; a move
/// during a stroke with no button change moves; lifting the pen releases.
pub open spec fn pen_actions_spec(
    transitions: Transitions,
    moved: bool,
    pen_held: bool,
    button_held: bool,
) -> Seq<PenAction> {
    let touched = transitions.pressed & PEN != 0;
    let lifted = transitions.released & PEN != 0;
    let button_pressed = transitions.pressed & BUTTON != 0;
    let button_released = transitions.released & BUTTON != 0;
    (if touched {
        seq![PenAction::Down { temporary_eraser: button_held }]
    } else {
        seq![]
    }) + (if button_pressed && pen_held {
        seq![PenAction::Up, PenAction::Down { temporary_eraser: true }]
    } else {
        seq![]
    }) + (if button_pressed && !pen_held {
        seq![PenAction::OpenWheel]
    } else {
        seq![]
    }) + (if button_released && pen_held {
        seq![PenAction::Up, PenAction::Down { temporary_eraser: false }]
    } else {
        seq![]
    }) + (if !button_pressed && !button_released && moved && pen_held {
        seq![PenAction::Motion]
    } else {
        seq![]
    }) + (if lifted {
        seq![PenAction::Up]
    } else {
        seq![]
    })
}

impl<P: Copy> PenState<P> {
    /// A pen nowhere near the surface.
    pub fn new() -> (state: Self)
        ensures
            state.position is None,
            !state.pen_held,
            !state.button_held,
    {
        PenState { position: None, pen_held: false, button_held: false }
    }

    /// Takes in a finished frame: the position it moved to and what it pressed and released.
    pub fn update(&mut self, frame: &PenFrame<P>)
        ensures
            final(self).position == match frame.motion {
                Some(p) => Some(p),
                None => old(self).position,
            },
            final(self).pen_held == held_after(old(self).pen_held, frame.transitions, PEN),
            final(self).button_held == held_after(old(self).button_held, frame.transitions, BUTTON),
    {
        match frame.motion {
            Some(p) => self.position = Some(p),
            None => {},
        }
        update_button(&mut self.pen_held, frame.transitions, PEN);
        update_button(&mut self.button_held, frame.transitions, BUTTON);
    }

    /// What a finished frame asks the editor to do, once `update` took it in;
    /// nothing while the pen has no position.
    pub fn actions(&self, frame: &PenFrame<P>) -> (actions: Vec<PenAction>)
        ensures
            actions@ == if self.position is None {
                Seq::<PenAction>::empty()
            } else {
                pen_actions_spec(
                    frame.transitions,
                    frame.motion is Some,
                    self.pen_held,
                    self.button_held,
                )
            },
    {
        let mut actions: Vec<PenAction> = Vec::new();
        if self.position.is_none() {
            return actions;
        }
        let t = frame.transitions;
        let touched = t.pressed(PEN);
        let lifted = t.released(PEN);
        let button_pressed = t.pressed(BUTTON);
        let button_released = t.released(BUTTON);
        if touched {
            actions.push(PenAction::Down { temporary_eraser: self.button_held });
        }
        if button_pressed && self.pen_held {
            actions.push(PenAction::Up);
            actions.push(PenAction::Down { temporary_eraser: true });
        }
        if button_pressed && !self.pen_held {
            actions.push(PenAction::OpenWheel);
        }
        if button_released && self.pen_held {
            actions.push(PenAction::Up);
            actions.push(PenAction::Down { temporary_eraser: false });
        }
        if !button_pressed && !button_released && frame.motion.is_some() && self.pen_held {
            actions.push(PenAction::Motion);
        }
        if lifted {
            actions.push(PenAction::Up);
        }
        assert(actions@ =~= pen_actions_spec(
            frame.transitions,
            frame.motion is Some,
            self.pen_held,
            self.button_held,
        ));
        actions
    }
}

/// The actions of a frame's decisions hold a motion whenever the decisions ask for one.
proof fn lemma_motion_listed(d: PointerDecision)
    requires
        d.motion,
    ensures
        decision_actions(d).contains(PointerAction::Motion),
{
    let a = when(d.undo, PointerAction::Undo) + when(d.redo, PointerAction::Redo) + when(
        d.set_cursor,
        PointerAction::SetCursor,
    ) + when(d.press, PointerAction::LeftPress { double_click: d.double_click }) + when(
        d.toggle_wheel,
        PointerAction::ToggleWheel,
    ) + when(d.erase, PointerAction::DismissWheel) + when(d.erase, PointerAction::EraseDown);
    assert(decision_actions(d)[a.len() as int] == PointerAction::Motion);
}

/// The actions of a frame's decisions hold a right release whenever the
/// decisions ask for one.
proof fn lemma_right_up_listed(d: PointerDecision)
    requires
        d.right_up,
    ensures
        decision_actions(d).contains(PointerAction::Up { right: true }),
{
    let a = when(d.undo, PointerAction::Undo) + when(d.redo, PointerAction::Redo) + when(
        d.set_cursor,
        PointerAction::SetCursor,
    ) + when(d.press, PointerAction::LeftPress { double_click: d.double_click }) + when(
        d.toggle_wheel,
        PointerAction::ToggleWheel,
    ) + when(d.erase, PointerAction::DismissWheel) + when(d.erase, PointerAction::EraseDown)
        + when(d.motion, PointerAction::Motion) + when(d.left_up, PointerAction::Up { right: false });
    assert(decision_actions(d)[a.len() as int] == PointerAction::Up { right: true });
}

/// A drag with the middle button: while the pointer is on the surface with
/// the middle button held, a frame that moves it and presses no button (and
/// does not let the middle button go) is passed on as a motion, so the
/// eraser follows the pointer, whatever the wheel and the clicks are.
pub proof fn lemma_middle_drag_moves<P>(
    g0: PointerGesture<P>,
    f: PointerFrame<P>,
    picker: bool,
    near_last_click: bool,
    moved_past_slop: bool,
)
    requires
        g0.position is Some,
        g0.middle_held,
        f.leave_serial is None,
        f.motion is Some,
        f.transitions.pressed & LEFT == 0,
        f.transitions.pressed & RIGHT == 0,
        f.transitions.pressed & MIDDLE == 0,
        f.transitions.released & MIDDLE == 0,
    ensures
        pointer_decision(
            gesture_after_frame(g0, f),
            f,
            picker,
            near_last_click,
            moved_past_slop,
        ).motion,
        pointer_frame_spec(g0, f, picker, near_last_click, moved_past_slop).1.contains(
            PointerAction::Motion,
        ),
{
    let g = gesture_after_frame(g0, f);
    assert(g.middle_held);
    lemma_motion_listed(pointer_decision(g, f, picker, near_last_click, moved_past_slop));
}

/// Releasing the right button with the pointer on the surface is always
/// passed on as a right release, which chooses what lies under the pointer
/// on the wheel: whether or not the wheel is open, and whatever else the
/// frame holds.
pub proof fn lemma_right_release_reported<P>(
    g0: PointerGesture<P>,
    f: PointerFrame<P>,
    picker: bool,
    near_last_click: bool,
    moved_past_slop: bool,
)
    requires
        g0.position is Some,
        f.leave_serial is None,
        f.transitions.released & RIGHT != 0,
    ensures
        pointer_decision(
            gesture_after_frame(g0, f),
            f,
            picker,
            near_last_click,
            moved_past_slop,
        ).right_up,
        pointer_frame_spec(g0, f, picker, near_last_click, moved_past_slop).1.contains(
            PointerAction::Up { right: true },
        ),
{
    let g = gesture_after_frame(g0, f);
    assert(g.position is Some);
    lemma_right_up_listed(pointer_decision(g, f, picker, near_last_click, moved_past_slop));
}

/// A pen held on the surface that moves, with no change of the barrel
/// button and no new touch, asks for exactly a motion (then a release when
/// it is lifted), whether or not the barrel button is held: with it held
/// the temporary eraser follows the pen.
pub proof fn lemma_pen_drag_moves(transitions: Transitions, button_held: bool)
    requires
        transitions.pressed & PEN == 0,
        transitions.pressed & BUTTON == 0,
        transitions.released & BUTTON == 0,
    ensures
        pen_actions_spec(transitions, true, true, button_held) == if transitions.released & PEN
            != 0 {
            seq![PenAction::Motion, PenAction::Up]
        } else {
            seq![PenAction::Motion]
        },
{
    let s = pen_actions_spec(transitions, true, true, button_held);
    if transitions.released & PEN != 0 {
        assert(s =~= seq![PenAction::Motion, PenAction::Up]);
    } else {
        assert(s =~= seq![PenAction::Motion]);
    }
}

/// Pressing the barrel button while the pen hovers over the surface, with
/// no touch and no release in the same frame, asks for the wheel and for
/// nothing else: no stroke starts and nothing is erased.
pub proof fn lemma_barrel_while_hovering_opens_the_wheel(
    transitions: Transitions,
    moved: bool,
    button_held: bool,
)
    requires
        transitions.pressed & BUTTON != 0,
        transitions.pressed & PEN == 0,
        transitions.released & PEN == 0,
        transitions.released & BUTTON == 0,
    ensures
        pen_actions_spec(transitions, moved, false, button_held) == seq![PenAction::OpenWheel],
{
    assert(pen_actions_spec(transitions, moved, false, button_held) =~= seq![PenAction::OpenWheel]);
}

/// Pressing the barrel button while drawing ends the stroke and starts one
/// with the temporary eraser; letting it go ends that one and draws again.
pub proof fn lemma_barrel_while_drawing_switches_to_erasing(
    transitions: Transitions,
    moved: bool,
    button_held: bool,
)
    requires
        transitions.pressed & PEN == 0,
        transitions.released & PEN == 0,
        (transitions.pressed & BUTTON != 0) != (transitions.released & BUTTON != 0),
    ensures
        pen_actions_spec(transitions, moved, true, button_held) == seq![
            PenAction::Up,
            (PenAction::Down { temporary_eraser: transitions.pressed & BUTTON != 0 }),
        ],
{
    let s = pen_actions_spec(transitions, moved, true, button_held);
    assert(s =~= seq![
        PenAction::Up,
        PenAction::Down { temporary_eraser: transitions.pressed & BUTTON != 0 },
    ]);
}

/// A touch starts with a press, erasing exactly when the barrel button is
/// held.
pub proof fn lemma_touch_presses(
    transitions: Transitions,
    moved: bool,
    pen_held: bool,
    button_held: bool,
)
    requires
        transitions.pressed & PEN != 0,
    ensures
        pen_actions_spec(transitions, moved, pen_held, button_held).len() > 0,
        pen_actions_spec(transitions, moved, pen_held, button_held)[0] == (PenAction::Down {
            temporary_eraser: button_held,
        }),
{
}

/// Pressing the middle button on the surface closes the wheel and presses
/// with the temporary eraser.
pub proof fn lemma_middle_press_erases<P>(
    g0: PointerGesture<P>,
    f: PointerFrame<P>,
    picker: bool,
    near_last_click: bool,
    moved_past_slop: bool,
)
    requires
        g0.position is Some,
        f.leave_serial is None,
        f.transitions.pressed & MIDDLE != 0,
    ensures
        pointer_frame_spec(g0, f, picker, near_last_click, moved_past_slop).1.contains(
            PointerAction::EraseDown,
        ),
        pointer_frame_spec(g0, f, picker, near_last_click, moved_past_slop).1.contains(
            PointerAction::DismissWheel,
        ),
{
    let g = gesture_after_frame(g0, f);
    let d = pointer_decision(g, f, picker, near_last_click, moved_past_slop);
    let a = when(d.undo, PointerAction::Undo) + when(d.redo, PointerAction::Redo) + when(
        d.set_cursor,
        PointerAction::SetCursor,
    ) + when(d.press, PointerAction::LeftPress { double_click: d.double_click }) + when(
        d.toggle_wheel,
        PointerAction::ToggleWheel,
    );
    assert(d.erase);
    assert(decision_actions(d)[a.len() as int] == PointerAction::DismissWheel);
    assert(decision_actions(d)[a.len() as int + 1] == PointerAction::EraseDown);
}

/// A left drag: with the pointer on the surface and the left button held, a
/// frame that moves it and presses no button is passed on as a motion.
pub proof fn lemma_left_drag_moves<P>(
    g0: PointerGesture<P>,
    f: PointerFrame<P>,
    picker: bool,
    near_last_click: bool,
    moved_past_slop: bool,
)
    requires
        g0.position is Some,
        g0.left_held,
        f.leave_serial is None,
        f.motion is Some,
        f.transitions.pressed & LEFT == 0,
        f.transitions.pressed & RIGHT == 0,
        f.transitions.pressed & MIDDLE == 0,
        f.transitions.released & LEFT == 0,
    ensures
        pointer_frame_spec(g0, f, picker, near_last_click, moved_past_slop).1.contains(
            PointerAction::Motion,
        ),
{
    let g = gesture_after_frame(g0, f);
    assert(g.left_held);
    lemma_motion_listed(pointer_decision(g, f, picker, near_last_click, moved_past_slop));
}

/// After `press(button)`, `pressed(button)` holds for a non-empty button set.
pub proof fn lemma_press_recorded(transitions: Transitions, button: u8)
    requires
        button != 0,
    ensures
        (transitions.pressed | button) & button != 0,
{
    let p = transitions.pressed;
    assert((p | button) & button == button) by (bit_vector);
}

} // verus!
