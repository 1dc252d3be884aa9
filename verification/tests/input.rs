use vellum::document::Document;
use vellum::editor::{Editor, ToolState, Wheel};
use vellum::tool::Tool;
use vellum::handles::{cursor, Corner, CursorHint, Edge, Handle};
use vellum::input::{
    button_mask, double_click_in_time, elapsed, short_click, update_button, PenAction, PenEvent,
    PenFrame, PenState, PointerAction, PointerEvent, PointerFrame, PointerGesture, Transitions, BUTTON, ERASER_BUTTON, LEFT, MIDDLE, PEN, REDO, RIGHT, UNDO,
};

#[test]
fn clicks_are_short_presses() {
    assert!(short_click(Some(1000), Some(1300)));
    assert!(!short_click(Some(1000), Some(1301)));
    assert!(!short_click(None, Some(10)));
    assert!(!short_click(Some(10), None));
    assert!(short_click(Some(u32::MAX - 99), Some(200)));
    assert!(!short_click(Some(500), Some(499)));
}

#[test]
fn elapsed_time_wraps_around() {
    assert_eq!(elapsed(10, 25), 15);
    assert_eq!(elapsed(u32::MAX, 4), 5);
    assert!(double_click_in_time(100, 500));
    assert!(!double_click_in_time(100, 501));
}

#[test]
fn evdev_buttons_map_to_roles() {
    assert_eq!(button_mask(272), Some(LEFT));
    assert_eq!(button_mask(273), Some(RIGHT));
    assert_eq!(button_mask(274), Some(MIDDLE));
    assert_eq!(button_mask(275), Some(UNDO));
    assert_eq!(button_mask(278), Some(UNDO));
    assert_eq!(button_mask(276), Some(REDO));
    assert_eq!(button_mask(277), Some(REDO));
    assert_eq!(button_mask(279), None);
    assert_eq!(button_mask(0), None);
}

#[test]
fn held_buttons_follow_a_frame() {
    let mut frame = Transitions::default();
    frame.press(LEFT);
    frame.release(RIGHT);
    assert!(frame.pressed(LEFT));
    assert!(!frame.pressed(RIGHT));
    assert!(frame.released(RIGHT));

    let mut left = false;
    let mut right = true;
    let mut middle = true;
    update_button(&mut left, frame, LEFT);
    update_button(&mut right, frame, RIGHT);
    update_button(&mut middle, frame, MIDDLE);
    assert!(left);
    assert!(!right);
    assert!(middle);

    let mut both = Transitions::default();
    both.press(MIDDLE);
    both.release(MIDDLE);
    update_button(&mut middle, both, MIDDLE);
    assert!(!middle);
}

#[test]
fn handles_show_resize_cursors() {
    assert_eq!(cursor(Handle::Corner(Corner::TopLeft)), CursorHint::NwseResize);
    assert_eq!(cursor(Handle::Corner(Corner::BottomRight)), CursorHint::NwseResize);
    assert_eq!(cursor(Handle::Corner(Corner::TopRight)), CursorHint::NeswResize);
    assert_eq!(cursor(Handle::Corner(Corner::BottomLeft)), CursorHint::NeswResize);
    assert_eq!(cursor(Handle::Edge(Edge::Top)), CursorHint::NsResize);
    assert_eq!(cursor(Handle::Edge(Edge::Bottom)), CursorHint::NsResize);
    assert_eq!(cursor(Handle::Edge(Edge::Left)), CursorHint::EwResize);
    assert_eq!(cursor(Handle::Edge(Edge::Right)), CursorHint::EwResize);
    assert_eq!(cursor(Handle::Start), CursorHint::Crosshair);
    assert_eq!(cursor(Handle::End), CursorHint::Crosshair);
    assert_eq!(CursorHint::default(), CursorHint::Crosshair);
}

fn frame(events: Vec<PenEvent<(i32, i32)>>) -> PenFrame<(i32, i32)> {
    let mut pending = PenFrame::new();
    for event in events {
        assert!(pending.dispatch(event).is_none());
    }
    let finished = pending.dispatch(PenEvent::Frame).expect("a frame ends");
    assert_eq!(pending.transitions, Transitions::default());
    assert!(pending.motion.is_none());
    finished
}

fn step(state: &mut PenState<(i32, i32)>, events: Vec<PenEvent<(i32, i32)>>) -> Vec<PenAction> {
    let finished = frame(events);
    state.update(&finished);
    state.actions(&finished)
}

#[test]
fn pen_frames_collect_touches_and_the_eraser_button() {
    let finished = frame(vec![
        PenEvent::ProximityIn { serial: 9 },
        PenEvent::Motion((1, 2)),
        PenEvent::Down,
        PenEvent::Button { button: ERASER_BUTTON, pressed: Some(true) },
        PenEvent::Button { button: 332, pressed: Some(false) },
        PenEvent::Motion((3, 4)),
        PenEvent::Other,
    ]);
    assert_eq!(finished.enter_serial, Some(9));
    assert_eq!(finished.motion, Some((3, 4)));
    assert_eq!(finished.transitions, Transitions { pressed: PEN | BUTTON, released: 0 });
}

#[test]
fn a_stroke_with_the_pen() {
    let mut state = PenState::new();
    assert_eq!(step(&mut state, vec![PenEvent::Down]), vec![]);
    assert!(state.pen_held);
    assert_eq!(
        step(&mut state, vec![PenEvent::Motion((5, 5)), PenEvent::Down]),
        vec![PenAction::Down { temporary_eraser: false }, PenAction::Motion]
    );
    assert_eq!(step(&mut state, vec![PenEvent::Motion((6, 5))]), vec![PenAction::Motion]);
    assert_eq!(step(&mut state, vec![PenEvent::Up]), vec![PenAction::Up]);
    assert!(!state.pen_held);
    assert_eq!(step(&mut state, vec![PenEvent::Motion((7, 5))]), vec![]);
}

#[test]
fn the_eraser_button_switches_mid_stroke() {
    let mut state = PenState::new();
    step(&mut state, vec![PenEvent::Motion((0, 0)), PenEvent::Down]);
    let pressed = PenEvent::Button { button: ERASER_BUTTON, pressed: Some(true) };
    assert_eq!(
        step(&mut state, vec![pressed, PenEvent::Motion((1, 0))]),
        vec![PenAction::Up, PenAction::Down { temporary_eraser: true }]
    );
    assert!(state.button_held);
    let released = PenEvent::Button { button: ERASER_BUTTON, pressed: Some(false) };
    assert_eq!(
        step(&mut state, vec![released]),
        vec![PenAction::Up, PenAction::Down { temporary_eraser: false }]
    );
    let unknown = PenEvent::Button { button: ERASER_BUTTON, pressed: None };
    assert_eq!(step(&mut state, vec![unknown]), vec![]);
}

#[test]
fn touching_with_the_button_held_erases() {
    let mut state = PenState::new();
    let pressed = PenEvent::Button { button: ERASER_BUTTON, pressed: Some(true) };
    assert_eq!(
        step(&mut state, vec![PenEvent::Motion((2, 2)), pressed]),
        vec![PenAction::OpenWheel]
    );
    assert_eq!(
        step(&mut state, vec![PenEvent::Down]),
        vec![PenAction::Down { temporary_eraser: true }]
    );
}

#[test]
fn pointer_frames_collect_buttons_and_scrolling() {
    let mut pending: PointerFrame<(i32, i32)> = PointerFrame::new();
    let events = vec![
        PointerEvent::Enter { serial: 3, position: (1, 1) },
        PointerEvent::Motion((2, 3)),
        PointerEvent::Button { time: 70, button: 273, pressed: Some(true) },
        PointerEvent::Button { time: 80, button: 272, pressed: Some(true) },
        PointerEvent::Button { time: 90, button: 274, pressed: Some(false) },
        PointerEvent::Button { time: 95, button: 275, pressed: None },
        PointerEvent::Button { time: 99, button: 999, pressed: Some(true) },
        PointerEvent::AxisDiscrete(1),
        PointerEvent::AxisDiscrete(1),
        PointerEvent::AxisValue120(-60),
        PointerEvent::AxisStop,
        PointerEvent::Leave { serial: 4 },
        PointerEvent::Other,
    ];
    for event in events {
        assert!(pending.dispatch(event).is_none());
    }
    let frame = pending.dispatch(PointerEvent::Frame).expect("a frame ends");
    assert_eq!(frame.motion, Some((2, 3)));
    assert_eq!(frame.enter_serial, Some(3));
    assert_eq!(frame.leave_serial, Some(4));
    assert_eq!(frame.transitions, Transitions { pressed: LEFT | RIGHT, released: MIDDLE });
    assert_eq!(frame.left_press_time, Some(80));
    assert_eq!(frame.axis_discrete, 2);
    assert_eq!(frame.axis_value120, -60);
    assert!(frame.vertical_axis_stopped);
    assert_eq!(pending.transitions, Transitions::default());
    assert_eq!(pending.left_press_time, None);
    assert_eq!(pending.axis_discrete, 0);
}

#[test]
fn only_a_left_press_records_its_time() {
    let mut pending: PointerFrame<(i32, i32)> = PointerFrame::new();
    pending.dispatch(PointerEvent::Button { time: 5, button: 272, pressed: Some(false) });
    pending.dispatch(PointerEvent::Button { time: 6, button: 273, pressed: Some(true) });
    let frame = pending.dispatch(PointerEvent::Frame).unwrap();
    assert_eq!(frame.left_press_time, None);
    assert_eq!(frame.transitions, Transitions { pressed: RIGHT, released: LEFT });
}

#[test]
fn the_barrel_button_opens_the_wheel_while_hovering() {
    let mut state = PenState::new();
    step(&mut state, vec![PenEvent::Motion((4, 4))]);
    let pressed = PenEvent::Button { button: ERASER_BUTTON, pressed: Some(true) };
    assert_eq!(step(&mut state, vec![pressed]), vec![PenAction::OpenWheel]);
    assert!(!state.pen_held);
}

fn pointer_frame(events: Vec<PointerEvent<(i32, i32)>>) -> PointerFrame<(i32, i32)> {
    let mut pending = PointerFrame::new();
    for event in events {
        pending.dispatch(event);
    }
    pending.dispatch(PointerEvent::Frame).expect("a frame ends")
}

fn left(time: u32, pressed: bool) -> PointerEvent<(i32, i32)> {
    PointerEvent::Button { time, button: 272, pressed: Some(pressed) }
}

#[test]
fn entering_and_moving_sets_the_cursor_and_scrolls() {
    let mut gesture = PointerGesture::new();
    let frame = pointer_frame(vec![PointerEvent::Enter { serial: 1, position: (5, 5) }]);
    let actions = gesture.frame_actions(&frame, false, false, false);
    assert_eq!(actions, vec![PointerAction::SetCursor, PointerAction::Scroll]);
    assert_eq!(gesture.position, Some((5, 5)));
    let frame = pointer_frame(vec![PointerEvent::Motion((6, 5))]);
    assert_eq!(
        gesture.frame_actions(&frame, false, false, false),
        vec![PointerAction::SetCursor, PointerAction::Scroll]
    );
}

#[test]
fn a_left_click_then_a_quick_second_one_is_a_double_click() {
    let mut gesture = PointerGesture::new();
    gesture.frame_actions(&pointer_frame(vec![PointerEvent::Motion((1, 1))]), false, false, false);
    let first = gesture.frame_actions(&pointer_frame(vec![left(1000, true)]), false, false, false);
    assert_eq!(first, vec![PointerAction::LeftPress { double_click: false }, PointerAction::Scroll]);
    assert!(gesture.left_held);
    let up = gesture.frame_actions(&pointer_frame(vec![left(1100, false)]), false, false, false);
    assert_eq!(up, vec![PointerAction::Up { right: false }, PointerAction::Scroll]);
    let second = gesture.frame_actions(&pointer_frame(vec![left(1300, true)]), false, true, false);
    assert_eq!(second, vec![PointerAction::LeftPress { double_click: true }, PointerAction::Scroll]);
    assert_eq!(gesture.last_left_click, None);
    gesture.frame_actions(&pointer_frame(vec![left(1350, false)]), false, true, false);
    let third = gesture.frame_actions(&pointer_frame(vec![left(1400, true)]), false, true, false);
    assert_eq!(third, vec![PointerAction::LeftPress { double_click: false }, PointerAction::Scroll]);
}

#[test]
fn a_slow_or_far_second_click_is_no_double_click() {
    let mut gesture = PointerGesture::new();
    gesture.frame_actions(&pointer_frame(vec![PointerEvent::Motion((1, 1))]), false, false, false);
    gesture.frame_actions(&pointer_frame(vec![left(0, true)]), false, false, false);
    gesture.frame_actions(&pointer_frame(vec![left(10, false)]), false, false, false);
    let late = gesture.frame_actions(&pointer_frame(vec![left(411, true)]), false, true, false);
    assert_eq!(late[0], PointerAction::LeftPress { double_click: false });
    gesture.frame_actions(&pointer_frame(vec![left(420, false)]), false, false, false);
    let far = gesture.frame_actions(&pointer_frame(vec![left(500, true)]), false, false, false);
    assert_eq!(far[0], PointerAction::LeftPress { double_click: false });
}

#[test]
fn dragging_held_buttons_moves_and_the_wheel_takes_no_scroll() {
    let mut gesture = PointerGesture::new();
    gesture.frame_actions(&pointer_frame(vec![PointerEvent::Motion((1, 1))]), false, false, false);
    gesture.frame_actions(&pointer_frame(vec![left(0, true)]), false, false, false);
    let drag = gesture.frame_actions(&pointer_frame(vec![PointerEvent::Motion((50, 1))]), false, false, true);
    assert_eq!(drag, vec![PointerAction::Motion, PointerAction::Scroll]);
    assert_eq!(gesture.last_left_click, None);
    let stopped = pointer_frame(vec![PointerEvent::AxisStop]);
    assert_eq!(gesture.frame_actions(&stopped, true, false, false), vec![PointerAction::ResetScroll]);
}

#[test]
fn right_toggles_the_wheel_middle_erases_side_buttons_undo() {
    let mut gesture = PointerGesture::new();
    gesture.frame_actions(&pointer_frame(vec![PointerEvent::Motion((1, 1))]), false, false, false);
    let right = pointer_frame(vec![PointerEvent::Button { time: 0, button: 273, pressed: Some(true) }]);
    assert_eq!(gesture.frame_actions(&right, false, false, false), vec![PointerAction::ToggleWheel]);
    let middle = pointer_frame(vec![PointerEvent::Button { time: 0, button: 274, pressed: Some(true) }]);
    assert_eq!(
        gesture.frame_actions(&middle, true, false, false),
        vec![PointerAction::DismissWheel, PointerAction::EraseDown, PointerAction::Scroll]
    );
    let side = pointer_frame(vec![
        PointerEvent::Button { time: 0, button: 275, pressed: Some(true) },
        PointerEvent::Button { time: 0, button: 276, pressed: Some(true) },
    ]);
    assert_eq!(
        gesture.frame_actions(&side, true, false, false),
        vec![PointerAction::Undo, PointerAction::Redo, PointerAction::Scroll]
    );
}

#[test]
fn leaving_cancels_the_gesture() {
    let mut gesture = PointerGesture::new();
    gesture.frame_actions(&pointer_frame(vec![PointerEvent::Motion((1, 1))]), false, false, false);
    gesture.frame_actions(&pointer_frame(vec![left(0, true)]), false, false, false);
    let leave = pointer_frame(vec![PointerEvent::Leave { serial: 2 }]);
    assert_eq!(
        gesture.frame_actions(&leave, false, false, false),
        vec![PointerAction::CancelGesture { interaction_active: true }]
    );
    assert!(!gesture.left_held);
    assert_eq!(gesture.position, None);
}

#[test]
fn the_barrel_button_while_hovering_opens_the_wheel() {
    let mut editor: Editor<u32> = Editor {
        tools: ToolState::new(Tool::Pen, true),
        document: Document::new(),
        interaction: None,
        text: None,
        picker: None,
    };
    let mut state = PenState::new();
    let pressed = PenEvent::Button { button: ERASER_BUTTON, pressed: Some(true) };
    for action in step(&mut state, vec![PenEvent::Motion((4, 4)), pressed]) {
        assert_eq!(action, PenAction::OpenWheel);
        assert_eq!(editor.open_tool_wheel(), vellum::damage::Damage::Preview);
    }
    assert_eq!(editor.picker, Some(Wheel::Tools { hovered: None }));
    assert_eq!(editor.interaction, None);
    assert!(editor.document.elements().is_empty());
}
