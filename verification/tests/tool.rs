use vellum::tool::{wheel_tool, EndMarker, Tool, ToolPropertySet, WHEEL_TOOLS};

const ALL: [(Tool, &str); 9] = [
    (Tool::Pen, "pen"),
    (Tool::Line, "line"),
    (Tool::Arrow, "arrow"),
    (Tool::Triangle, "triangle"),
    (Tool::Rectangle, "rectangle"),
    (Tool::Ellipse, "ellipse"),
    (Tool::Text, "text"),
    (Tool::Eraser, "eraser"),
    (Tool::Select, "select"),
];

#[test]
fn every_tool_is_found_by_its_name() {
    for (tool, name) in ALL {
        assert_eq!(name.parse::<Tool>(), Ok(tool));
        assert_eq!(Tool::from_name(name), Ok(tool));
    }
}

#[test]
fn unknown_names_are_refused() {
    let message =
        "default tool must be pen, line, arrow, triangle, rectangle, ellipse, text, eraser, or select";
    assert_eq!("Pen".parse::<Tool>(), Err(message));
    assert_eq!("".parse::<Tool>(), Err(message));
    assert_eq!("pens".parse::<Tool>(), Err(message));
}

#[test]
fn only_closed_shapes_can_be_filled() {
    for (tool, _) in ALL {
        let fill = matches!(tool, Tool::Triangle | Tool::Rectangle | Tool::Ellipse);
        assert_eq!(tool.supports_fill(), fill);
    }
    assert_eq!(Tool::default(), Tool::Pen);
}

#[test]
fn only_arrows_end_in_an_arrow_head() {
    for (tool, _) in ALL {
        let expected = if tool == Tool::Arrow { Some(EndMarker::Arrow) } else { None };
        assert_eq!(tool.end_marker(), expected);
    }
}

fn numbered() -> ToolPropertySet<u32> {
    ToolPropertySet {
        pen: 0,
        line: 1,
        arrow: 2,
        triangle: 3,
        rectangle: 4,
        ellipse: 5,
        text: 6,
        eraser: 7,
    }
}

#[test]
fn each_tool_but_select_has_its_own_properties() {
    let set = numbered();
    for (index, (tool, _)) in ALL.iter().enumerate() {
        let expected = if *tool == Tool::Select { None } else { Some(index as u32) };
        assert_eq!(set.properties(*tool).copied(), expected);
    }
}

#[test]
fn changing_one_tool_leaves_the_others() {
    let mut set = numbered();
    *set.properties_mut(Tool::Ellipse).unwrap() = 50;
    assert!(set.properties_mut(Tool::Select).is_none());
    assert_eq!(set.properties(Tool::Ellipse), Some(&50));
    assert_eq!(set.properties(Tool::Rectangle), Some(&4));
    assert_eq!(set.properties(Tool::Text), Some(&6));
}

#[test]
fn the_wheel_offers_each_tool_once() {
    let wheel: Vec<Tool> = (0..WHEEL_TOOLS).map(wheel_tool).collect();
    assert_eq!(
        wheel,
        vec![
            Tool::Pen,
            Tool::Line,
            Tool::Arrow,
            Tool::Rectangle,
            Tool::Ellipse,
            Tool::Text,
            Tool::Select,
            Tool::Eraser,
        ]
    );
}

#[test]
fn only_closed_shapes_start_filled() {
    let filled = ToolPropertySet::initial_fills(true);
    for tool in [Tool::Triangle, Tool::Rectangle, Tool::Ellipse] {
        assert_eq!(filled.properties(tool), Some(&true));
    }
    for tool in [Tool::Pen, Tool::Line, Tool::Arrow, Tool::Text, Tool::Eraser] {
        assert_eq!(filled.properties(tool), Some(&false));
    }
    assert_eq!(filled.properties(Tool::Select), None);
    let outlined = ToolPropertySet::initial_fills(false);
    assert_eq!(outlined.properties(Tool::Rectangle), Some(&false));
}
