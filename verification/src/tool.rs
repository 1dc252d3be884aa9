//! The drawing tools and their names in the configuration file.

use vstd::prelude::*;
use crate::protocol::bytes_equal;
use crate::text_edit::utf8;

verus! {

/// A drawing tool.
#[derive(Debug, Clone, Copy, PartialEq, Eq, Structural)]
pub enum Tool {
    Pen,
    Line,
    Arrow,
    Triangle,
    Rectangle,
    Ellipse,
    Text,
    Eraser,
    Select,
}

impl Default for Tool {
    fn default() -> (tool: Self)
        ensures
            tool == Tool::Pen,
    {
        Tool::Pen
    }
}

/// The name of a tool in the configuration file, as bytes.
pub open spec fn tool_name(tool: Tool) -> Seq<u8> {
    match tool {
        Tool::Pen => seq![0x70u8, 0x65, 0x6e],
        Tool::Line => seq![0x6cu8, 0x69, 0x6e, 0x65],
        Tool::Arrow => seq![0x61u8, 0x72, 0x72, 0x6f, 0x77],
        Tool::Triangle => seq![0x74u8, 0x72, 0x69, 0x61, 0x6e, 0x67, 0x6c, 0x65],
        Tool::Rectangle => seq![0x72u8, 0x65, 0x63, 0x74, 0x61, 0x6e, 0x67, 0x6c, 0x65],
        Tool::Ellipse => seq![0x65u8, 0x6c, 0x6c, 0x69, 0x70, 0x73, 0x65],
        Tool::Text => seq![0x74u8, 0x65, 0x78, 0x74],
        Tool::Eraser => seq![0x65u8, 0x72, 0x61, 0x73, 0x65, 0x72],
        Tool::Select => seq![0x73u8, 0x65, 0x6c, 0x65, 0x63, 0x74],
    }
}

/// The tool named by `name`, if any.
pub open spec fn named_tool(name: Seq<u8>) -> Option<Tool> {
    if name == tool_name(Tool::Pen) {
        Some(Tool::Pen)
    } else if name == tool_name(Tool::Line) {
        Some(Tool::Line)
    } else if name == tool_name(Tool::Arrow) {
        Some(Tool::Arrow)
    } else if name == tool_name(Tool::Triangle) {
        Some(Tool::Triangle)
    } else if name == tool_name(Tool::Rectangle) {
        Some(Tool::Rectangle)
    } else if name == tool_name(Tool::Ellipse) {
        Some(Tool::Ellipse)
    } else if name == tool_name(Tool::Text) {
        Some(Tool::Text)
    } else if name == tool_name(Tool::Eraser) {
        Some(Tool::Eraser)
    } else if name == tool_name(Tool::Select) {
        Some(Tool::Select)
    } else {
        None
    }
}

/// Every tool is found again from its name.
pub proof fn lemma_tool_name_round_trip(tool: Tool)
    ensures
        named_tool(tool_name(tool)) == Some(tool),
{
    match tool {
        Tool::Pen => {},
        Tool::Line => {
            assert(tool_name(Tool::Line) != tool_name(Tool::Pen));
        },
        Tool::Arrow => {
            assert(tool_name(Tool::Arrow) != tool_name(Tool::Pen));
            assert(tool_name(Tool::Arrow) != tool_name(Tool::Line));
        },
        Tool::Triangle => {
            assert(tool_name(Tool::Triangle) != tool_name(Tool::Pen));
            assert(tool_name(Tool::Triangle) != tool_name(Tool::Line));
            assert(tool_name(Tool::Triangle) != tool_name(Tool::Arrow));
        },
        Tool::Rectangle => {
            assert(tool_name(Tool::Rectangle) != tool_name(Tool::Pen));
            assert(tool_name(Tool::Rectangle) != tool_name(Tool::Line));
            assert(tool_name(Tool::Rectangle) != tool_name(Tool::Arrow));
            assert(tool_name(Tool::Rectangle) != tool_name(Tool::Triangle));
        },
        Tool::Ellipse => {
            assert(tool_name(Tool::Ellipse) != tool_name(Tool::Pen));
            assert(tool_name(Tool::Ellipse) != tool_name(Tool::Line));
            assert(tool_name(Tool::Ellipse) != tool_name(Tool::Arrow));
            assert(tool_name(Tool::Ellipse) != tool_name(Tool::Triangle));
            assert(tool_name(Tool::Ellipse) != tool_name(Tool::Rectangle));
        },
        Tool::Text => {
            assert(tool_name(Tool::Text) != tool_name(Tool::Pen));
            assert(tool_name(Tool::Text) != tool_name(Tool::Line));
            assert(tool_name(Tool::Text) != tool_name(Tool::Arrow));
            assert(tool_name(Tool::Text) != tool_name(Tool::Triangle));
            assert(tool_name(Tool::Text) != tool_name(Tool::Rectangle));
            assert(tool_name(Tool::Text) != tool_name(Tool::Ellipse));
        },
        Tool::Eraser => {
            assert(tool_name(Tool::Eraser) != tool_name(Tool::Pen));
            assert(tool_name(Tool::Eraser) != tool_name(Tool::Line));
            assert(tool_name(Tool::Eraser) != tool_name(Tool::Arrow));
            assert(tool_name(Tool::Eraser) != tool_name(Tool::Triangle));
            assert(tool_name(Tool::Eraser) != tool_name(Tool::Rectangle));
            assert(tool_name(Tool::Eraser) != tool_name(Tool::Ellipse));
            assert(tool_name(Tool::Eraser) != tool_name(Tool::Text));
        },
        Tool::Select => {
            assert(tool_name(Tool::Select) != tool_name(Tool::Pen));
            assert(tool_name(Tool::Select) != tool_name(Tool::Line));
            assert(tool_name(Tool::Select) != tool_name(Tool::Arrow));
            assert(tool_name(Tool::Select) != tool_name(Tool::Triangle));
            assert(tool_name(Tool::Select) != tool_name(Tool::Rectangle));
            assert(tool_name(Tool::Select) != tool_name(Tool::Ellipse));
            assert(tool_name(Tool::Select) != tool_name(Tool::Text));
            assert(tool_name(Tool::Select) != tool_name(Tool::Eraser));
        },
    }
}

const PEN: [u8; 3] = [0x70, 0x65, 0x6e];

const LINE: [u8; 4] = [0x6c, 0x69, 0x6e, 0x65];

const ARROW: [u8; 5] = [0x61, 0x72, 0x72, 0x6f, 0x77];

const TRIANGLE: [u8; 8] = [0x74, 0x72, 0x69, 0x61, 0x6e, 0x67, 0x6c, 0x65];

const RECTANGLE: [u8; 9] = [0x72, 0x65, 0x63, 0x74, 0x61, 0x6e, 0x67, 0x6c, 0x65];

const ELLIPSE: [u8; 7] = [0x65, 0x6c, 0x6c, 0x69, 0x70, 0x73, 0x65];

const TEXT: [u8; 4] = [0x74, 0x65, 0x78, 0x74];

const ERASER: [u8; 6] = [0x65, 0x72, 0x61, 0x73, 0x65, 0x72];

const SELECT: [u8; 6] = [0x73, 0x65, 0x6c, 0x65, 0x63, 0x74];

/// The message for a name that is no tool.
pub open spec fn unknown_tool_message() -> Seq<char> {
    "default tool must be pen, line, arrow, triangle, rectangle, ellipse, text, eraser, or select"@
}

impl Tool {
    /// Whether shapes drawn with this tool can be filled.
    pub fn supports_fill(self) -> (fill: bool)
        ensures
            fill == (self == Tool::Triangle || self == Tool::Rectangle || self == Tool::Ellipse),
    {
        matches!(self, Tool::Triangle | Tool::Rectangle | Tool::Ellipse)
    }

    /// The tool with this exact name; names are lower case.
    pub fn from_name(name: &str) -> (tool: Result<Tool, &'static str>)
        ensures
            match tool {
                Ok(t) => named_tool(utf8(name@)) == Some(t),
                Err(message) => named_tool(utf8(name@)) is None && message@
                    == unknown_tool_message(),
            },
    {
        Tool::from_name_bytes(name.as_bytes())
    }

    /// The tool whose name has exactly these bytes.
    pub fn from_name_bytes(bytes: &[u8]) -> (tool: Result<Tool, &'static str>)
        ensures
            match tool {
                Ok(t) => named_tool(bytes@) == Some(t),
                Err(message) => named_tool(bytes@) is None && message@ == unknown_tool_message(),
            },
    {
        if bytes_equal(bytes, PEN.as_slice()) {
            Ok(Tool::Pen)
        } else if bytes_equal(bytes, LINE.as_slice()) {
            Ok(Tool::Line)
        } else if bytes_equal(bytes, ARROW.as_slice()) {
            Ok(Tool::Arrow)
        } else if bytes_equal(bytes, TRIANGLE.as_slice()) {
            Ok(Tool::Triangle)
        } else if bytes_equal(bytes, RECTANGLE.as_slice()) {
            Ok(Tool::Rectangle)
        } else if bytes_equal(bytes, ELLIPSE.as_slice()) {
            Ok(Tool::Ellipse)
        } else if bytes_equal(bytes, TEXT.as_slice()) {
            Ok(Tool::Text)
        } else if bytes_equal(bytes, ERASER.as_slice()) {
            Ok(Tool::Eraser)
        } else if bytes_equal(bytes, SELECT.as_slice()) {
            Ok(Tool::Select)
        } else {
            proof {
                reveal_strlit(
                    "default tool must be pen, line, arrow, triangle, rectangle, ellipse, text, eraser, or select",
                );
            }
            Err(
                "default tool must be pen, line, arrow, triangle, rectangle, ellipse, text, eraser, or select",
            )
        }
    }
}

/// How many tools the tool wheel offers.
pub const WHEEL_TOOLS: usize = 8;

/// The tools of the tool wheel, clockwise from the right.
pub open spec fn wheel_order() -> Seq<Tool> {
    seq![
        Tool::Pen,
        Tool::Line,
        Tool::Arrow,
        Tool::Rectangle,
        Tool::Ellipse,
        Tool::Text,
        Tool::Select,
        Tool::Eraser,
    ]
}

/// The tool in wedge `index` of the tool wheel.
pub fn wheel_tool(index: usize) -> (tool: Tool)
    requires
        index < WHEEL_TOOLS,
    ensures
        tool == wheel_order()[index as int],
{
    match index {
        0 => Tool::Pen,
        1 => Tool::Line,
        2 => Tool::Arrow,
        3 => Tool::Rectangle,
        4 => Tool::Ellipse,
        5 => Tool::Text,
        6 => Tool::Select,
        _ => Tool::Eraser,
    }
}

/// No tool takes two wedges of the wheel, so the wedge a choice lands in
/// names one tool and the wheel can mark the current tool in one place.
pub proof fn lemma_wheel_tools_distinct(i: int, j: int)
    requires
        0 <= i < WHEEL_TOOLS,
        0 <= j < WHEEL_TOOLS,
        i != j,
    ensures
        wheel_order()[i] != wheel_order()[j],
{
}

/// What a path ends in.
#[derive(Debug, Clone, Copy, PartialEq, Eq, Structural)]
pub enum EndMarker {
    Arrow,
}

impl Tool {
    /// What the end of a line drawn with this tool carries: an arrow head for
    /// the arrow tool, nothing for any other.
    pub fn end_marker(self) -> (marker: Option<EndMarker>)
        ensures
            marker == if self == Tool::Arrow {
                Some(EndMarker::Arrow)
            } else {
                None::<EndMarker>
            },
    {
        if self == Tool::Arrow {
            Some(EndMarker::Arrow)
        } else {
            None
        }
    }
}

/// One set of drawing properties for each tool that has them; the select
/// tool draws nothing and has none.
pub struct ToolPropertySet<P> {
    pub pen: P,
    pub line: P,
    pub arrow: P,
    pub triangle: P,
    pub rectangle: P,
    pub ellipse: P,
    pub text: P,
    pub eraser: P,
}

impl<P> ToolPropertySet<P> {
    /// The properties `tool` draws with, as the set holds them.
    pub open spec fn slot(self, tool: Tool) -> Option<P> {
        match tool {
            Tool::Pen => Some(self.pen),
            Tool::Line => Some(self.line),
            Tool::Arrow => Some(self.arrow),
            Tool::Triangle => Some(self.triangle),
            Tool::Rectangle => Some(self.rectangle),
            Tool::Ellipse => Some(self.ellipse),
            Tool::Text => Some(self.text),
            Tool::Eraser => Some(self.eraser),
            Tool::Select => None,
        }
    }

    /// The set with the properties of `tool` replaced by `value`.
    pub open spec fn with_slot(self, tool: Tool, value: P) -> Self {
        match tool {
            Tool::Pen => ToolPropertySet { pen: value, ..self },
            Tool::Line => ToolPropertySet { line: value, ..self },
            Tool::Arrow => ToolPropertySet { arrow: value, ..self },
            Tool::Triangle => ToolPropertySet { triangle: value, ..self },
            Tool::Rectangle => ToolPropertySet { rectangle: value, ..self },
            Tool::Ellipse => ToolPropertySet { ellipse: value, ..self },
            Tool::Text => ToolPropertySet { text: value, ..self },
            Tool::Eraser => ToolPropertySet { eraser: value, ..self },
            Tool::Select => self,
        }
    }

    /// The properties `tool` draws with; none for the select tool.
    pub fn properties(&self, tool: Tool) -> (properties: Option<&P>)
        ensures
            match properties {
                Some(p) => self.slot(tool) == Some(*p),
                None => self.slot(tool) is None,
            },
    {
        match tool {
            Tool::Pen => Some(&self.pen),
            Tool::Line => Some(&self.line),
            Tool::Arrow => Some(&self.arrow),
            Tool::Triangle => Some(&self.triangle),
            Tool::Rectangle => Some(&self.rectangle),
            Tool::Ellipse => Some(&self.ellipse),
            Tool::Text => Some(&self.text),
            Tool::Eraser => Some(&self.eraser),
            Tool::Select => None,
        }
    }

    /// The properties `tool` draws with, to change in place; none for the select tool.
    pub fn properties_mut(&mut self, tool: Tool) -> (properties: Option<&mut P>)
        ensures
            match properties {
                Some(p) => old(self).slot(tool) == Some(*p) && *final(self) == old(self).with_slot(
                    tool,
                    *final(p),
                ),
                None => tool == Tool::Select && *final(self) == *old(self),
            },
    {
        match tool {
            Tool::Pen => Some(&mut self.pen),
            Tool::Line => Some(&mut self.line),
            Tool::Arrow => Some(&mut self.arrow),
            Tool::Triangle => Some(&mut self.triangle),
            Tool::Rectangle => Some(&mut self.rectangle),
            Tool::Ellipse => Some(&mut self.ellipse),
            Tool::Text => Some(&mut self.text),
            Tool::Eraser => Some(&mut self.eraser),
            Tool::Select => None,
        }
    }
}

impl ToolPropertySet<bool> {
    /// Whether each tool starts out filling what it draws: triangles,
    /// rectangles and ellipses as `default_fill_shapes` says, every other
    /// tool never.
    pub fn initial_fills(default_fill_shapes: bool) -> (fills: Self)
        ensures
            forall|tool: Tool|
                #[trigger] fills.slot(tool) == if tool == Tool::Select {
                    None
                } else {
                    Some(
                        default_fill_shapes && (tool == Tool::Triangle || tool == Tool::Rectangle
                            || tool == Tool::Ellipse),
                    )
                },
    {
        ToolPropertySet {
            pen: false,
            line: false,
            arrow: false,
            triangle: default_fill_shapes,
            rectangle: default_fill_shapes,
            ellipse: default_fill_shapes,
            text: false,
            eraser: false,
        }
    }
}

/// Changing the properties of one tool is read back for that tool and leaves
/// every other tool's properties as they were.
pub proof fn lemma_set_properties<P>(set: ToolPropertySet<P>, tool: Tool, value: P, other: Tool)
    requires
        tool != Tool::Select,
    ensures
        set.with_slot(tool, value).slot(tool) == Some(value),
        other != tool ==> set.with_slot(tool, value).slot(other) == set.slot(other),
{
}

impl std::str::FromStr for Tool {
    type Err = &'static str;

    fn from_str(name: &str) -> (tool: Result<Tool, &'static str>)
        ensures
            match tool {
                Ok(t) => named_tool(utf8(name@)) == Some(t),
                Err(message) => named_tool(utf8(name@)) is None && message@
                    == unknown_tool_message(),
            },
    {
        Tool::from_name(name)
    }
}

} // verus!
