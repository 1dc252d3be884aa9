//! The handles of a selected annotation and the pointer cursor shown over them.

use vstd::prelude::*;

verus! {

/// A handle that reshapes the selected annotation.
#[derive(Debug, Clone, Copy, PartialEq, Eq, Structural)]
pub enum Handle {
    Start,
    End,
    Corner(Corner),
    Edge(Edge),
}

/// A corner of a bounding box.
#[derive(Debug, Clone, Copy, PartialEq, Eq, Structural)]
pub enum Corner {
    TopLeft,
    TopRight,
    BottomRight,
    BottomLeft,
}

/// An edge of a bounding box.
#[derive(Debug, Clone, Copy, PartialEq, Eq, Structural)]
pub enum Edge {
    Top,
    Right,
    Bottom,
    Left,
}

/// The pointer cursor shape.
#[derive(Debug, Clone, Copy, PartialEq, Eq, Structural)]
pub enum CursorHint {
    Crosshair,
    Move,
    NsResize,
    EwResize,
    NwseResize,
    NeswResize,
}

impl Default for CursorHint {
    fn default() -> (hint: Self)
        ensures
            hint == CursorHint::Crosshair,
    {
        CursorHint::Crosshair
    }
}

/// The cursor over a handle: diagonal arrows on corners along the diagonal
/// they move, vertical or horizontal arrows on edges, a crosshair on line ends.
pub open spec fn cursor_spec(handle: Handle) -> CursorHint {
    match handle {
        Handle::Corner(Corner::TopLeft) | Handle::Corner(Corner::BottomRight) => CursorHint::NwseResize,
        Handle::Corner(Corner::TopRight) | Handle::Corner(Corner::BottomLeft) => CursorHint::NeswResize,
        Handle::Edge(Edge::Top) | Handle::Edge(Edge::Bottom) => CursorHint::NsResize,
        Handle::Edge(Edge::Left) | Handle::Edge(Edge::Right) => CursorHint::EwResize,
        Handle::Start | Handle::End => CursorHint::Crosshair,
    }
}

/// The cursor over a handle.
pub fn cursor(handle: Handle) -> (hint: CursorHint)
    ensures
        hint == cursor_spec(handle),
{
    match handle {
        Handle::Corner(Corner::TopLeft | Corner::BottomRight) => CursorHint::NwseResize,
        Handle::Corner(Corner::TopRight | Corner::BottomLeft) => CursorHint::NeswResize,
        Handle::Edge(Edge::Top | Edge::Bottom) => CursorHint::NsResize,
        Handle::Edge(Edge::Left | Edge::Right) => CursorHint::EwResize,
        Handle::Start | Handle::End => CursorHint::Crosshair,
    }
}

} // verus!
