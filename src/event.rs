use vstd::prelude::*;

use crate::geometry::Point;

verus! {

/// A pointer button going down.
#[derive(Clone, Copy, Debug, PartialEq, Eq, Structural)]
pub struct MouseDownEvent {
    pub position: Point,
    pub click_count: u32,
}

/// A pointer button going up.
#[derive(Clone, Copy, Debug, PartialEq, Eq, Structural)]
pub struct MouseUpEvent {
    pub position: Point,
    pub click_count: u32,
}

/// The pointer moving.
#[derive(Clone, Copy, Debug, PartialEq, Eq, Structural)]
pub struct MouseMoveEvent {
    pub position: Point,
}

/// A completed click: the press that started it and the release that ended it.
#[derive(Clone, Copy, Debug, PartialEq, Eq, Structural)]
pub struct MouseClickEvent {
    pub down: MouseDownEvent,
    pub up: MouseUpEvent,
}

/// Capture listeners run before bubble listeners for the same event.
#[derive(Clone, Copy, Debug, PartialEq, Eq, Structural)]
pub enum DispatchPhase {
    Capture,
    Bubble,
}

} // verus!
