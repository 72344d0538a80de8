//! Element composition for a GUI toolkit: a slot-ordered style cascade, layout nodes that own
//! their children, and wrappers that add paint-time styling, hover tracking and click
//! recognition around an element, sharing one per-window context across frames.

pub mod cascade;
pub mod click;
pub mod context;
pub mod element;
pub mod event;
pub mod geometry;
pub mod hover;
pub mod style;
