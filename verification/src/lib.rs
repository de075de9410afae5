//! Conversion engine for live markdown previews: walks a stream of
//! structural markdown events and produces a flat plain-text buffer
//! annotated with style ranges (font size, weight, color, underline,
//! strikethrough, monospace, link targets).

pub mod laws;
pub mod model;
pub mod parse;
pub mod render;
