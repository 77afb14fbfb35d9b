//! Text-mode layout: rectangles that can be cut and divided, panels with a
//! box model (margin, border, padding, wrapped content), and a compositor
//! that stacks panels into one frame of characters.

pub mod common;
pub mod rect;
pub mod tui;

pub use crate::rect::{Position, Ratio, Rect};
