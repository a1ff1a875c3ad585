use crate::engine::point::{Point, Size};
use crate::widget::config::Color;
use vstd::prelude::*;

verus! {

/// How a line of text is placed within its bounds.
#[derive(Clone, Copy, Debug, PartialEq, Eq, Structural)]
pub enum TextJustify {
    Left,
    Center,
    Right,
}

/// One thing for the window to paint, in the space of the widget that asks for it.
#[derive(Debug, PartialEq, Eq)]
pub enum DrawCommand {
    /// Fill the bounds with a colour.
    Rectangle { origin: Point, size: Size, color: Color },
    /// Write a line of text into the bounds.
    Text {
        origin: Point,
        size: Size,
        color: Color,
        font_name: String,
        font_size: u32,
        justify: TextJustify,
        text: String,
    },
    /// Paint the named image into the bounds.
    Image { origin: Point, size: Size, image_name: String },
}

/// The command that fills a widget's body: a rectangle of the widget's extent, at the start of
/// the widget's own space.
pub open spec fn body_fill(size: Size, color: Color) -> DrawCommand {
    DrawCommand::Rectangle { origin: Point { x: 0, y: 0 }, size, color }
}

} // verus!
