//! The annotation shapes, in image pixel coordinates, and the editor tools
//! that create them.

use crate::geometry::Pos;
use crate::pixels::Rgba;
use vstd::prelude::*;

verus! {

/// The tool that pointer input on the canvas is routed to.
#[derive(Clone, Copy, Debug, PartialEq, Eq, Structural)]
pub enum Tool {
    Select,
    Pencil,
    Line,
    Arrow,
    Rect,
    Circle,
    Marker,
    MarkerLine,
    CircleCount,
    Text,
    Pixelate,
    Blur,
}

/// A button of the tool palette.
#[derive(Clone, Copy, Debug, PartialEq, Eq, Structural)]
pub enum ToolAction {
    Tool(Tool),
    Undo,
    Copy,
    Save,
    Clear,
}

/// The redaction effect an effect shape applies.
#[derive(Clone, Copy, Debug, PartialEq, Eq, Structural)]
pub enum EffectKind {
    Pixelate,
    Blur,
}

/// A freehand stroke through its points, in order.
#[derive(Debug)]
pub struct StrokeShape {
    pub points: Vec<Pos>,
    pub color: Rgba,
    pub size: u16,
}

#[derive(Clone, Copy, Debug)]
pub struct LineShape {
    pub start: Pos,
    pub end: Pos,
    pub color: Rgba,
    pub size: u16,
}

/// An arrow pointing at `end`.
#[derive(Clone, Copy, Debug)]
pub struct ArrowShape {
    pub start: Pos,
    pub end: Pos,
    pub color: Rgba,
    pub size: u16,
}

/// A rectangle outline with opposite corners `start` and `end`.
#[derive(Clone, Copy, Debug)]
pub struct RectShape {
    pub start: Pos,
    pub end: Pos,
    pub color: Rgba,
    pub size: u16,
}

/// An ellipse outline inscribed in the box spanned by `start` and `end`.
#[derive(Clone, Copy, Debug)]
pub struct CircleShape {
    pub start: Pos,
    pub end: Pos,
    pub color: Rgba,
    pub size: u16,
}

/// A numbered callout bubble at `center` with a leader towards `pointer`.
#[derive(Clone, Copy, Debug)]
pub struct CircleCountShape {
    pub center: Pos,
    pub pointer: Pos,
    pub color: Rgba,
    pub size: u16,
    pub count: u32,
}

/// A text label with its top-left corner at `pos`.
#[derive(Debug)]
pub struct TextShape {
    pub pos: Pos,
    pub text: Vec<char>,
    pub color: Rgba,
    pub size: u16,
}

/// A redaction effect over the box spanned by `start` and `end`, with its
/// strength in `size`.
#[derive(Clone, Copy, Debug)]
pub struct EffectShape {
    pub start: Pos,
    pub end: Pos,
    pub size: u16,
    pub kind: EffectKind,
}

/// One committed or in-progress annotation.
#[derive(Debug)]
pub enum Shape {
    Stroke(StrokeShape),
    Line(LineShape),
    Arrow(ArrowShape),
    Rect(RectShape),
    Circle(CircleShape),
    CircleCount(CircleCountShape),
    Text(TextShape),
    Effect(EffectShape),
}

} // verus!
