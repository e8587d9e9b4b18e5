//! The values a style attribute can take.

use vstd::prelude::*;

verus! {

/// How a node takes part in layout.
#[derive(Clone, Copy, Debug, PartialEq, Eq, Structural)]
pub enum DisplayType {
    /// Laid out within a line.
    Inline,
    /// Laid out as a block of its own.
    Block,
    /// Neither rendered nor laid out.
    DisplayNone,
}

/// A length, or the request to let layout choose one.
///
/// The magnitudes are whole numbers of the named unit.
#[derive(Clone, Copy, Debug, PartialEq, Eq, Structural)]
pub enum Unit {
    /// Resolved later, by layout.
    Auto,
    /// A share of the containing box, in percent.
    Percent(i32),
    /// Millimetres.
    Mm(i32),
    /// Points.
    Pt(i32),
    /// Pixels.
    Px(i32),
}

/// A colour with an opacity. An `alpha` of 255 is fully opaque.
#[derive(Clone, Copy, Debug, PartialEq, Eq, Structural)]
pub struct Color {
    pub red: u8,
    pub green: u8,
    pub blue: u8,
    pub alpha: u8,
}

/// The opaque colour with the given channels, as a mathematical value.
pub open spec fn opaque(red: u8, green: u8, blue: u8) -> Color {
    Color { red, green, blue, alpha: 255 }
}

/// The opaque colour with the given channels.
pub fn rgb(red: u8, green: u8, blue: u8) -> (color: Color)
    ensures
        color == opaque(red, green, blue),
{
    Color { red, green, blue, alpha: 255 }
}

/// Opaque white.
pub fn white() -> (color: Color)
    ensures
        color == opaque(255, 255, 255),
{
    rgb(255, 255, 255)
}

} // verus!
