//! The stroke with which a cell is drawn, as hover and focus decide it.

use vstd::prelude::*;

verus! {

/// Stroke width of a cell that the pointer is not on.
pub const THIN: u32 = 2;

/// Stroke width of the cell under the pointer.
pub const THICK: u32 = 4;

/// The two stroke colours.
#[derive(Clone, Copy, Debug, PartialEq, Eq, Structural)]
pub enum Color {
    Black,
    Green,
}

/// Colour and width of the line that draws a cell.
#[derive(Clone, Copy, Debug, PartialEq, Eq, Structural)]
pub struct Stroke {
    pub color: Color,
    pub line_width: u32,
}

impl Stroke {
    pub fn new(color: Color, line_width: u32) -> (stroke: Stroke)
        ensures
            stroke == (Stroke { color, line_width }),
    {
        Stroke { color, line_width }
    }
}

/// The stroke of a cell: thick under the pointer and thin elsewhere, green
/// with the focus and black without.
pub open spec fn style_for(hovered: bool, focused: bool) -> Stroke {
    Stroke {
        color: if focused {
            Color::Green
        } else {
            Color::Black
        },
        line_width: if hovered {
            THICK
        } else {
            THIN
        },
    }
}

/// The stroke of a cell with the given hover and focus flags.
pub fn tile_style(hovered: bool, focused: bool) -> (stroke: Stroke)
    ensures
        stroke == style_for(hovered, focused),
{
    match (hovered, focused) {
        (false, false) => Stroke::new(Color::Black, THIN),
        (false, true) => Stroke::new(Color::Green, THIN),
        (true, false) => Stroke::new(Color::Black, THICK),
        (true, true) => Stroke::new(Color::Green, THICK),
    }
}

} // verus!
