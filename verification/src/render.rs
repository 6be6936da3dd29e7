use vstd::prelude::*;
use crate::color::Color;
use crate::maze::GOAL;

verus! {

/// The flat color a map character is drawn with on the minimap, and on walls
/// that have no texture.
pub open spec fn spec_cell_color(cell: char) -> Color {
    if cell == '+' {
        Color { r: 0x3A, g: 0x3F, b: 0x6B, a: 255 }
    } else if cell == '-' {
        Color { r: 0x4A, g: 0x52, b: 0x8A, a: 255 }
    } else if cell == '|' {
        Color { r: 0x33, g: 0x38, b: 0x5E, a: 255 }
    } else if cell == GOAL {
        Color { r: 0x5E, g: 0xD9, b: 0x8A, a: 255 }
    } else {
        Color { r: 0x2A, g: 0x2D, b: 0x3E, a: 255 }
    }
}

/// The flat color of a map character: one per wall kind, green for the exit,
/// and the floor color for everything else.
pub fn cell_color(cell: char) -> (c: Color)
    ensures
        c == spec_cell_color(cell),
{
    if cell == '+' {
        Color::new(0x3A, 0x3F, 0x6B, 255)
    } else if cell == '-' {
        Color::new(0x4A, 0x52, 0x8A, 255)
    } else if cell == '|' {
        Color::new(0x33, 0x38, 0x5E, 255)
    } else if cell == GOAL {
        Color::new(0x5E, 0xD9, 0x8A, 255)
    } else {
        Color::new(0x2A, 0x2D, 0x3E, 255)
    }
}

} // verus!
