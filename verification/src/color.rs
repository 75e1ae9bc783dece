//! The fixed color cycle that a button press steps the display through.

use vstd::prelude::*;

verus! {

/// The colors the display cycles through.
#[derive(Clone, Copy, PartialEq, Eq, Structural, Debug)]
pub enum DisplayColor {
    Red,
    Green,
    Blue,
    White,
    Black,
}

/// The color that follows `c` in the fixed cycle
/// red, green, blue, white, black, red, ...
pub open spec fn spec_next_color(c: DisplayColor) -> DisplayColor {
    match c {
        DisplayColor::Red => DisplayColor::Green,
        DisplayColor::Green => DisplayColor::Blue,
        DisplayColor::Blue => DisplayColor::White,
        DisplayColor::White => DisplayColor::Black,
        DisplayColor::Black => DisplayColor::Red,
    }
}

impl DisplayColor {
    /// Step to the next color of the fixed cycle.
    pub fn next(&self) -> (c: DisplayColor)
        ensures
            c == spec_next_color(*self),
    {
        match self {
            DisplayColor::Red => DisplayColor::Green,
            DisplayColor::Green => DisplayColor::Blue,
            DisplayColor::Blue => DisplayColor::White,
            DisplayColor::White => DisplayColor::Black,
            DisplayColor::Black => DisplayColor::Red,
        }
    }
}

} // verus!
