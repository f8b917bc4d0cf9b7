//! RGB colors.

use vstd::prelude::*;

verus! {

/// An opaque 24-bit RGB color. Two colors are equal exactly when all three
/// components match.
#[derive(Clone, Copy, Debug, PartialEq, Eq, Structural)]
pub struct Color {
    pub red: u8,
    pub green: u8,
    pub blue: u8,
}

impl Color {
    /// The color with all components zero.
    pub open spec fn spec_black() -> Color {
        Color { red: 0, green: 0, blue: 0 }
    }

    /// Builds a color from its red, green and blue components.
    pub fn new(red: u8, green: u8, blue: u8) -> (color: Color)
        ensures
            color.red == red,
            color.green == green,
            color.blue == blue,
    {
        Color { red, green, blue }
    }

    /// Black, the color every fresh buffer starts with.
    #[verifier::when_used_as_spec(spec_black)]
    pub fn black() -> (color: Color)
        ensures
            color == Color::spec_black(),
    {
        Color { red: 0, green: 0, blue: 0 }
    }
}

} // verus!
