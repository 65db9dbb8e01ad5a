//! The RGB color value carried by every color-capable light.

use vstd::prelude::*;

verus! {

/// An RGB color with one byte per channel.
#[derive(Clone, Copy, Debug, PartialEq, Eq, Structural)]
pub struct Color {
    pub red: u8,
    pub green: u8,
    pub blue: u8,
}

impl Color {
    /// The color with the given channel values.
    pub fn new(r: u8, g: u8, b: u8) -> (c: Color)
        ensures
            c == (Color { red: r, green: g, blue: b }),
    {
        Color { red: r, green: g, blue: b }
    }

    /// Black, the color every light is reset to by `clear`.
    pub fn black() -> (c: Color)
        ensures
            c == (Color { red: 0u8, green: 0u8, blue: 0u8 }),
    {
        Color { red: 0, green: 0, blue: 0 }
    }

    /// A color with each channel drawn independently at random.
    pub fn random() -> Color {
        Color { red: random_byte(), green: random_byte(), blue: random_byte() }
    }

    /// A one-cell terminal rendering of this color.
    pub fn as_string(&self) -> String {
        background_cell(self.red, self.green, self.blue)
    }
}

/// Relies on `rand::random::<u8>()`: a uniformly random byte. Nothing is
/// promised of the result.
#[verifier::external_body]
fn random_byte() -> u8 {
    rand::random::<u8>()
}

/// Relies on `colored::Colorize::on_truecolor`: renders one space with the
/// given background color. The output also depends on the crate's global
/// colorization switches, so nothing is promised of it.
#[verifier::external_body]
fn background_cell(r: u8, g: u8, b: u8) -> String {
    colored::Colorize::on_truecolor(" ", r, g, b).to_string()
}

impl Default for Color {
    /// The default color is black.
    fn default() -> (c: Color)
        ensures
            c == (Color { red: 0u8, green: 0u8, blue: 0u8 }),
    {
        Color { red: 0, green: 0, blue: 0 }
    }
}

} // verus!
