//! Colours as the rasterizer stores them.

use embedded_graphics_core::pixelcolor::IntoStorage;
use embedded_graphics_core::pixelcolor::Rgb888;
use embedded_graphics_core::pixelcolor::RgbColor;
use embedded_graphics_core::pixelcolor::WebColors;
use vstd::prelude::*;

verus! {

/// A colour with eight bits for each of red, green and blue.
#[derive(Clone, Copy, Debug, PartialEq, Eq, Structural)]
pub struct Color {
    pub r: u8,
    pub g: u8,
    pub b: u8,
}

/// The word a colour occupies in a pixel buffer: red in bits 16 to 23, green
/// in bits 8 to 15, blue in bits 0 to 7, the top byte zero.
pub open spec fn packed_rgb(r: u8, g: u8, b: u8) -> int {
    r as int * 65536 + g as int * 256 + b as int
}

/// Calls `Rgb888::new` and then `IntoStorage::into_storage` of
/// `embedded_graphics_core`. The contract claims that the storage word of an
/// `Rgb888` holds the three channels unchanged, red shifted left by 16 bits,
/// green by 8 and blue by 0, and nothing above them.
#[verifier::external_body]
fn rgb888_storage(r: u8, g: u8, b: u8) -> (word: u32)
    ensures
        word == packed_rgb(r, g, b),
{
    Rgb888::new(r, g, b).into_storage()
}

/// Reads the constant `WebColors::CSS_WHITE` of `Rgb888` through the `r`, `g`
/// and `b` of `RgbColor`. The contract claims that each channel of that
/// constant is 255.
#[verifier::external_body]
fn rgb888_css_white() -> (c: Color)
    ensures
        c == (Color { r: 255, g: 255, b: 255 }),
{
    let white = Rgb888::CSS_WHITE;
    Color { r: white.r(), g: white.g(), b: white.b() }
}

impl Color {
    /// The pixel word of this colour.
    pub open spec fn packed(self) -> int {
        packed_rgb(self.r, self.g, self.b)
    }

    /// Builds a colour from its three channels.
    pub fn new(r: u8, g: u8, b: u8) -> (c: Color)
        ensures
            c == (Color { r, g, b }),
    {
        Color { r, g, b }
    }

    /// White, every channel at its maximum.
    pub fn white() -> (c: Color)
        ensures
            c == (Color { r: 255, g: 255, b: 255 }),
    {
        rgb888_css_white()
    }

    /// The pixel word of this colour, as the display expects it.
    pub fn into_storage(self) -> (word: u32)
        ensures
            word == self.packed(),
            word < 0x100_0000,
    {
        rgb888_storage(self.r, self.g, self.b)
    }
}

} // verus!
