//! The one-bit color palette and its packed-pixel conversion.

use vstd::prelude::*;

verus! {

/// A single pixel value of the one-bit palette: `true` is white, `false`
/// is black.
#[derive(Debug, Clone, Copy, PartialEq, Eq, Hash, Structural)]
pub struct Color(pub bool);

impl Color {
    pub fn new(value: bool) -> (c: Color)
        ensures
            c == Color(value),
    {
        Color(value)
    }

    pub fn white() -> (c: Color)
        ensures
            c == Color(true),
    {
        Color(true)
    }

    pub fn black() -> (c: Color)
        ensures
            c == Color(false),
    {
        Color(false)
    }

    /// The opposite palette entry, used for pressed and hover feedback.
    pub open spec fn spec_invert(self) -> Color {
        Color(!self.0)
    }

    pub fn invert(self) -> (c: Color)
        ensures
            c == self.spec_invert(),
    {
        Color(!self.0)
    }

    /// The packed 32-bit pixel this color is presented as.
    pub open spec fn spec_pixel(self) -> u32 {
        if self.0 {
            0x00FFFFFFu32
        } else {
            0x00000000u32
        }
    }

    /// Converts to the platform-native packed pixel value: all color
    /// channels at maximum for white, zero for black.
    pub fn to_pixel(self) -> (p: u32)
        ensures
            p == self.spec_pixel(),
    {
        if self.0 {
            0x00FFFFFF
        } else {
            0x00000000
        }
    }
}

} // verus!
