//! RGBA colors with 8-bit channels.

use vstd::prelude::*;

verus! {

/// An RGBA color; each channel runs from 0 (none) to 255 (full).
#[derive(Clone, Copy, PartialEq, Eq, Structural, Debug)]
pub struct Color {
    pub r: u8,
    pub g: u8,
    pub b: u8,
    pub a: u8,
}

impl Color {
    pub fn new(r: u8, g: u8, b: u8, a: u8) -> (c: Color)
        ensures
            c == (Color { r, g, b, a }),
    {
        Color { r, g, b, a }
    }

    pub fn black() -> (c: Color)
        ensures
            c == (Color { r: 0, g: 0, b: 0, a: 255 }),
    {
        Color { r: 0, g: 0, b: 0, a: 255 }
    }

    pub fn white() -> (c: Color)
        ensures
            c == (Color { r: 255, g: 255, b: 255, a: 255 }),
    {
        Color { r: 255, g: 255, b: 255, a: 255 }
    }

    pub fn dark_gray() -> (c: Color)
        ensures
            c == (Color { r: 64, g: 64, b: 64, a: 255 }),
    {
        Color { r: 64, g: 64, b: 64, a: 255 }
    }

    pub fn gray() -> (c: Color)
        ensures
            c == (Color { r: 128, g: 128, b: 128, a: 255 }),
    {
        Color { r: 128, g: 128, b: 128, a: 255 }
    }

    pub fn light_gray() -> (c: Color)
        ensures
            c == (Color { r: 191, g: 191, b: 191, a: 255 }),
    {
        Color { r: 191, g: 191, b: 191, a: 255 }
    }

    pub fn red() -> (c: Color)
        ensures
            c == (Color { r: 255, g: 0, b: 0, a: 255 }),
    {
        Color { r: 255, g: 0, b: 0, a: 255 }
    }

    pub fn green() -> (c: Color)
        ensures
            c == (Color { r: 0, g: 255, b: 0, a: 255 }),
    {
        Color { r: 0, g: 255, b: 0, a: 255 }
    }

    pub fn blue() -> (c: Color)
        ensures
            c == (Color { r: 0, g: 0, b: 255, a: 255 }),
    {
        Color { r: 0, g: 0, b: 255, a: 255 }
    }

    /// One channel of a componentwise product, scaled back into 0..=255.
    pub open spec fn spec_mod_channel(a: u8, b: u8) -> u8 {
        ((a * b) / 255) as u8
    }

    /// Componentwise multiplication (tinting), each channel scaled by the
    /// other color's channel over 255.
    pub fn modulate(self, other: Color) -> (c: Color)
        ensures
            c.r == Color::spec_mod_channel(self.r, other.r),
            c.g == Color::spec_mod_channel(self.g, other.g),
            c.b == Color::spec_mod_channel(self.b, other.b),
            c.a == Color::spec_mod_channel(self.a, other.a),
    {
        Color {
            r: mod_channel(self.r, other.r),
            g: mod_channel(self.g, other.g),
            b: mod_channel(self.b, other.b),
            a: mod_channel(self.a, other.a),
        }
    }
}

fn mod_channel(a: u8, b: u8) -> (r: u8)
    ensures
        r == Color::spec_mod_channel(a, b),
{
    assert(a as int * b as int <= 255 * 255 && 0 <= a as int * b as int) by (nonlinear_arith)
        requires
            0 <= a as int <= 255 && 0 <= b as int <= 255,
    ;
    ((a as u32 * b as u32) / 255) as u8
}

impl Default for Color {
    /// White.
    fn default() -> (c: Color)
        ensures
            c == (Color { r: 255, g: 255, b: 255, a: 255 }),
    {
        Color { r: 255, g: 255, b: 255, a: 255 }
    }
}

} // verus!
