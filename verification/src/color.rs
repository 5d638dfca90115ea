//! A 24-bit RGB color, the unit of palette storage. Convertible losslessly
//! to and from a packed integer with red in bits 16-23, green in 8-15 and
//! blue in 0-7.

use vstd::prelude::*;

verus! {

/// Three 8-bit channels; no alpha.
#[derive(Clone, Copy, Debug, PartialEq, Eq, Structural)]
pub struct Color {
    pub r: u8,
    pub g: u8,
    pub b: u8,
}

/// The color a packed 24-bit integer denotes; bits above the low 24 are
/// ignored.
pub open spec fn spec_color_of_u32(value: u32) -> Color {
    Color { r: ((value >> 16) % 256) as u8, g: ((value >> 8) % 256) as u8, b: (value % 256) as u8 }
}

impl Color {
    /// Build a color from an explicit (r, g, b) triple.
    pub fn from_rgb(r: u8, g: u8, b: u8) -> (c: Color)
        ensures
            c == (Color { r, g, b }),
    {
        Color { r, g, b }
    }

    /// Unpack a 24-bit integer: red from bits 16-23, green from 8-15, blue
    /// from 0-7.
    pub fn from_u32(value: u32) -> (c: Color)
        ensures
            c == spec_color_of_u32(value),
    {
        Color {
            r: ((value >> 16) % 256) as u8,
            g: ((value >> 8) % 256) as u8,
            b: (value % 256) as u8,
        }
    }

    /// Pack the three channels into a 24-bit integer.
    pub fn to_u32(self) -> (v: u32)
        ensures
            v == self.r * 0x10000 + self.g * 0x100 + self.b,
            v == ((self.r as u32) << 16) | ((self.g as u32) << 8) | (self.b as u32),
            spec_color_of_u32(v) == self,
    {
        let v = ((self.r as u32) << 16) | ((self.g as u32) << 8) | (self.b as u32);
        proof {
            lemma_pack_unpack(self.r, self.g, self.b);
        }
        v
    }
}

impl Default for Color {
    /// All channels zero: black.
    fn default() -> (c: Self)
        ensures
            c == (Color { r: 0, g: 0, b: 0 }),
    {
        Color { r: 0, g: 0, b: 0 }
    }
}

/// Packing three channels and unpacking them again recovers each channel:
/// the packed form is lossless, and equals the weighted sum of the channels.
pub proof fn lemma_pack_unpack(r: u8, g: u8, b: u8)
    ensures
        ((r as u32) << 16) | ((g as u32) << 8) | (b as u32) == r * 0x10000 + g * 0x100 + b,
        spec_color_of_u32(((r as u32) << 16) | ((g as u32) << 8) | (b as u32)) == (Color {
            r,
            g,
            b,
        }),
{
    assert(((r as u32) << 16) | ((g as u32) << 8) | (b as u32) == (r as u32) * 0x10000 + (
    g as u32) * 0x100 + (b as u32)) by (bit_vector);
    let v: u32 = ((r as u32) << 16) | ((g as u32) << 8) | (b as u32);
    assert(((v >> 16) % 256) == r && ((v >> 8) % 256) == g && (v % 256) == b) by (bit_vector)
        requires
            v == ((r as u32) << 16) | ((g as u32) << 8) | (b as u32),
    ;
}

} // verus!
