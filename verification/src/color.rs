//! A 32-bit RGB color.

use vstd::prelude::*;

verus! {

/// A color as one byte each of red, green and blue.
#[derive(Default, Debug, Clone, Copy, PartialEq, Eq, Structural)]
pub struct Rgb {
    /// The red component, 0-255.
    pub r: u8,
    /// The green component, 0-255.
    pub g: u8,
    /// The blue component, 0-255.
    pub b: u8,
}

/// The color packed into one word: red high, blue low.
pub open spec fn rgb_word(c: Rgb) -> u32 {
    ((c.r as u32) << 16u32) | ((c.g as u32) << 8u32) | (c.b as u32)
}

impl Rgb {
    pub fn new(r: u8, g: u8, b: u8) -> (c: Rgb)
        ensures
            c == (Rgb { r, g, b }),
    {
        Rgb { r, g, b }
    }

    /// Pack the components into one word.
    pub fn to_u32(self) -> (w: u32)
        ensures
            w == rgb_word(self),
    {
        proof {
            let r = self.r;
            let g = self.g;
            let b = self.b;
            assert((((r as u32) << 16u32) | ((g as u32) << 8u32) | (b as u32)) == ((r as u32)
                << 16u32) + ((g as u32) << 8u32) + (b as u32) && ((r as u32) << 16u32) + ((g as u32)
                << 8u32) + (b as u32) <= 0xffffffu32) by (bit_vector);
        }
        ((self.r as u32) << 16) + ((self.g as u32) << 8) + (self.b as u32)
    }

    /// Unpack a word's low three bytes into components.
    pub fn from_u32(word: u32) -> (c: Rgb)
        ensures
            c.r as u32 == (word >> 16u32) & 0xffu32,
            c.g as u32 == (word >> 8u32) & 0xffu32,
            c.b as u32 == word & 0xffu32,
    {
        proof {
            assert((word >> 16u32) & 0xffu32 <= 0xffu32 && (word >> 8u32) & 0xffu32 <= 0xffu32
                && word & 0xffu32 <= 0xffu32) by (bit_vector);
        }
        Rgb {
            r: ((word >> 16) & 0xff) as u8,
            g: ((word >> 8) & 0xff) as u8,
            b: (word & 0xff) as u8,
        }
    }
}

/// Packing then unpacking gives the color back: the three components
/// land in disjoint bytes of the word.
pub proof fn lemma_rgb_roundtrip(c: Rgb)
    ensures
        (rgb_word(c) >> 16u32) & 0xffu32 == c.r as u32,
        (rgb_word(c) >> 8u32) & 0xffu32 == c.g as u32,
        rgb_word(c) & 0xffu32 == c.b as u32,
{
    let r = c.r;
    let g = c.g;
    let b = c.b;
    assert((((((r as u32) << 16u32) | ((g as u32) << 8u32) | (b as u32))) >> 16u32) & 0xffu32 == r
        as u32 && ((((r as u32) << 16u32) | ((g as u32) << 8u32) | (b as u32)) >> 8u32) & 0xffu32
        == g as u32 && (((r as u32) << 16u32) | ((g as u32) << 8u32) | (b as u32)) & 0xffu32 == b
        as u32) by (bit_vector);
}

} // verus!
