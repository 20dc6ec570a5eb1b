//! Solid colours and the fixed palette.

use vstd::prelude::*;

verus! {

/// A solid colour with 8-bit channels.
#[derive(Clone, Copy, PartialEq, Eq, Structural, Debug)]
pub struct Color {
    pub r: u8,
    pub g: u8,
    pub b: u8,
    pub a: u8,
}

/// The eight named colours.
#[derive(Clone, Copy, PartialEq, Eq, Structural, Debug)]
pub struct Pallet {
    pub black: Color,
    pub red: Color,
    pub yellow: Color,
    pub green: Color,
    pub cyan: Color,
    pub blue: Color,
    pub magenta: Color,
    pub white: Color,
}

impl Pallet {
    /// The opaque colour that the packed code `0xRRGGBB` stands for. Bits
    /// above the lowest 24 play no part.
    pub open spec fn color_of(code: u32) -> Color {
        Color {
            r: ((code as int / 0x1_0000) % 0x100) as u8,
            g: ((code as int / 0x100) % 0x100) as u8,
            b: (code as int % 0x100) as u8,
            a: 0xff,
        }
    }

    /// Unpacks a 24-bit colour code into its channels, fully opaque.
    pub fn create_color(code: u32) -> (c: Color)
        ensures
            c == Self::color_of(code),
    {
        let r: u32 = (code & 0x00ff_0000) >> 16;
        let g: u32 = (code & 0x0000_ff00) >> 8;
        let b: u32 = code & 0x0000_00ff;
        assert(r == (code / 0x1_0000) % 0x100 && r < 0x100) by (bit_vector)
            requires
                r == (code & 0x00ff_0000u32) >> 16,
        ;
        assert(g == (code / 0x100) % 0x100 && g < 0x100) by (bit_vector)
            requires
                g == (code & 0x0000_ff00u32) >> 8,
        ;
        assert(b == code % 0x100 && b < 0x100) by (bit_vector)
            requires
                b == code & 0x0000_00ffu32,
        ;
        Color { r: r as u8, g: g as u8, b: b as u8, a: 0xff }
    }

    /// The palette: black, the three primaries, the three secondaries and
    /// white, each at full intensity.
    pub fn new() -> (p: Pallet)
        ensures
            p.black == (Color { r: 0, g: 0, b: 0, a: 255 }),
            p.red == (Color { r: 255, g: 0, b: 0, a: 255 }),
            p.yellow == (Color { r: 255, g: 255, b: 0, a: 255 }),
            p.green == (Color { r: 0, g: 255, b: 0, a: 255 }),
            p.cyan == (Color { r: 0, g: 255, b: 255, a: 255 }),
            p.blue == (Color { r: 0, g: 0, b: 255, a: 255 }),
            p.magenta == (Color { r: 255, g: 0, b: 255, a: 255 }),
            p.white == (Color { r: 255, g: 255, b: 255, a: 255 }),
    {
        Pallet {
            black: Self::create_color(0x000000),
            red: Self::create_color(0xff0000),
            yellow: Self::create_color(0xffff00),
            green: Self::create_color(0x00ff00),
            cyan: Self::create_color(0x00ffff),
            blue: Self::create_color(0x0000ff),
            magenta: Self::create_color(0xff00ff),
            white: Self::create_color(0xffffff),
        }
    }
}

} // verus!
