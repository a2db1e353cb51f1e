//! Colors packed into 32 bits: a two-bit color space (unset, default,
//! ANSI, RGB) in the low bits and a 30-bit value above it.
use vstd::prelude::*;
use crate::color::Color;

verus! {

/// The palette index of a named color.
pub open spec fn named_index(c: Color) -> Option<u8> {
    match c {
        Color::Black => Some(0u8),
        Color::Red => Some(1u8),
        Color::Green => Some(2u8),
        Color::Yellow => Some(3u8),
        Color::Blue => Some(4u8),
        Color::Magenta => Some(5u8),
        Color::Cyan => Some(6u8),
        Color::White => Some(7u8),
        Color::BrightBlack => Some(8u8),
        Color::BrightRed => Some(9u8),
        Color::BrightGreen => Some(10u8),
        Color::BrightYellow => Some(11u8),
        Color::BrightBlue => Some(12u8),
        Color::BrightMagenta => Some(13u8),
        Color::BrightCyan => Some(14u8),
        Color::BrightWhite => Some(15u8),
        _ => None,
    }
}

/// The packed form of a color: space 0 for `Unset`, 1 for `Reset`, 2 with
/// the palette index for named and indexed colors, 3 with `r << 16 | g << 8
/// | b` for RGB colors; the value sits above the two space bits.
pub open spec fn pack_spec(c: Color) -> int {
    match c {
        Color::Unset => 0,
        Color::Reset => 1,
        Color::Index(n) => 2 + 4 * n,
        Color::Rgb(r, g, b) => 3 + 4 * (r * 65536 + g * 256 + b),
        _ => match named_index(c) {
            Some(i) => 2 + 4 * i,
            None => 0,
        },
    }
}

/// The color space bits of a packed color.
pub open spec fn space_of(bits: u32) -> u32 {
    bits % 4
}

/// The color a packed value stands for; an ANSI value keeps its low byte as
/// a palette index.
pub open spec fn unpack_spec(bits: u32) -> Color {
    if space_of(bits) == 0 {
        Color::Unset
    } else if space_of(bits) == 1 {
        Color::Reset
    } else {
        Color::Index(((bits / 4) % 256) as u8)
    }
}

fn pack_parts(space: u32, value: u32) -> (bits: u32)
    requires
        space < 4,
        value < 0x4000_0000,
    ensures
        bits == space + 4 * value,
{
    assert((value << 2u32) | space == space + 4 * value) by (bit_vector)
        requires
            space < 4,
            value < 0x4000_0000,
    ;
    (value << 2) | space
}

impl Color {
    /// The packed form of the color.
    pub fn pack(self) -> (bits: u32)
        ensures
            bits == pack_spec(self),
    {
        match self {
            Color::Unset => pack_parts(0, 0),
            Color::Reset => pack_parts(1, 0),
            Color::Black => pack_parts(2, 0),
            Color::Red => pack_parts(2, 1),
            Color::Green => pack_parts(2, 2),
            Color::Yellow => pack_parts(2, 3),
            Color::Blue => pack_parts(2, 4),
            Color::Magenta => pack_parts(2, 5),
            Color::Cyan => pack_parts(2, 6),
            Color::White => pack_parts(2, 7),
            Color::BrightBlack => pack_parts(2, 8),
            Color::BrightRed => pack_parts(2, 9),
            Color::BrightGreen => pack_parts(2, 10),
            Color::BrightYellow => pack_parts(2, 11),
            Color::BrightBlue => pack_parts(2, 12),
            Color::BrightMagenta => pack_parts(2, 13),
            Color::BrightCyan => pack_parts(2, 14),
            Color::BrightWhite => pack_parts(2, 15),
            Color::Index(index) => pack_parts(2, index as u32),
            Color::Rgb(r, g, b) => {
                let (r32, g32, b32) = (r as u32, g as u32, b as u32);
                assert((r32 << 16u32) | (g32 << 8u32) | b32 == r32 * 65536 + g32 * 256 + b32) by (bit_vector)
                    requires
                        r32 < 256,
                        g32 < 256,
                        b32 < 256,
                ;
                pack_parts(3, (r32 << 16) | (g32 << 8) | b32)
            },
        }
    }

    /// The color a packed value stands for. An RGB value cannot be read
    /// back: its low byte would be shifted by sixteen bits, which overflows
    /// a byte.
    pub fn unpack(bits: u32) -> (c: Color)
        requires
            space_of(bits) != 3,
        ensures
            c == unpack_spec(bits),
    {
        assert(bits & 3 == bits % 4 && bits >> 2u32 == bits / 4) by (bit_vector);
        let space = bits & 3;
        let value = bits >> 2;
        if space == 0 {
            Color::Unset
        } else if space == 1 {
            Color::Reset
        } else {
            assert(value as u8 == value % 256) by (bit_vector);
            Color::Index(value as u8)
        }
    }
}

/// Unpacking undoes packing for `Unset`, `Reset` and palette indices, and
/// turns a named color into its palette index. (RGB colors are left out:
/// they do not unpack.)
pub proof fn lemma_unpack_pack(c: Color)
    requires
        !(c is Rgb),
    ensures
        space_of(pack_spec(c) as u32) != 3,
        unpack_spec(pack_spec(c) as u32) == match named_index(c) {
            Some(i) => Color::Index(i),
            None => c,
        },
{
    let p = pack_spec(c);
    assert(p < 1024);
    if let Color::Index(n) = c {
        assert((2 + 4 * n) % 4 == 2 && (2 + 4 * n) / 4 == n) by (nonlinear_arith)
            requires
                n < 256,
        ;
    }
}

} // verus!
