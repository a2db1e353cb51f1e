use vstd::prelude::*;
use crate::escape::Escape;
use vstd::string::StringSliceAdditionalSpecFns;

verus! {

/// A set of SGR ("Select Graphic Rendition") attributes, one bit per attribute.
///
/// Bit `i` is `1 << i`; bit 0 is `Reset`, so an empty set (no bits) differs
/// from a reset. Only the low 29 bits name attributes.
#[derive(Clone, Copy, PartialEq, Eq, Structural, Debug, Hash)]
pub struct Attribute {
    pub bits: u32,
}

/// The mask of all 29 named attribute bits.
pub open spec fn all_bits() -> u32 {
    0x1FFF_FFFFu32
}

/// The bit of the `i`-th attribute (`i < 29`), in declaration order.
pub open spec fn flag_bit(i: int) -> u32 {
    if i == 0 { 1u32 } else if i == 1 { 2u32 } else if i == 2 { 4u32 } else if i == 3 { 8u32 } else if i == 4 { 16u32 } else if i == 5 { 32u32 } else if i == 6 { 64u32 } else if i == 7 { 128u32 } else if i == 8 { 256u32 } else if i == 9 { 512u32 } else if i == 10 { 1024u32 } else if i == 11 { 2048u32 } else if i == 12 { 4096u32 } else if i == 13 { 8192u32 } else if i == 14 { 16384u32 } else if i == 15 { 32768u32 } else if i == 16 { 65536u32 } else if i == 17 { 131072u32 } else if i == 18 { 262144u32 } else if i == 19 { 524288u32 } else if i == 20 { 1048576u32 } else if i == 21 { 2097152u32 } else if i == 22 { 4194304u32 } else if i == 23 { 8388608u32 } else if i == 24 { 16777216u32 } else if i == 25 { 33554432u32 } else if i == 26 { 67108864u32 } else if i == 27 { 134217728u32 } else if i == 28 { 268435456u32 } else { 0u32 }
}

/// The attributes that undo the `i`-th attribute (the inverse table).
pub open spec fn inverse_entry(i: int) -> u32 {
    if i == 0 { 0x1ffffffeu32 } else if i == 1 { 0x30000u32 } else if i == 2 { 0x20000u32 } else if i == 3 { 0x60000u32 } else if i == 4 { 0x80400u32 } else if i == 5 { 0x100040u32 } else if i == 6 { 0x100020u32 } else if i == 7 { 0x200000u32 } else if i == 8 { 0x400000u32 } else if i == 9 { 0x800000u32 } else if i == 10 { 0xf800u32 } else if i == 11 { 0x8f400u32 } else if i == 12 { 0x8ec00u32 } else if i == 13 { 0x8dc00u32 } else if i == 14 { 0x8bc00u32 } else if i == 15 { 0x87c00u32 } else if i == 16 { 0x2u32 } else if i == 17 { 0xeu32 } else if i == 18 { 0x8u32 } else if i == 19 { 0xfc10u32 } else if i == 20 { 0x60u32 } else if i == 21 { 0x80u32 } else if i == 22 { 0x100u32 } else if i == 23 { 0x200u32 } else if i == 24 { 0xa000000u32 } else if i == 25 { 0x9000000u32 } else if i == 26 { 0x10000000u32 } else if i == 27 { 0x3000000u32 } else if i == 28 { 0x4000000u32 } else { 0u32 }
}

/// The SGR parameter string of the `i`-th attribute.
pub open spec fn sgr_entry(i: int) -> Seq<char> {
    if i == 0 { "0"@ } else if i == 1 { "1"@ } else if i == 2 { "2"@ } else if i == 3 { "3"@ } else if i == 4 { "4"@ } else if i == 5 { "5"@ } else if i == 6 { "6"@ } else if i == 7 { "7"@ } else if i == 8 { "8"@ } else if i == 9 { "9"@ } else if i == 10 { "4:0"@ } else if i == 11 { "4:1"@ } else if i == 12 { "4:2"@ } else if i == 13 { "4:3"@ } else if i == 14 { "4:4"@ } else if i == 15 { "4:5"@ } else if i == 16 { "21"@ } else if i == 17 { "22"@ } else if i == 18 { "23"@ } else if i == 19 { "24"@ } else if i == 20 { "25"@ } else if i == 21 { "27"@ } else if i == 22 { "28"@ } else if i == 23 { "29"@ } else if i == 24 { "51"@ } else if i == 25 { "52"@ } else if i == 26 { "53"@ } else if i == 27 { "54"@ } else if i == 28 { "55"@ } else { Seq::empty() }
}

/// Whether `bits` holds every bit of `flag`.
pub open spec fn has_bits(bits: u32, flag: u32) -> bool {
    bits & flag == flag
}

/// The inverse of the first `n` table entries: the union of the inverse
/// entries of every attribute among the first `n` that `bits` holds.
pub open spec fn inverse_upto(bits: u32, n: nat) -> u32
    decreases n,
{
    if n == 0 {
        0u32
    } else {
        let prev = inverse_upto(bits, (n - 1) as nat);
        if has_bits(bits, flag_bit(n - 1)) {
            prev | inverse_entry(n - 1)
        } else {
            prev
        }
    }
}

/// The inverse of an attribute set.
pub open spec fn inverse_bits(bits: u32) -> u32 {
    inverse_upto(bits, 29)
}

/// The SGR strings of the first `n` table entries that `bits` holds, in table order.
pub open spec fn sgr_upto(bits: u32, n: nat) -> Seq<Seq<char>>
    decreases n,
{
    if n == 0 {
        Seq::empty()
    } else {
        let prev = sgr_upto(bits, (n - 1) as nat);
        if has_bits(bits, flag_bit(n - 1)) {
            prev.push(sgr_entry(n - 1))
        } else {
            prev
        }
    }
}

/// The SGR strings of every attribute in `bits`, in table order.
pub open spec fn sgr_strings(bits: u32) -> Seq<Seq<char>> {
    sgr_upto(bits, 29)
}

/// The bytes of a list of parameter strings joined with `;`.
pub open spec fn join_params(params: Seq<Seq<char>>) -> Seq<u8>
    decreases params.len(),
{
    if params.len() == 0 {
        Seq::empty()
    } else if params.len() == 1 {
        vstd::utf8::encode_utf8(params[0])
    } else {
        join_params(params.drop_last()) + seq![59u8] + vstd::utf8::encode_utf8(params.last())
    }
}

impl Attribute {
    /// The number of named attributes.
    pub const COUNT: usize = 29;
    /// Resets all the attributes.
    #[allow(non_snake_case)]
    pub fn Reset() -> (a: Attribute)
        ensures
            a.spec_bits() == 0x1u32,
    {
        Attribute { bits: 0x1 }
    }
    /// Increases the text intensity.
    #[allow(non_snake_case)]
    pub fn Bold() -> (a: Attribute)
        ensures
            a.spec_bits() == 0x2u32,
    {
        Attribute { bits: 0x2 }
    }
    /// Decreases the text intensity.
    #[allow(non_snake_case)]
    pub fn Faint() -> (a: Attribute)
        ensures
            a.spec_bits() == 0x4u32,
    {
        Attribute { bits: 0x4 }
    }
    /// Emphasises the text.
    #[allow(non_snake_case)]
    pub fn Italic() -> (a: Attribute)
        ensures
            a.spec_bits() == 0x8u32,
    {
        Attribute { bits: 0x8 }
    }
    /// Underlines the text.
    #[allow(non_snake_case)]
    pub fn Underline() -> (a: Attribute)
        ensures
            a.spec_bits() == 0x10u32,
    {
        Attribute { bits: 0x10 }
    }
    /// Makes the text blink.
    #[allow(non_snake_case)]
    pub fn Blink() -> (a: Attribute)
        ensures
            a.spec_bits() == 0x20u32,
    {
        Attribute { bits: 0x20 }
    }
    /// Makes the text blink rapidly.
    #[allow(non_snake_case)]
    pub fn RapidBlink() -> (a: Attribute)
        ensures
            a.spec_bits() == 0x40u32,
    {
        Attribute { bits: 0x40 }
    }
    /// Swaps the foreground and background colors.
    #[allow(non_snake_case)]
    pub fn Reverse() -> (a: Attribute)
        ensures
            a.spec_bits() == 0x80u32,
    {
        Attribute { bits: 0x80 }
    }
    /// Hides the text.
    #[allow(non_snake_case)]
    pub fn Conceal() -> (a: Attribute)
        ensures
            a.spec_bits() == 0x100u32,
    {
        Attribute { bits: 0x100 }
    }
    /// Crosses the text out.
    #[allow(non_snake_case)]
    pub fn Strikethrough() -> (a: Attribute)
        ensures
            a.spec_bits() == 0x200u32,
    {
        Attribute { bits: 0x200 }
    }
    /// Sets the underline style to "none".
    #[allow(non_snake_case)]
    pub fn UnderlineStyleNone() -> (a: Attribute)
        ensures
            a.spec_bits() == 0x400u32,
    {
        Attribute { bits: 0x400 }
    }
    /// Sets the underline style to "single".
    #[allow(non_snake_case)]
    pub fn UnderlineStyleSingle() -> (a: Attribute)
        ensures
            a.spec_bits() == 0x800u32,
    {
        Attribute { bits: 0x800 }
    }
    /// Sets the underline style to "double".
    #[allow(non_snake_case)]
    pub fn UnderlineStyleDouble() -> (a: Attribute)
        ensures
            a.spec_bits() == 0x1000u32,
    {
        Attribute { bits: 0x1000 }
    }
    /// Sets the underline style to "curly".
    #[allow(non_snake_case)]
    pub fn UnderlineStyleCurly() -> (a: Attribute)
        ensures
            a.spec_bits() == 0x2000u32,
    {
        Attribute { bits: 0x2000 }
    }
    /// Sets the underline style to "dotted".
    #[allow(non_snake_case)]
    pub fn UnderlineStyleDotted() -> (a: Attribute)
        ensures
            a.spec_bits() == 0x4000u32,
    {
        Attribute { bits: 0x4000 }
    }
    /// Sets the underline style to "dashed".
    #[allow(non_snake_case)]
    pub fn UnderlineStyleDashed() -> (a: Attribute)
        ensures
            a.spec_bits() == 0x8000u32,
    {
        Attribute { bits: 0x8000 }
    }
    /// Turns off the `Bold` attribute.
    #[allow(non_snake_case)]
    pub fn NoBold() -> (a: Attribute)
        ensures
            a.spec_bits() == 0x10000u32,
    {
        Attribute { bits: 0x10000 }
    }
    /// Turns off the `Italic` and `Bold` attributes.
    #[allow(non_snake_case)]
    pub fn NormalIntensity() -> (a: Attribute)
        ensures
            a.spec_bits() == 0x20000u32,
    {
        Attribute { bits: 0x20000 }
    }
    /// Turns off the `Italic` attribute.
    #[allow(non_snake_case)]
    pub fn NoItalic() -> (a: Attribute)
        ensures
            a.spec_bits() == 0x40000u32,
    {
        Attribute { bits: 0x40000 }
    }
    /// Turns off the `Underline` attribute.
    #[allow(non_snake_case)]
    pub fn NoUnderline() -> (a: Attribute)
        ensures
            a.spec_bits() == 0x80000u32,
    {
        Attribute { bits: 0x80000 }
    }
    /// Turns off the text blinking.
    #[allow(non_snake_case)]
    pub fn NoBlink() -> (a: Attribute)
        ensures
            a.spec_bits() == 0x100000u32,
    {
        Attribute { bits: 0x100000 }
    }
    /// Turns off the `Reverse` and `Conceal` attributes.
    #[allow(non_snake_case)]
    pub fn NoReverse() -> (a: Attribute)
        ensures
            a.spec_bits() == 0x200000u32,
    {
        Attribute { bits: 0x200000 }
    }
    /// Turns off the `Conceal` attribute.
    #[allow(non_snake_case)]
    pub fn NoConceal() -> (a: Attribute)
        ensures
            a.spec_bits() == 0x400000u32,
    {
        Attribute { bits: 0x400000 }
    }
    /// Turns off the `Strikethrough` attribute.
    #[allow(non_snake_case)]
    pub fn NoStrikethrough() -> (a: Attribute)
        ensures
            a.spec_bits() == 0x800000u32,
    {
        Attribute { bits: 0x800000 }
    }
    /// Frames the text.
    #[allow(non_snake_case)]
    pub fn Frame() -> (a: Attribute)
        ensures
            a.spec_bits() == 0x1000000u32,
    {
        Attribute { bits: 0x1000000 }
    }
    /// Encircles the text.
    #[allow(non_snake_case)]
    pub fn Encircle() -> (a: Attribute)
        ensures
            a.spec_bits() == 0x2000000u32,
    {
        Attribute { bits: 0x2000000 }
    }
    /// Draws a line at the top of the text.
    #[allow(non_snake_case)]
    pub fn Overline() -> (a: Attribute)
        ensures
            a.spec_bits() == 0x4000000u32,
    {
        Attribute { bits: 0x4000000 }
    }
    /// Turns off the `Frame` and `Encircle` attributes.
    #[allow(non_snake_case)]
    pub fn NoFrameOrEncircle() -> (a: Attribute)
        ensures
            a.spec_bits() == 0x8000000u32,
    {
        Attribute { bits: 0x8000000 }
    }
    /// Turns off the `Overline` attribute.
    #[allow(non_snake_case)]
    pub fn NoOverline() -> (a: Attribute)
        ensures
            a.spec_bits() == 0x10000000u32,
    {
        Attribute { bits: 0x10000000 }
    }
    /// The empty set.
    #[allow(non_snake_case)]
    pub fn EMPTY() -> (a: Attribute)
        ensures
            a.spec_bits() == 0u32,
    {
        Attribute { bits: 0 }
    }
    /// Every named attribute, no exclusions.
    #[allow(non_snake_case)]
    pub fn ALL() -> (a: Attribute)
        ensures
            a.spec_bits() == 0x1FFF_FFFFu32,
    {
        Attribute { bits: 0x1FFF_FFFF }
    }

    /// The raw bits of this set.
    pub open spec fn spec_bits(self) -> u32 {
        self.bits
    }

    /// Builds a set from raw bits, dropping the bits that name no attribute.
    pub fn new(bits: u32) -> (a: Attribute)
        ensures
            a.spec_bits() == bits & all_bits(),
    {
        Attribute { bits: bits & 0x1FFF_FFFF }
    }

    /// The empty set.
    pub fn empty() -> (a: Attribute)
        ensures
            a.spec_bits() == 0,
    {
        Attribute { bits: 0 }
    }

    /// The set of every named attribute.
    pub fn all() -> (a: Attribute)
        ensures
            a.spec_bits() == all_bits(),
    {
        Attribute { bits: 0x1FFF_FFFF }
    }

    /// The raw bits of this set.
    pub fn bits(&self) -> (b: u32)
        ensures
            b == self.spec_bits(),
    {
        self.bits
    }

    /// Whether the set is empty.
    pub fn is_empty(&self) -> (r: bool)
        ensures
            r == (self.spec_bits() == 0),
    {
        self.bits == 0
    }

    /// Whether every attribute of `other` is in this set.
    pub fn contains(&self, other: Attribute) -> (r: bool)
        ensures
            r == has_bits(self.spec_bits(), other.spec_bits()),
    {
        self.bits & other.bits == other.bits
    }

    /// Whether this set and `other` share an attribute.
    pub fn intersects(&self, other: Attribute) -> (r: bool)
        ensures
            r == (self.spec_bits() & other.spec_bits() != 0),
    {
        self.bits & other.bits != 0
    }

    /// The attributes in either set.
    pub fn union(self, other: Attribute) -> (a: Attribute)
        ensures
            a.spec_bits() == self.spec_bits() | other.spec_bits(),
    {
        Attribute { bits: self.bits | other.bits }
    }

    /// The attributes in both sets.
    pub fn intersection(self, other: Attribute) -> (a: Attribute)
        ensures
            a.spec_bits() == self.spec_bits() & other.spec_bits(),
    {
        Attribute { bits: self.bits & other.bits }
    }

    /// The attributes of this set that are not in `other`.
    pub fn difference(self, other: Attribute) -> (a: Attribute)
        ensures
            a.spec_bits() == self.spec_bits() & !other.spec_bits(),
    {
        Attribute { bits: self.bits & !other.bits }
    }

    /// The attributes in exactly one of the two sets.
    pub fn symmetric_difference(self, other: Attribute) -> (a: Attribute)
        ensures
            a.spec_bits() == self.spec_bits() ^ other.spec_bits(),
    {
        Attribute { bits: self.bits ^ other.bits }
    }

    /// The named attributes not in this set.
    pub fn complement(self) -> (a: Attribute)
        ensures
            a.spec_bits() == !self.spec_bits() & all_bits(),
    {
        Attribute { bits: !self.bits & 0x1FFF_FFFF }
    }

    /// Adds the attributes of `other`.
    pub fn insert(&mut self, other: Attribute)
        ensures
            final(self).spec_bits() == old(self).spec_bits() | other.spec_bits(),
    {
        self.bits = self.bits | other.bits;
    }

    /// Removes the attributes of `other`.
    pub fn remove(&mut self, other: Attribute)
        ensures
            final(self).spec_bits() == old(self).spec_bits() & !other.spec_bits(),
    {
        self.bits = self.bits & !other.bits;
    }

    /// Toggles the attributes of `other`.
    pub fn toggle(&mut self, other: Attribute)
        ensures
            final(self).spec_bits() == old(self).spec_bits() ^ other.spec_bits(),
    {
        self.bits = self.bits ^ other.bits;
    }

    /// Adds the attributes of `other`, and nothing else.
    pub fn insert_only(&mut self, other: Attribute)
        ensures
            final(self).spec_bits() == old(self).spec_bits() | other.spec_bits(),
    {
        self.insert(other);
    }

    /// Adds the attributes of `other` and removes their inverses.
    pub fn insert_inclusive(&mut self, other: Attribute)
        ensures
            final(self).spec_bits() == (old(self).spec_bits() | other.spec_bits()) & !inverse_bits(
                other.spec_bits(),
            ),
    {
        self.insert_only(other);
        let inv = other.inverse();
        self.remove(inv);
    }

    /// The attributes that undo this set: the union of the inverse of each
    /// attribute it holds (`Bold` is undone by `NoBold` and `NormalIntensity`,
    /// each underline style by the other styles and `NoUnderline`, and so on).
    pub fn inverse(self) -> (a: Attribute)
        ensures
            a.spec_bits() == inverse_bits(self.spec_bits()),
    {
        let table: [(u32, u32); 29] = [
            (0x1, 0x1ffffffe),
            (0x2, 0x30000),
            (0x4, 0x20000),
            (0x8, 0x60000),
            (0x10, 0x80400),
            (0x20, 0x100040),
            (0x40, 0x100020),
            (0x80, 0x200000),
            (0x100, 0x400000),
            (0x200, 0x800000),
            (0x400, 0xf800),
            (0x800, 0x8f400),
            (0x1000, 0x8ec00),
            (0x2000, 0x8dc00),
            (0x4000, 0x8bc00),
            (0x8000, 0x87c00),
            (0x10000, 0x2),
            (0x20000, 0xe),
            (0x40000, 0x8),
            (0x80000, 0xfc10),
            (0x100000, 0x60),
            (0x200000, 0x80),
            (0x400000, 0x100),
            (0x800000, 0x200),
            (0x1000000, 0xa000000),
            (0x2000000, 0x9000000),
            (0x4000000, 0x10000000),
            (0x8000000, 0x3000000),
            (0x10000000, 0x4000000),
        ];
        let mut out: u32 = 0;
        let mut i: usize = 0;
        while i < 29
            invariant
                0 <= i <= 29,
                forall|k: int| 0 <= k < 29 ==> (#[trigger] table@[k]).0 == flag_bit(k) && table@[k].1 == inverse_entry(k),
                out == inverse_upto(self.bits, i as nat),
            decreases 29 - i,
        {
            let (attr, inv) = table[i];
            if self.bits & attr == attr {
                out = out | inv;
            }
            i += 1;
        }
        Attribute { bits: out }
    }

    /// The attributes that take a cell styled with `self` to one styled with
    /// `other`: the attributes that differ, minus their own inverses.
    pub fn diff(self, other: Attribute) -> (a: Attribute)
        ensures
            a.spec_bits() == (other.spec_bits() ^ self.spec_bits()) & !inverse_bits(
                other.spec_bits() ^ self.spec_bits(),
            ),
    {
        let mut result = Attribute::empty();
        result.insert_inclusive(other.symmetric_difference(self));
        assert(0u32 | (other.spec_bits() ^ self.spec_bits()) == (other.spec_bits() ^ self.spec_bits())) by (bit_vector);
        result
    }

    /// The SGR parameter strings of the attributes in this set, in table order
    /// (`Reset`, `Bold`, ..., `NoOverline`).
    pub fn sgr(&self) -> (v: Vec<&'static str>)
        ensures
            v@.len() == sgr_strings(self.spec_bits()).len(),
            forall|k: int| 0 <= k < v@.len() ==> (#[trigger] v@[k])@ == sgr_strings(self.spec_bits())[k],
    {
        let table: [(u32, &'static str); 29] = [
            (0x1, "0"),
            (0x2, "1"),
            (0x4, "2"),
            (0x8, "3"),
            (0x10, "4"),
            (0x20, "5"),
            (0x40, "6"),
            (0x80, "7"),
            (0x100, "8"),
            (0x200, "9"),
            (0x400, "4:0"),
            (0x800, "4:1"),
            (0x1000, "4:2"),
            (0x2000, "4:3"),
            (0x4000, "4:4"),
            (0x8000, "4:5"),
            (0x10000, "21"),
            (0x20000, "22"),
            (0x40000, "23"),
            (0x80000, "24"),
            (0x100000, "25"),
            (0x200000, "27"),
            (0x400000, "28"),
            (0x800000, "29"),
            (0x1000000, "51"),
            (0x2000000, "52"),
            (0x4000000, "53"),
            (0x8000000, "54"),
            (0x10000000, "55"),
        ];
        let mut out: Vec<&'static str> = Vec::new();
        let mut i: usize = 0;
        while i < 29
            invariant
                0 <= i <= 29,
                forall|k: int| 0 <= k < 29 ==> (#[trigger] table@[k]).0 == flag_bit(k) && table@[k].1@ == sgr_entry(k),
                out@.len() == sgr_upto(self.bits, i as nat).len(),
                forall|k: int| 0 <= k < out@.len() ==> (#[trigger] out@[k])@ == sgr_upto(self.bits, i as nat)[k],
            decreases 29 - i,
        {
            let (attr, code) = table[i];
            if self.bits & attr == attr {
                out.push(code);
            }
            i += 1;
        }
        out
    }
}


/// `f` is the bit of one named attribute.
pub open spec fn is_flag_bit(f: u32) -> bool {
    f == 1u32 || f == 2u32 || f == 4u32 || f == 8u32 || f == 16u32 || f == 32u32 || f == 64u32 || f == 128u32 || f == 256u32 || f == 512u32 || f == 1024u32 || f == 2048u32 || f == 4096u32 || f == 8192u32 || f == 16384u32 || f == 32768u32 || f == 65536u32 || f == 131072u32 || f == 262144u32 || f == 524288u32 || f == 1048576u32 || f == 2097152u32 || f == 4194304u32 || f == 8388608u32 || f == 16777216u32 || f == 33554432u32 || f == 67108864u32 || f == 134217728u32 || f == 268435456u32
}

proof fn lemma_flag_bit_is_flag(i: int)
    requires
        0 <= i < 29,
    ensures
        is_flag_bit(flag_bit(i)),
{
}

proof fn lemma_flag_of_union(a: u32, b: u32, f: u32)
    requires
        is_flag_bit(f),
    ensures
        has_bits(a | b, f) <==> (has_bits(a, f) || has_bits(b, f)),
{
    assert((f == 1u32 || f == 2u32 || f == 4u32 || f == 8u32 || f == 16u32 || f == 32u32 || f == 64u32 || f == 128u32 || f == 256u32 || f == 512u32 || f == 1024u32 || f == 2048u32 || f == 4096u32 || f == 8192u32 || f == 16384u32 || f == 32768u32 || f == 65536u32 || f == 131072u32 || f == 262144u32 || f == 524288u32 || f == 1048576u32 || f == 2097152u32 || f == 4194304u32 || f == 8388608u32 || f == 16777216u32 || f == 33554432u32 || f == 67108864u32 || f == 134217728u32 || f == 268435456u32) ==> (((a | b) & f == f) <==> (a & f == f || b & f == f))) by (bit_vector);
}

proof fn lemma_distinct_flags(f: u32, g: u32)
    requires
        is_flag_bit(f),
        is_flag_bit(g),
    ensures
        has_bits(f, g) <==> f == g,
{
    assert(((f == 1u32 || f == 2u32 || f == 4u32 || f == 8u32 || f == 16u32 || f == 32u32 || f == 64u32 || f == 128u32 || f == 256u32 || f == 512u32 || f == 1024u32 || f == 2048u32 || f == 4096u32 || f == 8192u32 || f == 16384u32 || f == 32768u32 || f == 65536u32 || f == 131072u32 || f == 262144u32 || f == 524288u32 || f == 1048576u32 || f == 2097152u32 || f == 4194304u32 || f == 8388608u32 || f == 16777216u32 || f == 33554432u32 || f == 67108864u32 || f == 134217728u32 || f == 268435456u32) && (g == 1u32 || g == 2u32 || g == 4u32 || g == 8u32 || g == 16u32 || g == 32u32 || g == 64u32 || g == 128u32 || g == 256u32 || g == 512u32 || g == 1024u32 || g == 2048u32 || g == 4096u32 || g == 8192u32 || g == 16384u32 || g == 32768u32 || g == 65536u32 || g == 131072u32 || g == 262144u32 || g == 524288u32 || g == 1048576u32 || g == 2097152u32 || g == 4194304u32 || g == 8388608u32 || g == 16777216u32 || g == 33554432u32 || g == 67108864u32 || g == 134217728u32 || g == 268435456u32)) ==> ((f & g == g) <==> f == g)) by (bit_vector);
}

proof fn lemma_or_shuffle(p: u32, q: u32, e: u32)
    ensures
        (p | q) | e == (p | e) | (q | e),
        (p | q) | e == (p | e) | q,
        (p | q) | e == p | (q | e),
        p | 0 == p,
        0 | p == p,
{
    assert((p | q) | e == (p | e) | (q | e)) by (bit_vector);
    assert((p | q) | e == (p | e) | q) by (bit_vector);
    assert((p | q) | e == p | (q | e)) by (bit_vector);
    assert(p | 0 == p) by (bit_vector);
    assert(0 | p == p) by (bit_vector);
}

proof fn lemma_inverse_upto_union(a: u32, b: u32, n: nat)
    requires
        n <= 29,
    ensures
        inverse_upto(a | b, n) == inverse_upto(a, n) | inverse_upto(b, n),
    decreases n,
{
    if n == 0 {
        lemma_or_shuffle(0, 0, 0);
    } else {
        lemma_inverse_upto_union(a, b, (n - 1) as nat);
        lemma_flag_bit_is_flag(n - 1);
        lemma_flag_of_union(a, b, flag_bit(n - 1));
        let pa = inverse_upto(a, (n - 1) as nat);
        let pb = inverse_upto(b, (n - 1) as nat);
        let e = inverse_entry(n - 1);
        lemma_or_shuffle(pa, pb, e);
        lemma_or_shuffle(pb, pa, e);
        assert((pa | e) | pb == pa | (pb | e)) by (bit_vector);
    }
}

/// The inverse of a union is the union of the inverses: each attribute is
/// undone on its own.
pub proof fn lemma_inverse_of_union(a: Attribute, b: Attribute)
    ensures
        inverse_bits(a.spec_bits() | b.spec_bits()) == inverse_bits(a.spec_bits()) | inverse_bits(
            b.spec_bits(),
        ),
{
    lemma_inverse_upto_union(a.spec_bits(), b.spec_bits(), 29);
}

proof fn lemma_inverse_upto_empty(n: nat)
    requires
        n <= 29,
    ensures
        inverse_upto(0, n) == 0,
    decreases n,
{
    if n > 0 {
        lemma_inverse_upto_empty((n - 1) as nat);
        lemma_flag_bit_is_flag(n - 1);
        let f = flag_bit(n - 1);
        assert((f == 1u32 || f == 2u32 || f == 4u32 || f == 8u32 || f == 16u32 || f == 32u32 || f == 64u32 || f == 128u32 || f == 256u32 || f == 512u32 || f == 1024u32 || f == 2048u32 || f == 4096u32 || f == 8192u32 || f == 16384u32 || f == 32768u32 || f == 65536u32 || f == 131072u32 || f == 262144u32 || f == 524288u32 || f == 1048576u32 || f == 2097152u32 || f == 4194304u32 || f == 8388608u32 || f == 16777216u32 || f == 33554432u32 || f == 67108864u32 || f == 134217728u32 || f == 268435456u32) ==> (0u32 & f != f)) by (bit_vector);
    }
}

/// Nothing undoes the empty set.
pub proof fn lemma_inverse_of_empty()
    ensures
        inverse_bits(0) == 0,
{
    lemma_inverse_upto_empty(29);
}

proof fn lemma_inverse_upto_single(i: int, n: nat)
    requires
        0 <= i < 29,
        n <= 29,
    ensures
        inverse_upto(flag_bit(i), n) == (if i < n { inverse_entry(i) } else { 0u32 }),
    decreases n,
{
    if n > 0 {
        lemma_inverse_upto_single(i, (n - 1) as nat);
        lemma_flag_bit_is_flag(i);
        lemma_flag_bit_is_flag(n - 1);
        lemma_distinct_flags(flag_bit(i), flag_bit(n - 1));
        lemma_or_shuffle(inverse_entry(i), 0, 0);
        lemma_or_shuffle(0, 0, inverse_entry(i));
        assert(flag_bit(i) == flag_bit(n - 1) ==> i == n - 1);
    }
}

/// The inverse of a single attribute is its entry in the inverse table.
pub proof fn lemma_inverse_of_single(i: int)
    requires
        0 <= i < 29,
    ensures
        inverse_bits(flag_bit(i)) == inverse_entry(i),
{
    lemma_inverse_upto_single(i, 29);
}

/// Inserting a single attribute inclusively leaves it set: no attribute is
/// among its own inverses.
pub proof fn lemma_insert_inclusive_keeps_single(base: Attribute, i: int)
    requires
        0 <= i < 29,
    ensures
        has_bits((base.spec_bits() | flag_bit(i)) & !inverse_bits(flag_bit(i)), flag_bit(i)),
{
    lemma_inverse_of_single(i);
    let f = flag_bit(i);
    let e = inverse_entry(i);
    let x = base.spec_bits();
    assert(0x1ffffffeu32 & 0x1u32 == 0 && 0x30000u32 & 0x2u32 == 0 && 0x20000u32 & 0x4u32 == 0 && 0x60000u32 & 0x8u32 == 0 && 0x80400u32 & 0x10u32 == 0 && 0x100040u32 & 0x20u32 == 0 && 0x100020u32 & 0x40u32 == 0 && 0x200000u32 & 0x80u32 == 0 && 0x400000u32 & 0x100u32 == 0 && 0x800000u32 & 0x200u32 == 0 && 0xf800u32 & 0x400u32 == 0 && 0x8f400u32 & 0x800u32 == 0 && 0x8ec00u32 & 0x1000u32 == 0 && 0x8dc00u32 & 0x2000u32 == 0 && 0x8bc00u32 & 0x4000u32 == 0 && 0x87c00u32 & 0x8000u32 == 0 && 0x2u32 & 0x10000u32 == 0 && 0xeu32 & 0x20000u32 == 0 && 0x8u32 & 0x40000u32 == 0 && 0xfc10u32 & 0x80000u32 == 0 && 0x60u32 & 0x100000u32 == 0 && 0x80u32 & 0x200000u32 == 0 && 0x100u32 & 0x400000u32 == 0 && 0x200u32 & 0x800000u32 == 0 && 0xa000000u32 & 0x1000000u32 == 0 && 0x9000000u32 & 0x2000000u32 == 0 && 0x10000000u32 & 0x4000000u32 == 0 && 0x3000000u32 & 0x8000000u32 == 0 && 0x4000000u32 & 0x10000000u32 == 0) by (bit_vector);
    assert(e & f == 0);
    assert(e & f == 0 ==> ((x | f) & !e) & f == f) by (bit_vector);
}

impl Escape for Attribute {
    open spec fn escaped(&self) -> Seq<u8> {
        join_params(sgr_strings(self.spec_bits()))
    }

    /// Writes the SGR parameters of this set, separated by `;`.
    fn escape(&self, out: &mut Vec<u8>) {
        let codes = self.sgr();
        let ghost strs = sgr_strings(self.spec_bits());
        let ghost start = out@;
        let mut i: usize = 0;
        while i < codes.len()
            invariant
                0 <= i <= codes@.len(),
                codes@.len() == strs.len(),
                forall|k: int| 0 <= k < codes@.len() ==> (#[trigger] codes@[k])@ == strs[k],
                out@ == start + join_params(strs.take(i as int)),
            decreases codes.len() - i,
        {
            let ghost before = out@;
            if i > 0 {
                out.push(59u8);
            }
            let bytes = codes[i].as_bytes();
            let mut j: usize = 0;
            let ghost mid = out@;
            while j < bytes.len()
                invariant
                    0 <= j <= bytes@.len(),
                    out@ == mid + bytes@.take(j as int),
                decreases bytes.len() - j,
            {
                out.push(bytes[j]);
                j += 1;
                assert(bytes@.take(j as int) =~= bytes@.take(j - 1).push(bytes@[j - 1]));
            }
            assert(bytes@.take(j as int) =~= bytes@);
            proof {
                let t = strs.take(i + 1);
                assert(t.drop_last() =~= strs.take(i as int));
                assert(t.last() == strs[i as int]);
                if i == 0 {
                    assert(t.len() == 1);
                }
            }
            i += 1;
        }
        assert(strs.take(i as int) =~= strs);
    }
}

impl core::ops::BitOr for Attribute {
    type Output = Attribute;

    fn bitor(self, rhs: Attribute) -> (a: Attribute) {
        Attribute { bits: self.bits | rhs.bits }
    }
}

impl vstd::std_specs::ops::BitOrSpecImpl for Attribute {
    open spec fn obeys_bitor_spec() -> bool {
        true
    }

    open spec fn bitor_req(self, rhs: Attribute) -> bool {
        true
    }

    open spec fn bitor_spec(self, rhs: Attribute) -> Attribute {
        Attribute { bits: self.bits | rhs.bits }
    }
}

impl core::ops::BitAnd for Attribute {
    type Output = Attribute;

    fn bitand(self, rhs: Attribute) -> (a: Attribute) {
        Attribute { bits: self.bits & rhs.bits }
    }
}

impl vstd::std_specs::ops::BitAndSpecImpl for Attribute {
    open spec fn obeys_bitand_spec() -> bool {
        true
    }

    open spec fn bitand_req(self, rhs: Attribute) -> bool {
        true
    }

    open spec fn bitand_spec(self, rhs: Attribute) -> Attribute {
        Attribute { bits: self.bits & rhs.bits }
    }
}

impl core::ops::BitXor for Attribute {
    type Output = Attribute;

    fn bitxor(self, rhs: Attribute) -> (a: Attribute) {
        Attribute { bits: self.bits ^ rhs.bits }
    }
}

impl vstd::std_specs::ops::BitXorSpecImpl for Attribute {
    open spec fn obeys_bitxor_spec() -> bool {
        true
    }

    open spec fn bitxor_req(self, rhs: Attribute) -> bool {
        true
    }

    open spec fn bitxor_spec(self, rhs: Attribute) -> Attribute {
        Attribute { bits: self.bits ^ rhs.bits }
    }
}

impl core::ops::Not for Attribute {
    type Output = Attribute;

    fn not(self) -> (a: Attribute) {
        Attribute { bits: !self.bits & 0x1FFF_FFFF }
    }
}

impl vstd::std_specs::ops::NotSpecImpl for Attribute {
    open spec fn obeys_not_spec() -> bool {
        true
    }

    open spec fn not_req(self) -> bool {
        true
    }

    open spec fn not_spec(self) -> Attribute {
        Attribute { bits: !self.bits & 0x1FFF_FFFF }
    }
}

/// The SGR parameter of each attribute is its ECMA-48 number: Reset 0,
/// Bold 1, Faint 2, Italic 3, Underline 4, SlowBlink 5, RapidBlink 6,
/// Reverse 7, Conceal 8, Strikethrough 9, the underline styles `4:0` to
/// `4:5`, then NoBold 21, NormalIntensity 22, NoItalic 23, NoUnderline 24,
/// NoBlink 25, NoReverse 27, NoConceal 28, NoStrikethrough 29, Framed 51,
/// Encircled 52, Overlined 53, NoFrame 54 and NoOverline 55.
pub proof fn lemma_sgr_ecma_parameters()
    ensures
        sgr_entry(0) == seq!['0'],
        sgr_entry(1) == seq!['1'],
        sgr_entry(2) == seq!['2'],
        sgr_entry(3) == seq!['3'],
        sgr_entry(4) == seq!['4'],
        sgr_entry(5) == seq!['5'],
        sgr_entry(6) == seq!['6'],
        sgr_entry(7) == seq!['7'],
        sgr_entry(8) == seq!['8'],
        sgr_entry(9) == seq!['9'],
        sgr_entry(10) == seq!['4', ':', '0'],
        sgr_entry(11) == seq!['4', ':', '1'],
        sgr_entry(12) == seq!['4', ':', '2'],
        sgr_entry(13) == seq!['4', ':', '3'],
        sgr_entry(14) == seq!['4', ':', '4'],
        sgr_entry(15) == seq!['4', ':', '5'],
        sgr_entry(16) == seq!['2', '1'],
        sgr_entry(17) == seq!['2', '2'],
        sgr_entry(18) == seq!['2', '3'],
        sgr_entry(19) == seq!['2', '4'],
        sgr_entry(20) == seq!['2', '5'],
        sgr_entry(21) == seq!['2', '7'],
        sgr_entry(22) == seq!['2', '8'],
        sgr_entry(23) == seq!['2', '9'],
        sgr_entry(24) == seq!['5', '1'],
        sgr_entry(25) == seq!['5', '2'],
        sgr_entry(26) == seq!['5', '3'],
        sgr_entry(27) == seq!['5', '4'],
        sgr_entry(28) == seq!['5', '5'],
{
    reveal_strlit("0");
    reveal_strlit("1");
    reveal_strlit("2");
    reveal_strlit("3");
    reveal_strlit("4");
    reveal_strlit("5");
    reveal_strlit("6");
    reveal_strlit("7");
    reveal_strlit("8");
    reveal_strlit("9");
    reveal_strlit("4:0");
    reveal_strlit("4:1");
    reveal_strlit("4:2");
    reveal_strlit("4:3");
    reveal_strlit("4:4");
    reveal_strlit("4:5");
    reveal_strlit("21");
    reveal_strlit("22");
    reveal_strlit("23");
    reveal_strlit("24");
    reveal_strlit("25");
    reveal_strlit("27");
    reveal_strlit("28");
    reveal_strlit("29");
    reveal_strlit("51");
    reveal_strlit("52");
    reveal_strlit("53");
    reveal_strlit("54");
    reveal_strlit("55");
}

/// Distinct attributes have distinct SGR parameters.
pub proof fn lemma_sgr_codes_distinct(i: int, j: int)
    requires
        0 <= i < 29,
        0 <= j < 29,
        i != j,
    ensures
        sgr_entry(i) != sgr_entry(j),
{
    lemma_sgr_ecma_parameters();
    if sgr_entry(i) == sgr_entry(j) {
        let a = sgr_entry(i);
        let b = sgr_entry(j);
        assert(a.len() == b.len());
        assert(a[0] == b[0]);
        if a.len() > 1 {
            assert(a[1] == b[1]);
        }
        if a.len() > 2 {
            assert(a[2] == b[2]);
        }
    }
}

proof fn lemma_sgr_upto_contains(bits: u32, i: int, n: nat)
    requires
        0 <= i < 29,
        n <= 29,
    ensures
        sgr_upto(bits, n).contains(sgr_entry(i)) <==> (i < n && has_bits(bits, flag_bit(i))),
    decreases n,
{
    if n > 0 {
        lemma_sgr_upto_contains(bits, i, (n - 1) as nat);
        let prev = sgr_upto(bits, (n - 1) as nat);
        if i != n - 1 {
            lemma_sgr_codes_distinct(i, n - 1);
        }
        if has_bits(bits, flag_bit(n - 1)) {
            let cur = prev.push(sgr_entry(n - 1));
            assert(cur[prev.len() as int] == sgr_entry(n - 1));
            if prev.contains(sgr_entry(i)) {
                let k = choose|k: int| 0 <= k < prev.len() && prev[k] == sgr_entry(i);
                assert(cur[k] == sgr_entry(i));
            }
            if cur.contains(sgr_entry(i)) {
                let k = choose|k: int| 0 <= k < cur.len() && cur[k] == sgr_entry(i);
                if k < prev.len() {
                    assert(prev[k] == sgr_entry(i));
                }
            }
        }
    }
}

/// An attribute set writes the SGR parameter of an attribute exactly when
/// it holds that attribute: each parameter names one attribute.
pub proof fn lemma_sgr_names_attributes(a: Attribute, i: int)
    requires
        0 <= i < 29,
    ensures
        sgr_strings(a.spec_bits()).contains(sgr_entry(i)) <==> has_bits(a.spec_bits(), flag_bit(i)),
{
    lemma_sgr_upto_contains(a.spec_bits(), i, 29);
}

/// Reverse video writes `7` and nothing else; turning it off writes `27`.
pub proof fn lemma_sgr_reverse()
    ensures
        sgr_strings(0x80) == seq![seq!['7']],
        sgr_strings(0x200000) == seq![seq!['2', '7']],
        (Attribute { bits: 0x80 }).escaped() == seq![0x37u8],
        (Attribute { bits: 0x200000 }).escaped() == seq![0x32u8, 0x37u8],
{
    lemma_sgr_ecma_parameters();
    lemma_sgr_upto_single(7, 29);
    lemma_sgr_upto_single(21, 29);
    assert((0x37u32 & 0x7f) == 0x37 && (0x32u32 & 0x7f) == 0x32) by (bit_vector);
    let seven = seq!['7'];
    let two_seven = seq!['2', '7'];
    assert(seven.drop_first() =~= Seq::<char>::empty());
    assert(two_seven.drop_first() =~= seven);
    assert(vstd::utf8::encode_utf8(Seq::<char>::empty()) == Seq::<u8>::empty());
    assert(vstd::utf8::encode_utf8(seven) =~= seq![0x37u8]);
    assert(vstd::utf8::encode_utf8(two_seven) =~= seq![0x32u8, 0x37u8]);
}

proof fn lemma_sgr_upto_single(i: int, n: nat)
    requires
        0 <= i < 29,
        n <= 29,
    ensures
        sgr_upto(flag_bit(i), n) == (if i < n { seq![sgr_entry(i)] } else { Seq::<Seq<char>>::empty() }),
    decreases n,
{
    if n > 0 {
        lemma_sgr_upto_single(i, (n - 1) as nat);
        lemma_flag_bit_is_flag(i);
        lemma_flag_bit_is_flag(n - 1);
        lemma_distinct_flags(flag_bit(i), flag_bit(n - 1));
        assert(flag_bit(i) == flag_bit(n - 1) ==> i == n - 1);
        if i == n - 1 {
            assert(Seq::<Seq<char>>::empty().push(sgr_entry(i)) =~= seq![sgr_entry(i)]);
        }
    }
}

/// A single attribute writes exactly its own SGR parameter.
pub proof fn lemma_sgr_of_single(i: int)
    requires
        0 <= i < 29,
    ensures
        sgr_strings(flag_bit(i)) == seq![sgr_entry(i)],
{
    lemma_sgr_upto_single(i, 29);
}

/// Turning reverse video, concealment or strikethrough on and off undo each
/// other: the inverse of Reverse writes `27` and that of NoReverse `7`,
/// Conceal and NoConceal `28` and `8`, Strikethrough and NoStrikethrough
/// `29` and `9`.
pub proof fn lemma_sgr_of_inverse_pairs()
    ensures
        sgr_strings(inverse_bits(flag_bit(7))) == seq![seq!['2', '7']],
        sgr_strings(inverse_bits(flag_bit(21))) == seq![seq!['7']],
        sgr_strings(inverse_bits(flag_bit(8))) == seq![seq!['2', '8']],
        sgr_strings(inverse_bits(flag_bit(22))) == seq![seq!['8']],
        sgr_strings(inverse_bits(flag_bit(9))) == seq![seq!['2', '9']],
        sgr_strings(inverse_bits(flag_bit(23))) == seq![seq!['9']],
{
    lemma_sgr_ecma_parameters();
    lemma_inverse_of_single(7);
    lemma_inverse_of_single(21);
    lemma_inverse_of_single(8);
    lemma_inverse_of_single(22);
    lemma_inverse_of_single(9);
    lemma_inverse_of_single(23);
    assert(inverse_entry(7) == flag_bit(21) && inverse_entry(21) == flag_bit(7));
    assert(inverse_entry(8) == flag_bit(22) && inverse_entry(22) == flag_bit(8));
    assert(inverse_entry(9) == flag_bit(23) && inverse_entry(23) == flag_bit(9));
    lemma_sgr_of_single(7);
    lemma_sgr_of_single(21);
    lemma_sgr_of_single(8);
    lemma_sgr_of_single(22);
    lemma_sgr_of_single(9);
    lemma_sgr_of_single(23);
}

} // verus!
