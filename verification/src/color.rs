use vstd::prelude::*;
use crate::escape::Escape;

pub mod packed;
pub mod parse;

verus! {

/// A terminal color: one of the sixteen named ANSI colors, a 256-color
/// palette index, a 24-bit RGB triple, `Reset` (the terminal's default color)
/// or `Unset` (no color set).
#[derive(Clone, Copy, PartialEq, Eq, Structural, Debug, Hash)]
pub enum Color {
    Black,
    Red,
    Green,
    Yellow,
    Blue,
    Magenta,
    Cyan,
    White,
    BrightBlack,
    BrightRed,
    BrightGreen,
    BrightYellow,
    BrightBlue,
    BrightMagenta,
    BrightCyan,
    BrightWhite,
    Index(u8),
    Rgb(u8, u8, u8),
    Reset,
    Unset,
}

/// The color space of a color.
#[derive(Clone, Copy, PartialEq, Eq, Structural, Debug, Hash)]
pub enum ColorSpace {
    Unset,
    Ansi,
    Rgb,
}

/// `a & b`: `Unset` absorbs, `Reset` meets only `Reset`, equal colors meet in themselves.
pub open spec fn color_and(a: Color, b: Color) -> Color {
    if a is Unset || b is Unset {
        Color::Unset
    } else if a is Reset && b is Reset {
        Color::Reset
    } else if a is Reset || b is Reset {
        Color::Unset
    } else if a == b {
        a
    } else {
        Color::Unset
    }
}

/// `a | b`: the first color that is neither `Unset` nor `Reset`; otherwise
/// `Reset` if either is `Reset`; otherwise `Unset`.
pub open spec fn color_or(a: Color, b: Color) -> Color {
    if a is Unset {
        b
    } else if b is Unset {
        a
    } else if a is Reset {
        b
    } else {
        a
    }
}

/// `a ^ b`: the color if exactly one side is set; `Reset ^ Reset` and two
/// concrete colors give `Unset`; `Reset` yields to a concrete color.
pub open spec fn color_xor(a: Color, b: Color) -> Color {
    if a is Unset {
        b
    } else if b is Unset {
        a
    } else if a is Reset && b is Reset {
        Color::Unset
    } else if a is Reset {
        b
    } else if b is Reset {
        a
    } else {
        Color::Unset
    }
}

/// `!a`: `Unset` becomes `Reset`, everything else becomes `Unset` for `Reset`
/// and `Reset` for a concrete color.
pub open spec fn color_not(a: Color) -> Color {
    if a is Unset {
        Color::Reset
    } else if a is Reset {
        Color::Unset
    } else {
        Color::Reset
    }
}

/// The decimal digits of `n`, most significant first.
pub open spec fn decimal(n: nat) -> Seq<u8>
    decreases n,
{
    if n < 10 {
        seq![(48 + n) as u8]
    } else {
        decimal(n / 10).push((48 + n % 10) as u8)
    }
}

/// The SGR parameters that set `c` as the foreground color.
pub open spec fn foreground_sgr(c: Color) -> Seq<u8> {
    match c {
        Color::Black => seq![51u8, 48u8],
        Color::Red => seq![51u8, 49u8],
        Color::Green => seq![51u8, 50u8],
        Color::Yellow => seq![51u8, 51u8],
        Color::Blue => seq![51u8, 52u8],
        Color::Magenta => seq![51u8, 53u8],
        Color::Cyan => seq![51u8, 54u8],
        Color::White => seq![51u8, 55u8],
        Color::BrightBlack => seq![57u8, 48u8],
        Color::BrightRed => seq![57u8, 49u8],
        Color::BrightGreen => seq![57u8, 50u8],
        Color::BrightYellow => seq![57u8, 51u8],
        Color::BrightBlue => seq![57u8, 52u8],
        Color::BrightMagenta => seq![57u8, 53u8],
        Color::BrightCyan => seq![57u8, 54u8],
        Color::BrightWhite => seq![57u8, 55u8],
        Color::Index(i) => seq![51u8, 56u8, 59u8, 53u8, 59u8] + decimal(i as nat),
        Color::Rgb(r, g, b) => seq![51u8, 56u8, 59u8, 50u8, 59u8] + decimal(r as nat) + seq![59u8] + decimal(g as nat) + seq![59u8] + decimal(b as nat),
        Color::Reset => seq![51u8, 57u8],
        Color::Unset => Seq::empty(),
    }
}

/// The SGR parameters that set `c` as the background color.
pub open spec fn background_sgr(c: Color) -> Seq<u8> {
    match c {
        Color::Black => seq![52u8, 48u8],
        Color::Red => seq![52u8, 49u8],
        Color::Green => seq![52u8, 50u8],
        Color::Yellow => seq![52u8, 51u8],
        Color::Blue => seq![52u8, 52u8],
        Color::Magenta => seq![52u8, 53u8],
        Color::Cyan => seq![52u8, 54u8],
        Color::White => seq![52u8, 55u8],
        Color::BrightBlack => seq![57u8, 48u8],
        Color::BrightRed => seq![57u8, 49u8],
        Color::BrightGreen => seq![57u8, 50u8],
        Color::BrightYellow => seq![57u8, 51u8],
        Color::BrightBlue => seq![57u8, 52u8],
        Color::BrightMagenta => seq![57u8, 53u8],
        Color::BrightCyan => seq![57u8, 54u8],
        Color::BrightWhite => seq![57u8, 55u8],
        Color::Index(i) => seq![51u8, 56u8, 59u8, 53u8, 59u8] + decimal(i as nat),
        Color::Rgb(r, g, b) => seq![51u8, 56u8, 59u8, 50u8, 59u8] + decimal(r as nat) + seq![59u8] + decimal(g as nat) + seq![59u8] + decimal(b as nat),
        Color::Reset => seq![52u8, 57u8],
        Color::Unset => Seq::empty(),
    }
}

/// The SGR parameters that set `c` as the underline color.
pub open spec fn underline_sgr(c: Color) -> Seq<u8> {
    match c {
        Color::Black => seq![53u8, 56u8, 59u8, 53u8, 59u8, 48u8],
        Color::Red => seq![53u8, 56u8, 59u8, 53u8, 59u8, 49u8],
        Color::Green => seq![53u8, 56u8, 59u8, 53u8, 59u8, 50u8],
        Color::Yellow => seq![53u8, 56u8, 59u8, 53u8, 59u8, 51u8],
        Color::Blue => seq![53u8, 56u8, 59u8, 53u8, 59u8, 52u8],
        Color::Magenta => seq![53u8, 56u8, 59u8, 53u8, 59u8, 53u8],
        Color::Cyan => seq![53u8, 56u8, 59u8, 53u8, 59u8, 54u8],
        Color::White => seq![53u8, 56u8, 59u8, 53u8, 59u8, 55u8],
        Color::BrightBlack => seq![53u8, 56u8, 59u8, 53u8, 59u8, 56u8],
        Color::BrightRed => seq![53u8, 56u8, 59u8, 53u8, 59u8, 57u8],
        Color::BrightGreen => seq![53u8, 56u8, 59u8, 53u8, 59u8, 49u8, 48u8],
        Color::BrightYellow => seq![53u8, 56u8, 59u8, 53u8, 59u8, 49u8, 49u8],
        Color::BrightBlue => seq![53u8, 56u8, 59u8, 53u8, 59u8, 49u8, 50u8],
        Color::BrightMagenta => seq![53u8, 56u8, 59u8, 53u8, 59u8, 49u8, 51u8],
        Color::BrightCyan => seq![53u8, 56u8, 59u8, 53u8, 59u8, 49u8, 52u8],
        Color::BrightWhite => seq![53u8, 56u8, 59u8, 53u8, 59u8, 49u8, 53u8],
        Color::Index(i) => seq![53u8, 56u8, 59u8, 53u8, 59u8] + decimal(i as nat),
        Color::Rgb(r, g, b) => seq![53u8, 56u8, 59u8, 50u8, 59u8] + decimal(r as nat) + seq![59u8] + decimal(g as nat) + seq![59u8] + decimal(b as nat),
        Color::Reset => seq![53u8, 57u8],
        Color::Unset => Seq::empty(),
    }
}

/// The color with ANSI code `value`: the sixteen named colors for 0..=15,
/// a palette index above.
pub open spec fn color_of_u8(value: u8) -> Color {
    if value == 0 { Color::Black } else if value == 1 { Color::Red } else if value == 2 { Color::Green } else if value == 3 { Color::Yellow } else if value == 4 { Color::Blue } else if value == 5 { Color::Magenta } else if value == 6 { Color::Cyan } else if value == 7 { Color::White } else if value == 8 { Color::BrightBlack } else if value == 9 { Color::BrightRed } else if value == 10 { Color::BrightGreen } else if value == 11 { Color::BrightYellow } else if value == 12 { Color::BrightBlue } else if value == 13 { Color::BrightMagenta } else if value == 14 { Color::BrightCyan } else if value == 15 { Color::BrightWhite } else { Color::Index(value) }
}

/// Appends the decimal digits of `n` to `out`.
pub fn push_decimal(out: &mut Vec<u8>, n: u8)
    ensures
        final(out)@ == old(out)@ + decimal(n as nat),
{
    if n >= 100 {
        out.push(48 + n / 100);
        out.push(48 + (n / 10) % 10);
        out.push(48 + n % 10);
        proof {
            let a = (n as nat) / 10;
            assert(decimal(a) == decimal(a / 10).push((48 + a % 10) as u8));
            assert(a / 10 < 10);
            assert(decimal(a / 10) == seq![(48 + a / 10) as u8]);
        }
    } else if n >= 10 {
        out.push(48 + n / 10);
        out.push(48 + n % 10);
        proof {
            let a = (n as nat) / 10;
            assert(decimal(a) == seq![(48 + a) as u8]);
        }
    } else {
        out.push(48 + n);
    }
}

/// Appends `bytes` to `out`.
pub fn push_all(out: &mut Vec<u8>, bytes: &Vec<u8>)
    ensures
        final(out)@ == old(out)@ + bytes@,
{
    let mut i: usize = 0;
    let ghost start = out@;
    while i < bytes.len()
        invariant
            0 <= i <= bytes@.len(),
            out@ == start + bytes@.take(i as int),
        decreases bytes.len() - i,
    {
        out.push(bytes[i]);
        i += 1;
        assert(bytes@.take(i as int) =~= bytes@.take(i - 1).push(bytes@[i - 1]));
    }
    assert(bytes@.take(i as int) =~= bytes@);
}

/// Appends `prefix`, then the decimal `n`, to `out`.
fn push_prefixed(out: &mut Vec<u8>, prefix: Vec<u8>, n: u8)
    ensures
        final(out)@ == old(out)@ + prefix@ + decimal(n as nat),
{
    push_all(out, &prefix);
    push_decimal(out, n);
}

/// Appends `prefix` then `r;g;b` in decimal to `out`.
fn push_rgb(out: &mut Vec<u8>, prefix: Vec<u8>, r: u8, g: u8, b: u8)
    ensures
        final(out)@ == old(out)@ + prefix@ + decimal(r as nat) + seq![59u8] + decimal(g as nat)
            + seq![59u8] + decimal(b as nat),
{
    push_all(out, &prefix);
    push_decimal(out, r);
    out.push(59u8);
    push_decimal(out, g);
    out.push(59u8);
    push_decimal(out, b);
}


/// `|` is unset exactly when both sides are unset, as a union of sets is empty
/// exactly when both sets are.
pub proof fn lemma_color_or_unset(a: Color, b: Color)
    ensures
        (color_or(a, b) is Unset) <==> (a is Unset && b is Unset),
{
}

/// `&` is set only when both sides are set, as an intersection of sets.
pub proof fn lemma_color_and_set(a: Color, b: Color)
    ensures
        !(color_and(a, b) is Unset) ==> (!(a is Unset) && !(b is Unset)),
{
}

/// `&` is commutative and idempotent.
pub proof fn lemma_color_and_laws(a: Color, b: Color)
    ensures
        color_and(a, b) == color_and(b, a),
        color_and(a, a) == a,
{
}

/// `|` is idempotent, and `Unset` is its identity on either side.
pub proof fn lemma_color_or_laws(a: Color)
    ensures
        color_or(a, a) == a,
        color_or(a, Color::Unset) == a,
        color_or(Color::Unset, a) == a,
{
}

/// `^` is commutative, a color cancels itself, and `Unset` is its identity.
pub proof fn lemma_color_xor_laws(a: Color, b: Color)
    ensures
        color_xor(a, b) == color_xor(b, a),
        color_xor(a, a) is Unset,
        color_xor(a, Color::Unset) == a,
{
}

impl Color {
    /// The default color, `Reset`.
    pub fn default() -> (c: Color)
        ensures
            c == Color::Reset,
    {
        Color::Reset
    }

    /// Whether the color is not `Unset`.
    pub fn is_some(&self) -> (r: bool)
        ensures
            r == !(*self is Unset),
    {
        match self {
            Color::Unset => false,
            _ => true,
        }
    }

    /// Whether the color is `Unset`.
    pub fn is_none(&self) -> (r: bool)
        ensures
            r == (*self is Unset),
    {
        !self.is_some()
    }

    /// Whether the color is `Reset`.
    pub fn is_reset(&self) -> (r: bool)
        ensures
            r == (*self is Reset),
    {
        match self {
            Color::Reset => true,
            _ => false,
        }
    }

    /// Whether the color is the default one, `Reset`.
    pub fn is_default(&self) -> (r: bool)
        ensures
            r == (*self is Reset),
    {
        self.is_reset()
    }

    /// This color, unless it is `Unset`.
    pub fn as_option(&self) -> (r: Option<&Color>)
        ensures
            *self is Unset ==> r is None,
            !(*self is Unset) ==> r == Some(self),
    {
        match self {
            Color::Unset => Option::None,
            color => Some(color),
        }
    }

    /// This color if it is not `Unset`, otherwise the default color `Reset`.
    pub fn or_default(self) -> (r: Color)
        ensures
            r == (if self is Unset { Color::Reset } else { self }),
    {
        self.or_reset()
    }

    /// Applies `f` to a color that is not `Unset`.
    pub fn map<U, F: FnOnce(Color) -> U>(self, f: F) -> (r: Option<U>)
        requires
            !(self is Unset) ==> f.requires((self,)),
        ensures
            self is Unset ==> r is None,
            !(self is Unset) ==> (r matches Some(u) && f.ensures((self,), u)),
    {
        match self {
            Color::Unset => Option::None,
            x => Some(f(x)),
        }
    }

    /// `Unset` if this color is `Unset`, otherwise `other`.
    pub fn and(self, other: Color) -> (r: Color)
        ensures
            r == (if self is Unset { Color::Unset } else { other }),
    {
        match self {
            Color::Unset => Color::Unset,
            _ => other,
        }
    }

    /// Applies `f` to a color that is not `Unset`.
    pub fn and_then<U, F: FnOnce(Color) -> U>(self, f: F) -> (r: Option<U>)
        requires
            !(self is Unset) ==> f.requires((self,)),
        ensures
            self is Unset ==> r is None,
            !(self is Unset) ==> (r matches Some(u) && f.ensures((self,), u)),
    {
        match self {
            Color::Unset => Option::None,
            some => Some(f(some)),
        }
    }

    /// This color if it is not `Unset`, otherwise `other`.
    pub fn or(self, other: Color) -> (r: Color)
        ensures
            r == (if self is Unset { other } else { self }),
    {
        match self {
            Color::Unset => other,
            some => some,
        }
    }

    /// This color if it is not `Unset`, otherwise the result of `f`.
    pub fn or_else<F: FnOnce() -> Color>(self, f: F) -> (r: Color)
        requires
            self is Unset ==> f.requires(()),
        ensures
            !(self is Unset) ==> r == self,
            self is Unset ==> f.ensures((), r),
    {
        match self {
            Color::Unset => f(),
            some => some,
        }
    }

    /// This color if it is not `Unset`, otherwise `Reset`.
    pub fn or_reset(self) -> (r: Color)
        ensures
            r == (if self is Unset { Color::Reset } else { self }),
    {
        match self {
            Color::Unset => Color::Reset,
            some => some,
        }
    }

    /// This color (a `Unset` stays `Unset`).
    pub fn or_none(self) -> (r: Color)
        ensures
            r == self,
    {
        match self {
            Color::Unset => Color::Unset,
            some => some,
        }
    }

    /// The same as `self ^ rhs`.
    pub fn xor(self, rhs: Color) -> (r: Color)
        ensures
            r == color_xor(self, rhs),
    {
        self.bitxor_color(rhs)
    }

    /// The color space of a palette or RGB color; `Unset` for every other color.
    pub fn color_space(&self) -> (r: Option<ColorSpace>)
        ensures
            r == (match *self {
                Color::Index(_) => Some(ColorSpace::Ansi),
                Color::Rgb(_, _, _) => Some(ColorSpace::Rgb),
                _ => Option::<ColorSpace>::None,
            }),
    {
        match self {
            Color::Reset | Color::Unset => Option::None,
            Color::Index(_) => Some(ColorSpace::Ansi),
            Color::Rgb(_, _, _) => Some(ColorSpace::Rgb),
            _ => Option::None,
        }
    }

    /// The color with ANSI code `value`.
    pub fn from_u8(value: u8) -> (c: Color)
        ensures
            c == color_of_u8(value),
    {
        match value {
            0 => Color::Black,
            1 => Color::Red,
            2 => Color::Green,
            3 => Color::Yellow,
            4 => Color::Blue,
            5 => Color::Magenta,
            6 => Color::Cyan,
            7 => Color::White,
            8 => Color::BrightBlack,
            9 => Color::BrightRed,
            10 => Color::BrightGreen,
            11 => Color::BrightYellow,
            12 => Color::BrightBlue,
            13 => Color::BrightMagenta,
            14 => Color::BrightCyan,
            15 => Color::BrightWhite,
            _ => Color::Index(value),
        }
    }

    /// The RGB color `0xRRGGBB` (higher bits are ignored).
    pub fn from_u32(value: u32) -> (c: Color)
        ensures
            c == Color::Rgb(((value >> 16) & 0xFF) as u8, ((value >> 8) & 0xFF) as u8, (value & 0xFF) as u8),
    {
        Color::Rgb(((value >> 16) & 0xFF) as u8, ((value >> 8) & 0xFF) as u8, (value & 0xFF) as u8)
    }

    /// The RGB color with the given components.
    pub fn from_rgb(value: (u8, u8, u8)) -> (c: Color)
        ensures
            c == Color::Rgb(value.0, value.1, value.2),
    {
        Color::Rgb(value.0, value.1, value.2)
    }

    /// `self & rhs`.
    pub fn bitand_color(self, rhs: Color) -> (r: Color)
        ensures
            r == color_and(self, rhs),
    {
        match (self, rhs) {
            (Color::Unset, _) | (_, Color::Unset) => Color::Unset,
            (Color::Reset, Color::Reset) => Color::Reset,
            (Color::Reset, _) | (_, Color::Reset) => Color::Unset,
            (a, b) => if a == b { a } else { Color::Unset },
        }
    }

    /// `self | rhs`.
    pub fn bitor_color(self, rhs: Color) -> (r: Color)
        ensures
            r == color_or(self, rhs),
    {
        match (self, rhs) {
            (Color::Unset, x) | (x, Color::Unset) => x,
            (Color::Reset, x) | (x, Color::Reset) => x,
            (x, _) => x,
        }
    }

    /// `self ^ rhs`.
    pub fn bitxor_color(self, rhs: Color) -> (r: Color)
        ensures
            r == color_xor(self, rhs),
    {
        match (self, rhs) {
            (Color::Unset, x) | (x, Color::Unset) => x,
            (Color::Reset, Color::Reset) => Color::Unset,
            (Color::Reset, x) | (x, Color::Reset) => x,
            _ => Color::Unset,
        }
    }

    /// `!self`.
    pub fn not_color(self) -> (r: Color)
        ensures
            r == color_not(self),
    {
        match self {
            Color::Unset => Color::Reset,
            Color::Reset => Color::Unset,
            _ => Color::Reset,
        }
    }

    /// `self - rhs`, that is `self & !rhs`.
    pub fn sub_color(self, rhs: Color) -> (r: Color)
        ensures
            r == color_and(self, color_not(rhs)),
    {
        self.bitand_color(rhs.not_color())
    }

    /// This color as a background color.
    pub fn as_background(self) -> (b: Background)
        ensures
            b.0 == self,
    {
        Background(self)
    }

    /// This color as a foreground color.
    pub fn as_foreground(self) -> (f: Foreground)
        ensures
            f.0 == self,
    {
        Foreground(self)
    }

    /// This color as an underline color.
    pub fn as_underline(self) -> (u: Underline)
        ensures
            u.0 == self,
    {
        Underline(self)
    }
}

/// A color in the background role.
#[derive(Clone, Copy, PartialEq, Eq, Structural, Debug)]
pub struct Background(pub Color);

/// A color in the foreground role.
#[derive(Clone, Copy, PartialEq, Eq, Structural, Debug)]
pub struct Foreground(pub Color);

/// A color in the underline role.
#[derive(Clone, Copy, PartialEq, Eq, Structural, Debug)]
pub struct Underline(pub Color);

impl Background {
    /// The color.
    pub fn as_color(&self) -> (c: Color)
        ensures
            c == self.0,
    {
        self.0
    }

    /// The same color as a foreground color.
    pub fn as_foreground(self) -> (f: Foreground)
        ensures
            f.0 == self.0,
    {
        Foreground(self.0)
    }

    /// The same color as an underline color.
    pub fn as_underline(self) -> (u: Underline)
        ensures
            u.0 == self.0,
    {
        Underline(self.0)
    }
}

impl Foreground {
    /// The color.
    pub fn as_color(&self) -> (c: Color)
        ensures
            c == self.0,
    {
        self.0
    }

    /// The same color as a background color.
    pub fn as_background(self) -> (b: Background)
        ensures
            b.0 == self.0,
    {
        Background(self.0)
    }

    /// The same color as an underline color.
    pub fn as_underline(self) -> (u: Underline)
        ensures
            u.0 == self.0,
    {
        Underline(self.0)
    }
}

impl Underline {
    /// The color.
    pub fn as_color(&self) -> (c: Color)
        ensures
            c == self.0,
    {
        self.0
    }

    /// The same color as a background color.
    pub fn as_background(self) -> (b: Background)
        ensures
            b.0 == self.0,
    {
        Background(self.0)
    }

    /// The same color as a foreground color.
    pub fn as_foreground(self) -> (f: Foreground)
        ensures
            f.0 == self.0,
    {
        Foreground(self.0)
    }
}

impl Escape for Foreground {
    open spec fn escaped(&self) -> Seq<u8> {
        foreground_sgr(self.0)
    }

    fn escape(&self, out: &mut Vec<u8>) {
        match self.0 {
            Color::Black => push_all(out, &vec![51u8, 48u8]),
            Color::Red => push_all(out, &vec![51u8, 49u8]),
            Color::Green => push_all(out, &vec![51u8, 50u8]),
            Color::Yellow => push_all(out, &vec![51u8, 51u8]),
            Color::Blue => push_all(out, &vec![51u8, 52u8]),
            Color::Magenta => push_all(out, &vec![51u8, 53u8]),
            Color::Cyan => push_all(out, &vec![51u8, 54u8]),
            Color::White => push_all(out, &vec![51u8, 55u8]),
            Color::BrightBlack => push_all(out, &vec![57u8, 48u8]),
            Color::BrightRed => push_all(out, &vec![57u8, 49u8]),
            Color::BrightGreen => push_all(out, &vec![57u8, 50u8]),
            Color::BrightYellow => push_all(out, &vec![57u8, 51u8]),
            Color::BrightBlue => push_all(out, &vec![57u8, 52u8]),
            Color::BrightMagenta => push_all(out, &vec![57u8, 53u8]),
            Color::BrightCyan => push_all(out, &vec![57u8, 54u8]),
            Color::BrightWhite => push_all(out, &vec![57u8, 55u8]),
            Color::Index(i) => push_prefixed(out, vec![51u8, 56u8, 59u8, 53u8, 59u8], i),
            Color::Rgb(r, g, b) => push_rgb(out, vec![51u8, 56u8, 59u8, 50u8, 59u8], r, g, b),
            Color::Reset => push_all(out, &vec![51u8, 57u8]),
            Color::Unset => {
                assert(old(out)@ + Seq::<u8>::empty() =~= old(out)@);
            },
        }
        proof {
            if let Color::Index(i) = self.0 {
                assert(old(out)@ + seq![51u8, 56u8, 59u8, 53u8, 59u8] + decimal(i as nat) =~= old(out)@ + (seq![51u8, 56u8, 59u8, 53u8, 59u8] + decimal(i as nat)));
            }
            if let Color::Rgb(r, g, b) = self.0 {
                assert(old(out)@ + seq![51u8, 56u8, 59u8, 50u8, 59u8] + decimal(r as nat) + seq![59u8] + decimal(g as nat) + seq![59u8] + decimal(b as nat)
                    =~= old(out)@ + (seq![51u8, 56u8, 59u8, 50u8, 59u8] + decimal(r as nat) + seq![59u8] + decimal(g as nat) + seq![59u8] + decimal(b as nat)));
            }
        }
    }
}

impl Escape for Background {
    open spec fn escaped(&self) -> Seq<u8> {
        background_sgr(self.0)
    }

    fn escape(&self, out: &mut Vec<u8>) {
        match self.0 {
            Color::Black => push_all(out, &vec![52u8, 48u8]),
            Color::Red => push_all(out, &vec![52u8, 49u8]),
            Color::Green => push_all(out, &vec![52u8, 50u8]),
            Color::Yellow => push_all(out, &vec![52u8, 51u8]),
            Color::Blue => push_all(out, &vec![52u8, 52u8]),
            Color::Magenta => push_all(out, &vec![52u8, 53u8]),
            Color::Cyan => push_all(out, &vec![52u8, 54u8]),
            Color::White => push_all(out, &vec![52u8, 55u8]),
            Color::BrightBlack => push_all(out, &vec![57u8, 48u8]),
            Color::BrightRed => push_all(out, &vec![57u8, 49u8]),
            Color::BrightGreen => push_all(out, &vec![57u8, 50u8]),
            Color::BrightYellow => push_all(out, &vec![57u8, 51u8]),
            Color::BrightBlue => push_all(out, &vec![57u8, 52u8]),
            Color::BrightMagenta => push_all(out, &vec![57u8, 53u8]),
            Color::BrightCyan => push_all(out, &vec![57u8, 54u8]),
            Color::BrightWhite => push_all(out, &vec![57u8, 55u8]),
            Color::Index(i) => push_prefixed(out, vec![51u8, 56u8, 59u8, 53u8, 59u8], i),
            Color::Rgb(r, g, b) => push_rgb(out, vec![51u8, 56u8, 59u8, 50u8, 59u8], r, g, b),
            Color::Reset => push_all(out, &vec![52u8, 57u8]),
            Color::Unset => {
                assert(old(out)@ + Seq::<u8>::empty() =~= old(out)@);
            },
        }
        proof {
            if let Color::Index(i) = self.0 {
                assert(old(out)@ + seq![51u8, 56u8, 59u8, 53u8, 59u8] + decimal(i as nat) =~= old(out)@ + (seq![51u8, 56u8, 59u8, 53u8, 59u8] + decimal(i as nat)));
            }
            if let Color::Rgb(r, g, b) = self.0 {
                assert(old(out)@ + seq![51u8, 56u8, 59u8, 50u8, 59u8] + decimal(r as nat) + seq![59u8] + decimal(g as nat) + seq![59u8] + decimal(b as nat)
                    =~= old(out)@ + (seq![51u8, 56u8, 59u8, 50u8, 59u8] + decimal(r as nat) + seq![59u8] + decimal(g as nat) + seq![59u8] + decimal(b as nat)));
            }
        }
    }
}

impl Escape for Underline {
    open spec fn escaped(&self) -> Seq<u8> {
        underline_sgr(self.0)
    }

    fn escape(&self, out: &mut Vec<u8>) {
        match self.0 {
            Color::Black => push_all(out, &vec![53u8, 56u8, 59u8, 53u8, 59u8, 48u8]),
            Color::Red => push_all(out, &vec![53u8, 56u8, 59u8, 53u8, 59u8, 49u8]),
            Color::Green => push_all(out, &vec![53u8, 56u8, 59u8, 53u8, 59u8, 50u8]),
            Color::Yellow => push_all(out, &vec![53u8, 56u8, 59u8, 53u8, 59u8, 51u8]),
            Color::Blue => push_all(out, &vec![53u8, 56u8, 59u8, 53u8, 59u8, 52u8]),
            Color::Magenta => push_all(out, &vec![53u8, 56u8, 59u8, 53u8, 59u8, 53u8]),
            Color::Cyan => push_all(out, &vec![53u8, 56u8, 59u8, 53u8, 59u8, 54u8]),
            Color::White => push_all(out, &vec![53u8, 56u8, 59u8, 53u8, 59u8, 55u8]),
            Color::BrightBlack => push_all(out, &vec![53u8, 56u8, 59u8, 53u8, 59u8, 56u8]),
            Color::BrightRed => push_all(out, &vec![53u8, 56u8, 59u8, 53u8, 59u8, 57u8]),
            Color::BrightGreen => push_all(out, &vec![53u8, 56u8, 59u8, 53u8, 59u8, 49u8, 48u8]),
            Color::BrightYellow => push_all(out, &vec![53u8, 56u8, 59u8, 53u8, 59u8, 49u8, 49u8]),
            Color::BrightBlue => push_all(out, &vec![53u8, 56u8, 59u8, 53u8, 59u8, 49u8, 50u8]),
            Color::BrightMagenta => push_all(out, &vec![53u8, 56u8, 59u8, 53u8, 59u8, 49u8, 51u8]),
            Color::BrightCyan => push_all(out, &vec![53u8, 56u8, 59u8, 53u8, 59u8, 49u8, 52u8]),
            Color::BrightWhite => push_all(out, &vec![53u8, 56u8, 59u8, 53u8, 59u8, 49u8, 53u8]),
            Color::Index(i) => push_prefixed(out, vec![53u8, 56u8, 59u8, 53u8, 59u8], i),
            Color::Rgb(r, g, b) => push_rgb(out, vec![53u8, 56u8, 59u8, 50u8, 59u8], r, g, b),
            Color::Reset => push_all(out, &vec![53u8, 57u8]),
            Color::Unset => {
                assert(old(out)@ + Seq::<u8>::empty() =~= old(out)@);
            },
        }
        proof {
            if let Color::Index(i) = self.0 {
                assert(old(out)@ + seq![53u8, 56u8, 59u8, 53u8, 59u8] + decimal(i as nat) =~= old(out)@ + (seq![53u8, 56u8, 59u8, 53u8, 59u8] + decimal(i as nat)));
            }
            if let Color::Rgb(r, g, b) = self.0 {
                assert(old(out)@ + seq![53u8, 56u8, 59u8, 50u8, 59u8] + decimal(r as nat) + seq![59u8] + decimal(g as nat) + seq![59u8] + decimal(b as nat)
                    =~= old(out)@ + (seq![53u8, 56u8, 59u8, 50u8, 59u8] + decimal(r as nat) + seq![59u8] + decimal(g as nat) + seq![59u8] + decimal(b as nat)));
            }
        }
    }
}

impl core::ops::BitAnd for Color {
    type Output = Color;

    fn bitand(self, rhs: Color) -> (r: Color) {
        self.bitand_color(rhs)
    }
}

impl vstd::std_specs::ops::BitAndSpecImpl for Color {
    open spec fn obeys_bitand_spec() -> bool {
        true
    }

    open spec fn bitand_req(self, rhs: Color) -> bool {
        true
    }

    open spec fn bitand_spec(self, rhs: Color) -> Color {
        color_and(self, rhs)
    }
}

impl core::ops::BitOr for Color {
    type Output = Color;

    fn bitor(self, rhs: Color) -> (r: Color) {
        self.bitor_color(rhs)
    }
}

impl vstd::std_specs::ops::BitOrSpecImpl for Color {
    open spec fn obeys_bitor_spec() -> bool {
        true
    }

    open spec fn bitor_req(self, rhs: Color) -> bool {
        true
    }

    open spec fn bitor_spec(self, rhs: Color) -> Color {
        color_or(self, rhs)
    }
}

impl core::ops::BitXor for Color {
    type Output = Color;

    fn bitxor(self, rhs: Color) -> (r: Color) {
        self.bitxor_color(rhs)
    }
}

impl vstd::std_specs::ops::BitXorSpecImpl for Color {
    open spec fn obeys_bitxor_spec() -> bool {
        true
    }

    open spec fn bitxor_req(self, rhs: Color) -> bool {
        true
    }

    open spec fn bitxor_spec(self, rhs: Color) -> Color {
        color_xor(self, rhs)
    }
}

impl core::ops::Sub for Color {
    type Output = Color;

    fn sub(self, rhs: Color) -> (r: Color) {
        self.sub_color(rhs)
    }
}

impl vstd::std_specs::ops::SubSpecImpl for Color {
    open spec fn obeys_sub_spec() -> bool {
        true
    }

    open spec fn sub_req(self, rhs: Color) -> bool {
        true
    }

    open spec fn sub_spec(self, rhs: Color) -> Color {
        color_and(self, color_not(rhs))
    }
}

impl core::ops::Not for Color {
    type Output = Color;

    fn not(self) -> (r: Color) {
        self.not_color()
    }
}

impl vstd::std_specs::ops::NotSpecImpl for Color {
    open spec fn obeys_not_spec() -> bool {
        true
    }

    open spec fn not_req(self) -> bool {
        true
    }

    open spec fn not_spec(self) -> Color {
        color_not(self)
    }
}

/// The SGR codes of the palette colors follow their ANSI numbers `n`
/// (`Color::from_u8(n)`): the foreground of the eight basic colors is
/// `30 + n` and of the bright ones `90 + (n - 8)`; the background of the
/// basic colors is `40 + n` (the bright ones share `90 + (n - 8)`); an
/// index from 16 up is `38;5;n`; the underline color of any `n` is
/// `58;5;n`.
pub proof fn lemma_color_codes_follow_ansi_numbers(n: u8)
    ensures
        n < 8 ==> Foreground(color_of_u8(n)).escaped() == decimal((30 + n) as nat),
        8 <= n < 16 ==> Foreground(color_of_u8(n)).escaped() == decimal((90 + n - 8) as nat),
        n >= 16 ==> Foreground(color_of_u8(n)).escaped() == seq![51u8, 56u8, 59u8, 53u8, 59u8] + decimal(n as nat),
        n < 8 ==> Background(color_of_u8(n)).escaped() == decimal((40 + n) as nat),
        8 <= n < 16 ==> Background(color_of_u8(n)).escaped() == decimal((90 + n - 8) as nat),
        Underline(color_of_u8(n)).escaped() == seq![53u8, 56u8, 59u8, 53u8, 59u8] + decimal(n as nat),
{
    reveal_with_fuel(decimal, 3);
    if n < 16 {
        assert(decimal(n as nat) == if n < 10 { seq![(48 + n) as u8] } else { seq![49u8, (48 + n - 10) as u8] });
    }
}

/// Distinct palette colors set distinct foregrounds, and distinct basic
/// colors distinct backgrounds.
pub proof fn lemma_color_codes_distinct(a: u8, b: u8)
    requires
        a != b,
    ensures
        a < 16 && b < 16 ==> Foreground(color_of_u8(a)).escaped() != Foreground(color_of_u8(b)).escaped(),
        a < 8 && b < 8 ==> Background(color_of_u8(a)).escaped() != Background(color_of_u8(b)).escaped(),
{
    lemma_color_codes_follow_ansi_numbers(a);
    lemma_color_codes_follow_ansi_numbers(b);
    reveal_with_fuel(decimal, 3);
    if a < 16 && b < 16 {
        let x = Foreground(color_of_u8(a)).escaped();
        let y = Foreground(color_of_u8(b)).escaped();
        assert(x.len() == 2 && y.len() == 2);
        if x == y {
            assert(x[0] == y[0] && x[1] == y[1]);
        }
    }
    if a < 8 && b < 8 {
        let x = Background(color_of_u8(a)).escaped();
        let y = Background(color_of_u8(b)).escaped();
        if x == y {
            assert(x[1] == y[1]);
        }
    }
}

} // verus!
