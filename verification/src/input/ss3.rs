//! Single shift three (SS3) key sequences.
use vstd::prelude::*;
use vstd::slice::slice_subrange;
use vstd::slice::slice_to_vec;
use super::keys::Key;
use super::decode::{
    Decoder, Event, EventView, ESC, ascii_lower, press_mod, press_mod_spec, result_view,
    st_data_start,
};
use super::osc::{digits_value, first_non_digit, lemma_first_non_digit};

verus! {

/// The 8-bit single shift three introducer.
pub const SS3: u8 = 0x8f;

/// The cursor key of a direction number: up, down, right, left.
pub open spec fn arrow(n: u8) -> Key {
    if n == 0 {
        Key::Up
    } else if n == 1 {
        Key::Down
    } else if n == 2 {
        Key::Right
    } else {
        Key::Left
    }
}

/// The modifier bits of an xterm modifier parameter less one: its bits 1,
/// 2, 4 and 8 are Shift, Alt, Ctrl and Meta.
pub open spec fn xterm_mod_spec(m: int) -> u16 {
    let x = m % 16;
    ((if x % 2 == 1 { 1int } else { 0 }) + (if (x / 2) % 2 == 1 { 4int } else { 0 }) + (if (x / 4)
        % 2 == 1 { 2int } else { 0 }) + (if x / 8 == 1 { 32int } else { 0 })) as u16
}

/// The key of an SS3 final byte, and the modifiers that come with it.
pub open spec fn ss3_key(gl: u8) -> Option<(Key, u16)> {
    if 0x61 <= gl <= 0x64 {
        Some((arrow((gl - 0x61) as u8), 2))
    } else if 0x41 <= gl <= 0x44 {
        Some((arrow((gl - 0x41) as u8), 0))
    } else if gl == 0x45 {
        Some((Key::Begin, 0))
    } else if gl == 0x46 {
        Some((Key::End, 0))
    } else if gl == 0x48 {
        Some((Key::Home, 0))
    } else if 0x50 <= gl <= 0x53 {
        Some((Key::F((1 + gl - 0x50) as u8), 0))
    } else if gl == 0x4d {
        Some((Key::KpEnter, 0))
    } else if gl == 0x58 {
        Some((Key::KpEqual, 0))
    } else if gl == 0x6a {
        Some((Key::KpMultiply, 0))
    } else if gl == 0x6b {
        Some((Key::KpPlus, 0))
    } else if gl == 0x6c {
        Some((Key::KpComma, 0))
    } else if gl == 0x6d {
        Some((Key::KpMinus, 0))
    } else if gl == 0x6e {
        Some((Key::KpDecimal, 0))
    } else if gl == 0x6f {
        Some((Key::KpDivide, 0))
    } else if 0x70 <= gl <= 0x79 {
        Some((Key::Kp((gl - 0x70) as u8), 0))
    } else {
        None
    }
}

/// An SS3 sequence read from the start of `b`: an optional modifier number
/// and a graphic final byte (0x21 to 0x7E) naming the key. ESC `O` alone is
/// Shift+Alt+o.
pub open spec fn ss3_spec(b: Seq<u8>) -> (int, Option<EventView>) {
    if b.len() == 2 && b[0] == ESC {
        (2, Some(EventView::Key(press_mod_spec(Key::Char(ascii_lower(b[1]) as char), 5))))
    } else {
        let i0 = st_data_start(0x4f, b);
        let d = first_non_digit(b, i0);
        let m = digits_value(b, i0, d);
        if d >= b.len() || !(0x21 <= b[d] <= 0x7e) {
            (d, Some(EventView::Unknown(b.take(d))))
        } else {
            let i = d + 1;
            match ss3_key(b[d]) {
                None => (i, Some(EventView::Unknown(b.take(i)))),
                Some((key, meta)) => (i, Some(EventView::Key(press_mod_spec(
                    key,
                    if m > 0 { meta | xterm_mod_spec(m - 1) } else { meta },
                )))),
            }
        }
    }
}

pub(crate) fn arrow_exec(n: u8) -> (k: Key)
    ensures
        k == arrow(n),
{
    if n == 0 {
        Key::Up
    } else if n == 1 {
        Key::Down
    } else if n == 2 {
        Key::Right
    } else {
        Key::Left
    }
}

pub(crate) fn xterm_mod(x: u8) -> (r: u16)
    requires
        x < 16,
    ensures
        r == xterm_mod_spec(x as int),
{
    let mut r: u16 = 0;
    if x % 2 == 1 {
        r = r + 1;
    }
    if (x / 2) % 2 == 1 {
        r = r + 4;
    }
    if (x / 4) % 2 == 1 {
        r = r + 2;
    }
    if x / 8 == 1 {
        r = r + 32;
    }
    r
}

fn ss3_key_exec(gl: u8) -> (r: Option<(Key, u16)>)
    ensures
        r == ss3_key(gl),
{
    if 0x61 <= gl && gl <= 0x64 {
        Some((arrow_exec(gl - 0x61), 2))
    } else if 0x41 <= gl && gl <= 0x44 {
        Some((arrow_exec(gl - 0x41), 0))
    } else if gl == 0x45 {
        Some((Key::Begin, 0))
    } else if gl == 0x46 {
        Some((Key::End, 0))
    } else if gl == 0x48 {
        Some((Key::Home, 0))
    } else if 0x50 <= gl && gl <= 0x53 {
        Some((Key::F(1 + gl - 0x50), 0))
    } else if gl == 0x4d {
        Some((Key::KpEnter, 0))
    } else if gl == 0x58 {
        Some((Key::KpEqual, 0))
    } else if gl == 0x6a {
        Some((Key::KpMultiply, 0))
    } else if gl == 0x6b {
        Some((Key::KpPlus, 0))
    } else if gl == 0x6c {
        Some((Key::KpComma, 0))
    } else if gl == 0x6d {
        Some((Key::KpMinus, 0))
    } else if gl == 0x6e {
        Some((Key::KpDecimal, 0))
    } else if gl == 0x6f {
        Some((Key::KpDivide, 0))
    } else if 0x70 <= gl && gl <= 0x79 {
        Some((Key::Kp(gl - 0x70), 0))
    } else {
        None
    }
}

impl Decoder {
    /// Reads an SS3 key sequence from the start of `b`, which starts with
    /// SS3 or ESC: cursor, keypad and function keys, with an optional
    /// modifier number before the final byte.
    pub fn parse_ss3(&mut self, b: &[u8]) -> (r: (usize, Option<Event>))
        requires
            b@.len() > 0,
            b@[0] == SS3 || b@[0] == ESC,
        ensures
            result_view(r) == ss3_spec(b@),
            1 <= r.0,
            r.1 is Some,
            r.0 <= b@.len(),
            *final(self) == *old(self),
    {
        if b.len() == 2 && b[0] == ESC {
            let c = if 0x41 <= b[1] && b[1] <= 0x5a { b[1] + 0x20 } else { b[1] };
            return (2, Some(Event::Key(press_mod(Key::Char(c as char), 5))));
        }
        let mut i: usize = 1;
        if i < b.len() && b[0] == ESC && b[1] == 0x4f {
            i = 2;
        }
        let i0 = i;
        proof { lemma_first_non_digit(b@, i0 as int); }
        // The modifier number is read modulo 16, which is all its bits
        // that count, and whether it is positive.
        let mut low: u8 = 0;
        let mut positive = false;
        while i < b.len() && 0x30 <= b[i] && b[i] <= 0x39
            invariant
                i0 <= i <= b@.len(),
                first_non_digit(b@, i0 as int) == first_non_digit(b@, i as int),
                low < 16,
                low as int == digits_value(b@, i0 as int, i as int) % 16,
                positive == (digits_value(b@, i0 as int, i as int) > 0),
                digits_value(b@, i0 as int, i as int) >= 0,
            decreases b@.len() - i,
        {
            let dg = b[i] - 0x30;
            let ghost v = digits_value(b@, i0 as int, i as int);
            proof {
                assert(digits_value(b@, i0 as int, i + 1) == v * 10 + dg);
                assert((v * 10 + dg) % 16 == ((v % 16) * 10 + dg) % 16) by (nonlinear_arith)
                    requires v >= 0, dg >= 0;
            }
            low = ((low as u16 * 10 + dg as u16) % 16) as u8;
            positive = positive || dg > 0;
            i = i + 1;
        }
        if i >= b.len() || !(0x21 <= b[i] && b[i] <= 0x7e) {
            let v = slice_to_vec(slice_subrange(b, 0, i));
            proof { assert(v@ =~= b@.take(i as int)); }
            return (i, Some(Event::Unknown(v)));
        }
        let gl = b[i];
        i = i + 1;
        match ss3_key_exec(gl) {
            None => {
                let v = slice_to_vec(slice_subrange(b, 0, i));
                proof { assert(v@ =~= b@.take(i as int)); }
                (i, Some(Event::Unknown(v)))
            },
            Some((key, meta)) => {
                let bits = if positive {
                    let x: u8 = if low == 0 { 15 } else { low - 1 };
                    proof {
                        let m = digits_value(b@, i0 as int, (i - 1) as int);
                        assert((m - 1) % 16 == x as int) by (nonlinear_arith)
                            requires m > 0, low as int == m % 16, x as int == (if low == 0 { 15int } else { low - 1 });
                    }
                    meta | xterm_mod(x)
                } else {
                    meta
                };
                (i, Some(Event::Key(press_mod(key, bits))))
            },
        }
    }
}

/// `SS3 X` read from a three-byte input `ESC O X`, for a graphic byte `X`.
proof fn lemma_ss3_final_only(x: u8)
    requires
        0x21 <= x <= 0x7e,
        !(0x30 <= x <= 0x39),
    ensures
        ss3_spec(seq![ESC, 0x4fu8, x]) == (3int, Some(
            match ss3_key(x) {
                None => EventView::Unknown(seq![ESC, 0x4fu8, x]),
                Some((key, meta)) => EventView::Key(press_mod_spec(key, meta)),
            },
        )),
{
    let b = seq![ESC, 0x4fu8, x];
    assert(first_non_digit(b, 2) == 2);
    assert(digits_value(b, 2, 2) == 0);
    assert(b.take(3) =~= b);
}

/// The SS3 keys: `ESC O A` to `ESC O D` are Up, Down, Right and Left (with
/// Ctrl for `a` to `d`), `H` Home, `F` End, `E` Begin, `P` to `S` F1 to F4,
/// `M` keypad Enter, and `p` to `y` the keypad digits 0 to 9.
pub proof fn lemma_ss3_keys(x: u8)
    requires
        0x70 <= x <= 0x79,
    ensures
        ss3_spec(seq![ESC, 0x4fu8, 0x41u8]) == (3int, Some(EventView::Key(press_mod_spec(Key::Up, 0)))),
        ss3_spec(seq![ESC, 0x4fu8, 0x42u8]) == (3int, Some(EventView::Key(press_mod_spec(Key::Down, 0)))),
        ss3_spec(seq![ESC, 0x4fu8, 0x43u8]) == (3int, Some(EventView::Key(press_mod_spec(Key::Right, 0)))),
        ss3_spec(seq![ESC, 0x4fu8, 0x44u8]) == (3int, Some(EventView::Key(press_mod_spec(Key::Left, 0)))),
        ss3_spec(seq![ESC, 0x4fu8, 0x48u8]) == (3int, Some(EventView::Key(press_mod_spec(Key::Home, 0)))),
        ss3_spec(seq![ESC, 0x4fu8, 0x46u8]) == (3int, Some(EventView::Key(press_mod_spec(Key::End, 0)))),
        ss3_spec(seq![ESC, 0x4fu8, 0x45u8]) == (3int, Some(EventView::Key(press_mod_spec(Key::Begin, 0)))),
        ss3_spec(seq![ESC, 0x4fu8, 0x50u8]) == (3int, Some(EventView::Key(press_mod_spec(Key::F(1), 0)))),
        ss3_spec(seq![ESC, 0x4fu8, 0x51u8]) == (3int, Some(EventView::Key(press_mod_spec(Key::F(2), 0)))),
        ss3_spec(seq![ESC, 0x4fu8, 0x52u8]) == (3int, Some(EventView::Key(press_mod_spec(Key::F(3), 0)))),
        ss3_spec(seq![ESC, 0x4fu8, 0x53u8]) == (3int, Some(EventView::Key(press_mod_spec(Key::F(4), 0)))),
        ss3_spec(seq![ESC, 0x4fu8, 0x4du8]) == (3int, Some(EventView::Key(press_mod_spec(Key::KpEnter, 0)))),
        ss3_spec(seq![ESC, 0x4fu8, 0x61u8]) == (3int, Some(EventView::Key(press_mod_spec(Key::Up, 2)))),
        ss3_spec(seq![ESC, 0x4fu8, 0x62u8]) == (3int, Some(EventView::Key(press_mod_spec(Key::Down, 2)))),
        ss3_spec(seq![ESC, 0x4fu8, 0x63u8]) == (3int, Some(EventView::Key(press_mod_spec(Key::Right, 2)))),
        ss3_spec(seq![ESC, 0x4fu8, 0x64u8]) == (3int, Some(EventView::Key(press_mod_spec(Key::Left, 2)))),
        ss3_spec(seq![ESC, 0x4fu8, x]) == (3int, Some(EventView::Key(press_mod_spec(Key::Kp((x - 0x70) as u8), 0)))),
{
    lemma_ss3_final_only(0x41u8);
    lemma_ss3_final_only(0x42u8);
    lemma_ss3_final_only(0x43u8);
    lemma_ss3_final_only(0x44u8);
    lemma_ss3_final_only(0x48u8);
    lemma_ss3_final_only(0x46u8);
    lemma_ss3_final_only(0x45u8);
    lemma_ss3_final_only(0x50u8);
    lemma_ss3_final_only(0x51u8);
    lemma_ss3_final_only(0x52u8);
    lemma_ss3_final_only(0x53u8);
    lemma_ss3_final_only(0x4du8);
    lemma_ss3_final_only(0x61u8);
    lemma_ss3_final_only(0x62u8);
    lemma_ss3_final_only(0x63u8);
    lemma_ss3_final_only(0x64u8);
    lemma_ss3_final_only(x);
}

/// The xterm modifier parameter less one is a bit set: Shift 1, Alt 2,
/// Ctrl 4, Meta 8; each flag gives the same modifier in the library's bits
/// (Shift 1, Ctrl 2, Alt 4, Meta 32).
pub proof fn lemma_xterm_modifiers(shift: bool, alt: bool, ctrl: bool, meta: bool)
    ensures
        xterm_mod_spec((if shift { 1int } else { 0 }) + (if alt { 2int } else { 0 }) + (if ctrl { 4int } else { 0 })
            + (if meta { 8int } else { 0 }))
            == ((if shift { 1int } else { 0 }) + (if ctrl { 2int } else { 0 }) + (if alt { 4int } else { 0 })
            + (if meta { 32int } else { 0 })) as u16,
{
}

} // verus!
