//! Control sequences (CSI): key reports, terminal replies and mouse events.
use vstd::prelude::*;
use vstd::slice::slice_subrange;
use vstd::slice::slice_to_vec;
use crate::events::{ColorScheme, Meta};
use super::keys::{Key, KeyKind};
use super::decode::{
    Decoder, Event, EventView, KeyEvent, KeyEventView, Mode, Size, ESC, press_mod,
    press_mod_spec, result_view, sat_digit, sat_digit_exec, st_data_start,
};
use super::kitty::{Param, value_or, kitty_keyboard_spec, parse_kitty_keyboard};
use super::mouse::{Point, param_or, sgr_mouse_spec, x10_mouse_spec, parse_sgr_mouse, parse_x10_mouse};
use super::csi_keys::{
    csi_func_key, csi_func_key_spec, kitty_ext_spec, modify_other_keys_spec,
    parse_kitty_keyboard_ext, parse_xterm_modify_other_keys, xterm_mod_of,
};
use super::ss3::xterm_mod_spec;
use super::controls::{FLAG_FIND, FLAG_SELECT};

verus! {

/// The 8-bit control sequence introducer.
pub const CSI: u8 = 0x9b;

/// The most parameters a control sequence keeps.
pub const MAX_PARAMS: usize = 32;

/// A parameter that was left out.
pub open spec fn missing_param() -> Param {
    Param { value: 0, missing: true, has_more: false }
}

/// The parameters of a control sequence read so far: those finished, and
/// the one being read.
pub ghost struct CsiScan {
    pub done: Seq<Param>,
    pub cur: Param,
}

/// One parameter byte: a digit adds to the current value (saturating), `:`
/// or `;` finishes the parameter (`:` marks a sub-parameter after it), a
/// private marker changes nothing.
pub open spec fn csi_scan_step(st: CsiScan, x: u8) -> CsiScan {
    if 0x30 <= x <= 0x39 {
        CsiScan { cur: Param { value: sat_digit(st.cur.value, (x - 0x30) as u8), missing: false, has_more: st.cur.has_more }, ..st }
    } else if x == 0x3a || x == 0x3b {
        CsiScan { done: st.done.push(Param { has_more: x == 0x3a, ..st.cur }), cur: missing_param() }
    } else {
        st
    }
}

/// Scans parameter bytes (0x30 to 0x3F) from `k` while fewer than
/// `MAX_PARAMS` parameters are finished: where the scan stops and what it
/// read.
pub open spec fn csi_scan_from(b: Seq<u8>, k: int, st: CsiScan) -> (int, CsiScan)
    decreases b.len() - k,
{
    if 0 <= k < b.len() && st.done.len() < 32 && 0x30 <= b[k] <= 0x3f {
        csi_scan_from(b, k + 1, csi_scan_step(st, b[k]))
    } else {
        (k, st)
    }
}

/// The first index from `k` that does not hold an intermediate byte (0x20
/// to 0x2F), or the length.
pub open spec fn first_non_intermediate(b: Seq<u8>, k: int) -> int
    decreases b.len() - k,
{
    if k < 0 || k >= b.len() {
        b.len() as int
    } else if !(0x20 <= b[k] <= 0x2f) {
        k
    } else {
        first_non_intermediate(b, k + 1)
    }
}

/// The frame of a control sequence: its private marker (0 for none), its
/// parameters, its last intermediate byte (0 for none), and where its final
/// byte should stand.
pub open spec fn csi_frame(b: Seq<u8>) -> (u8, Seq<Param>, u8, int) {
    let i0 = st_data_start(0x5b, b);
    let prefix = if i0 < b.len() && 0x3c <= b[i0] <= 0x3f { b[i0] } else { 0u8 };
    let (p, st) = csi_scan_from(b, i0, CsiScan { done: Seq::empty(), cur: missing_param() });
    let pa = if p > i0 && st.done.len() < 32 { st.done.push(st.cur) } else { st.done };
    let q = first_non_intermediate(b, p);
    let intermed = if q > p { b[q - 1] } else { 0u8 };
    (prefix, pa, intermed, q)
}

/// Parameter `i` (with `default` when it was left out), or `None` when
/// there are not that many.
pub open spec fn param_opt(pa: Seq<Param>, i: int, default: int) -> Option<int> {
    if 0 <= i < pa.len() { Some(value_or(pa[i], default)) } else { None }
}

/// The whole parameters (those not followed by a sub-parameter), left out
/// ones as 0: the device attributes.
pub open spec fn device_attrs(pa: Seq<Param>) -> Seq<u16>
    decreases pa.len(),
{
    if pa.len() == 0 {
        Seq::empty()
    } else {
        device_attrs(pa.drop_last()) + (if pa.last().has_more { Seq::empty() } else { seq![value_or(pa.last(), 0) as u16] })
    }
}

/// A mode report: the mode (the first parameter, which must be given) and
/// its setting (the second, which must be there).
pub open spec fn mode_report_spec(pa: Seq<Param>, dec: bool) -> Option<EventView> {
    if pa.len() < 2 || value_or(pa[0], -1) == -1 {
        None
    } else {
        let m = value_or(pa[0], -1) as u16;
        Some(EventView::ModeReport(if dec { Mode::Dec(m) } else { Mode::Ansi(m) }, value_or(pa[1], 0) as u16))
    }
}

/// `CSI row ; col R`: a cursor position, and on row 1 also F3 with the
/// column's modifiers, as the two cannot be told apart; with no parameter,
/// F3.
pub open spec fn cursor_or_f3_spec(pa: Seq<Param>) -> Option<EventView> {
    if pa.len() == 2 {
        let row = param_or(pa, 0, 1);
        let col = param_or(pa, 1, 1);
        let pos = Point { x: (col - 1) as i32, y: (row - 1) as i32 };
        if row == 1 && col - 1 <= 15 {
            Some(EventView::Multi(seq![
                Event::Key(KeyEvent { key: Key::F(3), kind: KeyKind::Press, meta: Meta { bits: xterm_mod_spec(col - 1) }, text: None, shifted_key: None, base_key: None }),
                Event::CursorPosition(pos),
            ]))
        } else {
            Some(EventView::CursorPosition(pos))
        }
    } else if pa.len() != 0 {
        None
    } else {
        csi_func_key_spec(0x52, pa)
    }
}

/// The key of `CSI number ~` (and the URxvt `^` and `@` forms).
pub open spec fn tilde_key(flags: u32, p: int) -> Option<Key> {
    if p == 1 {
        Some(if flags & FLAG_FIND != 0 { Key::Find } else { Key::Home })
    } else if p == 2 {
        Some(Key::Insert)
    } else if p == 3 {
        Some(Key::Delete)
    } else if p == 4 {
        Some(if flags & FLAG_SELECT != 0 { Key::Select } else { Key::End })
    } else if p == 5 {
        Some(Key::PageUp)
    } else if p == 6 {
        Some(Key::PageDown)
    } else if p == 7 {
        Some(Key::Home)
    } else if p == 8 {
        Some(Key::End)
    } else if 11 <= p <= 15 {
        Some(Key::F((1 + p - 11) as u8))
    } else if 17 <= p <= 21 {
        Some(Key::F((6 + p - 17) as u8))
    } else if 23 <= p <= 26 {
        Some(Key::F((11 + p - 23) as u8))
    } else if p == 28 || p == 29 {
        Some(Key::F((15 + p - 28) as u8))
    } else if 31 <= p <= 34 {
        Some(Key::F((17 + p - 31) as u8))
    } else {
        None
    }
}

/// `CSI number ; modifiers ~` (or `^`, Ctrl, and `@`, Ctrl+Shift, in
/// URxvt): editing and function keys, modifyOtherKeys (27) and bracketed
/// paste (200, 201).
pub open spec fn tilde_spec(flags: u32, fb: u8, pa: Seq<Param>) -> Option<EventView> {
    if pa.len() == 0 {
        None
    } else {
        let p = param_or(pa, 0, 0);
        if fb == 0x7e && p == 27 {
            if pa.len() != 3 { None } else { Some(modify_other_keys_spec(pa)) }
        } else if fb == 0x7e && p == 200 {
            Some(EventView::PasteStart)
        } else if fb == 0x7e && p == 201 {
            Some(EventView::PasteEnd)
        } else {
            match tilde_key(flags, p) {
                None => None,
                Some(key) => {
                    let m = param_or(pa, 1, -1);
                    let bits: u16 = if pa.len() > 1 && m != -1 { xterm_mod_spec(m - 1) } else { 0 };
                    if fb == 0x7e {
                        Some(kitty_ext_spec(pa, press_mod_spec(key, bits)))
                    } else if fb == 0x5e {
                        Some(EventView::Key(press_mod_spec(key, bits | 2)))
                    } else {
                        Some(EventView::Key(press_mod_spec(key, bits | 3)))
                    }
                },
            }
        }
    }
}

/// `CSI op ; .. t`: window size reports, and any other window operation
/// with its arguments.
pub open spec fn window_op_spec(pa: Seq<Param>) -> Option<EventView> {
    if pa.len() == 0 {
        None
    } else {
        let op = param_or(pa, 0, 0);
        let size = Size { width: param_or(pa, 2, 0) as i32, height: param_or(pa, 1, 0) as i32 };
        if op == 4 && pa.len() == 3 {
            Some(EventView::PixelSize(size))
        } else if op == 6 && pa.len() == 3 {
            Some(EventView::CellSize(size))
        } else if op == 8 && pa.len() == 3 {
            Some(EventView::WindowSize(size))
        } else if op == 48 && pa.len() == 5 {
            Some(EventView::Multi(seq![
                Event::WindowSize(size),
                Event::PixelSize(Size { width: param_or(pa, 4, 0) as i32, height: param_or(pa, 3, 0) as i32 }),
            ]))
        } else {
            Some(EventView::WindowOp(op as i32, Seq::new((pa.len() - 1) as nat, |j: int| param_or(pa, j + 1, 0) as i32)))
        }
    }
}

/// A legacy cursor or function key final byte.
pub open spec fn is_func_final(fb: u8) -> bool {
    (0x61 <= fb <= 0x64) || (0x41 <= fb <= 0x46) || fb == 0x48 || (0x50 <= fb <= 0x53) || fb == 0x5a
}

/// The event of a control sequence with the given marker, parameters,
/// intermediate and final byte, when it is one the decoder knows.
pub open spec fn csi_event_spec(flags: u32, prefix: u8, pa: Seq<Param>, intermed: u8, fb: u8) -> Option<EventView> {
    if prefix == 0x3f && intermed == 0x24 && fb == 0x79 {
        mode_report_spec(pa, true)
    } else if prefix == 0x3f && intermed == 0 && fb == 0x63 {
        Some(EventView::PrimaryDeviceAttributes(device_attrs(pa)))
    } else if prefix == 0x3e && intermed == 0 && fb == 0x63 {
        Some(EventView::SecondaryDeviceAttributes(device_attrs(pa)))
    } else if prefix == 0x3f && intermed == 0 && fb == 0x75 {
        Some(EventView::KeyboardEnhancements(param_or(pa, 0, -1) as i32))
    } else if prefix == 0x3f && intermed == 0 && fb == 0x52 {
        if pa.len() > 1 {
            Some(EventView::CursorPosition(Point { x: (param_or(pa, 1, 1) - 1) as i32, y: (param_or(pa, 0, 1) - 1) as i32 }))
        } else {
            None
        }
    } else if prefix == 0x3c && intermed == 0 && (fb == 0x6d || fb == 0x4d) {
        if pa.len() == 3 { Some(sgr_mouse_spec(fb, pa)) } else { None }
    } else if prefix == 0x3e && intermed == 0 && fb == 0x6d {
        if pa.len() > 1 && param_or(pa, 0, 0) == 4 && param_or(pa, 1, -1) != -1 {
            Some(EventView::ModifyOtherKeys((param_or(pa, 1, -1) % 256) as u8))
        } else {
            None
        }
    } else if prefix == 0x3f && intermed == 0 && fb == 0x6e {
        let r = param_or(pa, 0, -1);
        let d = param_or(pa, 1, -1);
        if r == 997 && d == 1 {
            Some(EventView::ColorScheme(ColorScheme::Dark))
        } else if r == 997 && d == 2 {
            Some(EventView::ColorScheme(ColorScheme::Light))
        } else {
            None
        }
    } else if prefix == 0 && intermed == 0 && fb == 0x49 {
        Some(EventView::Focus)
    } else if prefix == 0 && intermed == 0 && fb == 0x4f {
        Some(EventView::Blur)
    } else if prefix == 0 && intermed == 0 && fb == 0x52 {
        cursor_or_f3_spec(pa)
    } else if prefix == 0 && intermed == 0 && is_func_final(fb) {
        csi_func_key_spec(fb, pa)
    } else if prefix == 0 && intermed == 0x24 && fb == 0x79 {
        mode_report_spec(pa, false)
    } else if prefix == 0 && intermed == 0 && fb == 0x75 {
        if pa.len() == 0 { None } else { Some(kitty_keyboard_spec(pa)) }
    } else if prefix == 0 && intermed == 0 && (fb == 0x40 || fb == 0x5e || fb == 0x7e) {
        tilde_spec(flags, fb, pa)
    } else if prefix == 0 && intermed == 0 && fb == 0x74 {
        window_op_spec(pa)
    } else {
        None
    }
}

/// A control sequence whose final byte `fb` stands before `i`: an X10
/// mouse report takes three bytes more; a sequence the decoder does not
/// know is `Unknown`.
pub open spec fn csi_dispatch_spec(flags: u32, b: Seq<u8>, prefix: u8, pa: Seq<Param>, intermed: u8, fb: u8, i: int) -> (int, Option<EventView>) {
    if prefix == 0 && intermed == 0 && fb == 0x4d {
        if i + 3 > b.len() {
            (i, Some(EventView::Unknown(b.take(i))))
        } else {
            (i + 3, Some(x10_mouse_spec(b.subrange(i, i + 3))))
        }
    } else {
        match csi_event_spec(flags, prefix, pa, intermed, fb) {
            Some(e) => (i, Some(e)),
            None => (i, Some(EventView::Unknown(b.take(i)))),
        }
    }
}

/// A control sequence read from the start of `b`, except URxvt's `$` keys:
/// ESC `[` alone is Alt+`[`; a sequence without a final byte is `Unknown`.
pub open spec fn csi_core_spec(flags: u32, b: Seq<u8>) -> (int, Option<EventView>) {
    if b.len() == 2 && b[0] == ESC {
        (2, Some(EventView::Key(press_mod_spec(Key::Char(b[1] as char), 4))))
    } else {
        let (prefix, pa, intermed, q) = csi_frame(b);
        if q >= b.len() || !(0x40 <= b[q] <= 0x7e) {
            (q, Some(EventView::Unknown(b.take(q))))
        } else {
            csi_dispatch_spec(flags, b, prefix, pa, intermed, b[q], q + 1)
        }
    }
}

/// A control sequence read from the start of `b`. URxvt ends Shift+key
/// sequences with `$` in place of `~`: such a sequence is read with `~` and,
/// when it is a key, gets Shift.
pub open spec fn csi_spec(flags: u32, b: Seq<u8>) -> (int, Option<EventView>) {
    if b.len() == 2 && b[0] == ESC {
        csi_core_spec(flags, b)
    } else {
        let (prefix, pa, intermed, q) = csi_frame(b);
        if q >= b.len() || !(0x40 <= b[q] <= 0x7e) {
            if intermed == 0x24 && q > 0 && b[q - 1] == 0x24 {
                match csi_core_spec(flags, b.take(q - 1).push(0x7e)) {
                    (n, Some(EventView::Key(k))) => (n, Some(EventView::Key(KeyEventView { meta: Meta { bits: k.meta.bits | 1 }, ..k }))),
                    _ => (q, Some(EventView::Unknown(b.take(q)))),
                }
            } else {
                (q, Some(EventView::Unknown(b.take(q))))
            }
        } else {
            csi_dispatch_spec(flags, b, prefix, pa, intermed, b[q], q + 1)
        }
    }
}

pub proof fn lemma_csi_scan_from(b: Seq<u8>, k: int, st: CsiScan)
    requires
        0 <= k <= b.len(),
    ensures
        k <= csi_scan_from(b, k, st).0 <= b.len(),
    decreases b.len() - k,
{
    if 0 <= k < b.len() && st.done.len() < 32 && 0x30 <= b[k] <= 0x3f {
        lemma_csi_scan_from(b, k + 1, csi_scan_step(st, b[k]));
    }
}

pub proof fn lemma_first_non_intermediate(b: Seq<u8>, k: int)
    requires
        0 <= k <= b.len(),
    ensures
        k <= first_non_intermediate(b, k) <= b.len(),
    decreases b.len() - k,
{
    if k < b.len() && 0x20 <= b[k] <= 0x2f {
        lemma_first_non_intermediate(b, k + 1);
    }
}

/// Parameter `i` with `default` when left out or not there.
fn param_value(pa: &[Param], i: usize, default: i32) -> (r: i32)
    requires
        -1 <= default <= 1,
    ensures
        r == param_or(pa@, i as int, default as int),
{
    if i < pa.len() {
        if pa[i].missing { default } else { pa[i].value as i32 }
    } else {
        default
    }
}

/// Scans the frame of a control sequence at the start of `b`.
fn csi_scan(b: &[u8]) -> (r: (u8, Vec<Param>, u8, usize))
    requires
        b@.len() > 0,
    ensures
        (r.0, r.1@, r.2, r.3 as int) == csi_frame(b@),
        1 <= r.3 <= b@.len(),
        r.2 != 0 ==> r.3 >= 2,
{
    let mut i: usize = 1;
    if i < b.len() && b[0] == ESC && b[1] == 0x5b {
        i = 2;
    }
    let i0 = i;
    let prefix: u8 = if i < b.len() && 0x3c <= b[i] && b[i] <= 0x3f { b[i] } else { 0 };
    let mut done: Vec<Param> = Vec::new();
    let mut cur = Param { value: 0, missing: true, has_more: false };
    let ghost init = CsiScan { done: Seq::empty(), cur: missing_param() };
    proof {
        assert(done@ =~= Seq::<Param>::empty());
        lemma_csi_scan_from(b@, i0 as int, init);
    }
    while i < b.len() && done.len() < 32 && 0x30 <= b[i] && b[i] <= 0x3f
        invariant
            i0 <= i <= b@.len(),
            csi_scan_from(b@, i0 as int, init) == csi_scan_from(b@, i as int, CsiScan { done: done@, cur }),
        decreases b@.len() - i,
    {
        let x = b[i];
        let ghost st = CsiScan { done: done@, cur };
        if 0x30 <= x && x <= 0x39 {
            cur = Param { value: sat_digit_exec(cur.value, x - 0x30), missing: false, has_more: cur.has_more };
        } else if x == 0x3a || x == 0x3b {
            done.push(Param { value: cur.value, missing: cur.missing, has_more: x == 0x3a });
            cur = Param { value: 0, missing: true, has_more: false };
        }
        proof {
            assert(CsiScan { done: done@, cur } == csi_scan_step(st, x));
        }
        i = i + 1;
    }
    let p = i;
    if p > i0 && done.len() < 32 {
        done.push(cur);
    }
    proof { lemma_first_non_intermediate(b@, p as int); }
    let mut intermed: u8 = 0;
    while i < b.len() && 0x20 <= b[i] && b[i] <= 0x2f
        invariant
            p <= i <= b@.len(),
            p >= 1,
            first_non_intermediate(b@, p as int) == first_non_intermediate(b@, i as int),
            intermed == (if i > p { b@[i - 1] } else { 0u8 }),
        decreases b@.len() - i,
    {
        intermed = b[i];
        i = i + 1;
    }
    (prefix, done, intermed, i)
}

fn device_attrs_exec(pa: &[Param]) -> (v: Vec<u16>)
    ensures
        v@ == device_attrs(pa@),
{
    let mut v: Vec<u16> = Vec::new();
    let mut k: usize = 0;
    while k < pa.len()
        invariant
            k <= pa@.len(),
            v@ == device_attrs(pa@.take(k as int)),
        decreases pa@.len() - k,
    {
        assert(pa@.take(k + 1).drop_last() =~= pa@.take(k as int));
        if !pa[k].has_more {
            let x: u16 = if pa[k].missing { 0 } else { pa[k].value };
            v.push(x);
        }
        k = k + 1;
        assert(v@ =~= device_attrs(pa@.take(k as int)));
    }
    assert(pa@.take(k as int) =~= pa@);
    v
}

fn mode_report(pa: &[Param], dec: bool) -> (r: Option<Event>)
    ensures
        match r {
            Some(e) => mode_report_spec(pa@, dec) == Some(e@),
            None => mode_report_spec(pa@, dec) is None,
        },
{
    if pa.len() < 2 || pa[0].missing {
        return None;
    }
    let m = pa[0].value;
    let value: u16 = if pa[1].missing { 0 } else { pa[1].value };
    Some(Event::ModeReport { mode: if dec { Mode::Dec(m) } else { Mode::Ansi(m) }, value })
}

fn cursor_or_f3(pa: &[Param]) -> (r: Option<Event>)
    ensures
        match r {
            Some(e) => cursor_or_f3_spec(pa@) == Some(e@),
            None => cursor_or_f3_spec(pa@) is None,
        },
{
    if pa.len() == 2 {
        let row = param_value(pa, 0, 1);
        let col = param_value(pa, 1, 1);
        let pos = Point { x: col - 1, y: row - 1 };
        if row == 1 && col - 1 <= 15 {
            let mut v: Vec<Event> = Vec::new();
            v.push(Event::Key(KeyEvent { key: Key::F(3), kind: KeyKind::Press, meta: Meta { bits: xterm_mod_of(col - 1) }, text: None, shifted_key: None, base_key: None }));
            v.push(Event::CursorPosition(pos));
            proof {
                assert(v@ =~= seq![
                    Event::Key(KeyEvent { key: Key::F(3), kind: KeyKind::Press, meta: Meta { bits: xterm_mod_spec(col - 1) }, text: None, shifted_key: None, base_key: None }),
                    Event::CursorPosition(pos),
                ]);
            }
            Some(Event::Multi(v))
        } else {
            Some(Event::CursorPosition(pos))
        }
    } else if pa.len() != 0 {
        None
    } else {
        csi_func_key(0x52, pa)
    }
}

fn tilde_key_exec(flags: u32, p: i32) -> (r: Option<Key>)
    requires
        p >= 0,
    ensures
        r == tilde_key(flags, p as int),
{
    if p == 1 {
        Some(if flags & FLAG_FIND != 0 { Key::Find } else { Key::Home })
    } else if p == 2 {
        Some(Key::Insert)
    } else if p == 3 {
        Some(Key::Delete)
    } else if p == 4 {
        Some(if flags & FLAG_SELECT != 0 { Key::Select } else { Key::End })
    } else if p == 5 {
        Some(Key::PageUp)
    } else if p == 6 {
        Some(Key::PageDown)
    } else if p == 7 {
        Some(Key::Home)
    } else if p == 8 {
        Some(Key::End)
    } else if 11 <= p && p <= 15 {
        Some(Key::F((1 + p - 11) as u8))
    } else if 17 <= p && p <= 21 {
        Some(Key::F((6 + p - 17) as u8))
    } else if 23 <= p && p <= 26 {
        Some(Key::F((11 + p - 23) as u8))
    } else if p == 28 || p == 29 {
        Some(Key::F((15 + p - 28) as u8))
    } else if 31 <= p && p <= 34 {
        Some(Key::F((17 + p - 31) as u8))
    } else {
        None
    }
}

fn tilde(flags: u32, fb: u8, pa: &[Param]) -> (r: Option<Event>)
    ensures
        match r {
            Some(e) => tilde_spec(flags, fb, pa@) == Some(e@),
            None => tilde_spec(flags, fb, pa@) is None,
        },
{
    if pa.len() == 0 {
        return None;
    }
    let p = param_value(pa, 0, 0);
    if fb == 0x7e && p == 27 {
        if pa.len() != 3 {
            return None;
        }
        return Some(parse_xterm_modify_other_keys(pa));
    } else if fb == 0x7e && p == 200 {
        return Some(Event::PasteStart);
    } else if fb == 0x7e && p == 201 {
        return Some(Event::PasteEnd);
    }
    match tilde_key_exec(flags, p) {
        None => None,
        Some(key) => {
            let m = param_value(pa, 1, -1);
            let bits: u16 = if pa.len() > 1 && m != -1 { xterm_mod_of(m - 1) } else { 0 };
            if fb == 0x7e {
                Some(parse_kitty_keyboard_ext(pa, press_mod(key, bits)))
            } else if fb == 0x5e {
                Some(Event::Key(press_mod(key, bits | 2)))
            } else {
                Some(Event::Key(press_mod(key, bits | 3)))
            }
        },
    }
}

fn window_op(pa: &[Param]) -> (r: Option<Event>)
    ensures
        match r {
            Some(e) => window_op_spec(pa@) == Some(e@),
            None => window_op_spec(pa@) is None,
        },
{
    if pa.len() == 0 {
        return None;
    }
    let op = param_value(pa, 0, 0);
    let size = Size { width: param_value(pa, 2, 0), height: param_value(pa, 1, 0) };
    if op == 4 && pa.len() == 3 {
        Some(Event::PixelSize(size))
    } else if op == 6 && pa.len() == 3 {
        Some(Event::CellSize(size))
    } else if op == 8 && pa.len() == 3 {
        Some(Event::WindowSize(size))
    } else if op == 48 && pa.len() == 5 {
        let pixels = Size { width: param_value(pa, 4, 0), height: param_value(pa, 3, 0) };
        let mut v: Vec<Event> = Vec::new();
        v.push(Event::WindowSize(size));
        v.push(Event::PixelSize(pixels));
        proof { assert(v@ =~= seq![Event::WindowSize(size), Event::PixelSize(pixels)]); }
        Some(Event::Multi(v))
    } else {
        let mut args: Vec<i32> = Vec::new();
        let mut j: usize = 1;
        while j < pa.len()
            invariant
                1 <= j <= pa@.len(),
                args@ =~= Seq::new((j - 1) as nat, |t: int| param_or(pa@, t + 1, 0) as i32),
            decreases pa@.len() - j,
        {
            args.push(param_value(pa, j, 0));
            j = j + 1;
        }
        Some(Event::WindowOp { op, args })
    }
}

fn is_func_final_exec(fb: u8) -> (r: bool)
    ensures
        r == is_func_final(fb),
{
    (0x61 <= fb && fb <= 0x64) || (0x41 <= fb && fb <= 0x46) || fb == 0x48 || (0x50 <= fb && fb <= 0x53) || fb == 0x5a
}

impl Decoder {
    /// The event of a control sequence with the given marker, parameters,
    /// intermediate and final byte, when it is one the decoder knows.
    pub fn csi_event(&self, prefix: u8, pa: &[Param], intermed: u8, fb: u8) -> (r: Option<Event>)
        ensures
            match r {
                Some(e) => csi_event_spec(self.flags, prefix, pa@, intermed, fb) == Some(e@),
                None => csi_event_spec(self.flags, prefix, pa@, intermed, fb) is None,
            },
    {
        if prefix == 0x3f && intermed == 0x24 && fb == 0x79 {
            mode_report(pa, true)
        } else if prefix == 0x3f && intermed == 0 && fb == 0x63 {
            Some(Event::PrimaryDeviceAttributes(device_attrs_exec(pa)))
        } else if prefix == 0x3e && intermed == 0 && fb == 0x63 {
            Some(Event::SecondaryDeviceAttributes(device_attrs_exec(pa)))
        } else if prefix == 0x3f && intermed == 0 && fb == 0x75 {
            Some(Event::KeyboardEnhancements(param_value(pa, 0, -1)))
        } else if prefix == 0x3f && intermed == 0 && fb == 0x52 {
            if pa.len() > 1 {
                Some(Event::CursorPosition(Point { x: param_value(pa, 1, 1) - 1, y: param_value(pa, 0, 1) - 1 }))
            } else {
                None
            }
        } else if prefix == 0x3c && intermed == 0 && (fb == 0x6d || fb == 0x4d) {
            if pa.len() == 3 { Some(parse_sgr_mouse(fb, pa)) } else { None }
        } else if prefix == 0x3e && intermed == 0 && fb == 0x6d {
            let mok = param_value(pa, 0, 0);
            let val = param_value(pa, 1, -1);
            if pa.len() > 1 && mok == 4 && val != -1 {
                Some(Event::ModifyOtherKeys((val % 256) as u8))
            } else {
                None
            }
        } else if prefix == 0x3f && intermed == 0 && fb == 0x6e {
            let r = param_value(pa, 0, -1);
            let d = param_value(pa, 1, -1);
            if r == 997 && d == 1 {
                Some(Event::ColorScheme(ColorScheme::Dark))
            } else if r == 997 && d == 2 {
                Some(Event::ColorScheme(ColorScheme::Light))
            } else {
                None
            }
        } else if prefix == 0 && intermed == 0 && fb == 0x49 {
            Some(Event::Focus)
        } else if prefix == 0 && intermed == 0 && fb == 0x4f {
            Some(Event::Blur)
        } else if prefix == 0 && intermed == 0 && fb == 0x52 {
            cursor_or_f3(pa)
        } else if prefix == 0 && intermed == 0 && is_func_final_exec(fb) {
            csi_func_key(fb, pa)
        } else if prefix == 0 && intermed == 0x24 && fb == 0x79 {
            mode_report(pa, false)
        } else if prefix == 0 && intermed == 0 && fb == 0x75 {
            if pa.len() == 0 { None } else { Some(parse_kitty_keyboard(pa)) }
        } else if prefix == 0 && intermed == 0 && (fb == 0x40 || fb == 0x5e || fb == 0x7e) {
            tilde(self.flags, fb, pa)
        } else if prefix == 0 && intermed == 0 && fb == 0x74 {
            window_op(pa)
        } else {
            None
        }
    }

    fn csi_dispatch(&self, b: &[u8], prefix: u8, pa: &[Param], intermed: u8, fb: u8, i: usize) -> (r: (usize, Option<Event>))
        requires
            i <= b@.len(),
        ensures
            result_view(r) == csi_dispatch_spec(self.flags, b@, prefix, pa@, intermed, fb, i as int),
            i >= 1 ==> 1 <= r.0,
            r.1 is Some,
            r.0 <= b@.len(),
    {
        if prefix == 0 && intermed == 0 && fb == 0x4d {
            if b.len() - i < 3 {
                let v = slice_to_vec(slice_subrange(b, 0, i));
                proof { assert(v@ =~= b@.take(i as int)); }
                return (i, Some(Event::Unknown(v)));
            }
            let m = slice_subrange(b, i, i + 3);
            return (i + 3, Some(parse_x10_mouse(m)));
        }
        match self.csi_event(prefix, pa, intermed, fb) {
            Some(e) => (i, Some(e)),
            None => {
                let v = slice_to_vec(slice_subrange(b, 0, i));
                proof { assert(v@ =~= b@.take(i as int)); }
                (i, Some(Event::Unknown(v)))
            },
        }
    }

    fn parse_csi_core(&self, b: &[u8]) -> (r: (usize, Option<Event>))
        requires
            b@.len() > 0,
        ensures
            result_view(r) == csi_core_spec(self.flags, b@),
            1 <= r.0,
            r.1 is Some,
            r.0 <= b@.len(),
    {
        if b.len() == 2 && b[0] == ESC {
            return (2, Some(Event::Key(press_mod(Key::Char(b[1] as char), 4))));
        }
        let (prefix, pa, intermed, q) = csi_scan(b);
        if q >= b.len() || !(0x40 <= b[q] && b[q] <= 0x7e) {
            let v = slice_to_vec(slice_subrange(b, 0, q));
            proof { assert(v@ =~= b@.take(q as int)); }
            return (q, Some(Event::Unknown(v)));
        }
        self.csi_dispatch(b, prefix, pa.as_slice(), intermed, b[q], q + 1)
    }

    /// Reads a control sequence from the start of `b`, which starts with
    /// CSI or ESC: keys, terminal replies and mouse reports; ESC `[` alone is
    /// Alt+`[`.
    pub fn parse_csi(&mut self, b: &[u8]) -> (r: (usize, Option<Event>))
        requires
            b@.len() > 0,
            b@[0] == CSI || b@[0] == ESC,
        ensures
            result_view(r) == csi_spec(old(self).flags, b@),
            1 <= r.0,
            r.1 is Some,
            r.0 <= b@.len(),
            *final(self) == *old(self),
    {
        if b.len() == 2 && b[0] == ESC {
            return self.parse_csi_core(b);
        }
        let (prefix, pa, intermed, q) = csi_scan(b);
        if q >= b.len() || !(0x40 <= b[q] && b[q] <= 0x7e) {
            if intermed == 0x24 && q > 0 && b[q - 1] == 0x24 {
                let mut buf = slice_to_vec(slice_subrange(b, 0, q - 1));
                buf.push(0x7e);
                proof { assert(buf@ =~= b@.take(q - 1).push(0x7e)); }
                let (n, ev) = self.parse_csi_core(buf.as_slice());
                match ev {
                    Some(Event::Key(k)) => {
                        let mut k = k;
                        k.meta = Meta { bits: k.meta.bits | 1 };
                        return (n, Some(Event::Key(k)));
                    },
                    _ => {},
                }
            }
            let v = slice_to_vec(slice_subrange(b, 0, q));
            proof { assert(v@ =~= b@.take(q as int)); }
            return (q, Some(Event::Unknown(v)));
        }
        self.csi_dispatch(b, prefix, pa.as_slice(), intermed, b[q], q + 1)
    }
}

/// `CSI k ~` read from a four-byte input, for a digit byte `d` of `k`.
proof fn lemma_csi_tilde_digit(flags: u32, d: u8)
    requires
        0x30 <= d <= 0x39,
    ensures
        csi_spec(flags, seq![ESC, 0x5bu8, d, 0x7eu8]) == (4int, Some(
            match tilde_spec(flags, 0x7e, seq![Param { value: (d - 0x30) as u16, missing: false, has_more: false }]) {
                Some(e) => e,
                None => EventView::Unknown(seq![ESC, 0x5bu8, d, 0x7eu8]),
            },
        )),
{
    let b = seq![ESC, 0x5bu8, d, 0x7eu8];
    let init = CsiScan { done: Seq::empty(), cur: missing_param() };
    let p0 = Param { value: (d - 0x30) as u16, missing: false, has_more: false };
    let st = CsiScan { done: Seq::<Param>::empty(), cur: p0 };
    assert(csi_scan_step(init, d) == st);
    assert(csi_scan_from(b, 3, st) == (3int, st));
    assert(csi_scan_from(b, 2, init) == (3int, st));
    assert(Seq::<Param>::empty().push(p0) =~= seq![p0]);
    assert(first_non_intermediate(b, 3) == 3);
    assert(csi_frame(b) == (0u8, seq![p0], 0u8, 3int));
    assert(b.take(4) =~= b);
}

/// The VT220 editing keys: `CSI 1 ~` is Home (Find with the Find flag),
/// `CSI 2 ~` Insert, `CSI 3 ~` Delete, `CSI 4 ~` End (Select with the
/// Select flag), `CSI 5 ~` Page Up and `CSI 6 ~` Page Down, each a plain
/// press taking the four bytes.
pub proof fn lemma_csi_editing_keys(flags: u32)
    ensures
        csi_spec(flags, seq![ESC, 0x5bu8, 0x31u8, 0x7eu8]) == (4int, Some(EventView::Key(press_mod_spec(
            if flags & FLAG_FIND != 0 { Key::Find } else { Key::Home }, 0)))),
        csi_spec(flags, seq![ESC, 0x5bu8, 0x32u8, 0x7eu8]) == (4int, Some(EventView::Key(press_mod_spec(Key::Insert, 0)))),
        csi_spec(flags, seq![ESC, 0x5bu8, 0x33u8, 0x7eu8]) == (4int, Some(EventView::Key(press_mod_spec(Key::Delete, 0)))),
        csi_spec(flags, seq![ESC, 0x5bu8, 0x34u8, 0x7eu8]) == (4int, Some(EventView::Key(press_mod_spec(
            if flags & FLAG_SELECT != 0 { Key::Select } else { Key::End }, 0)))),
        csi_spec(flags, seq![ESC, 0x5bu8, 0x35u8, 0x7eu8]) == (4int, Some(EventView::Key(press_mod_spec(Key::PageUp, 0)))),
        csi_spec(flags, seq![ESC, 0x5bu8, 0x36u8, 0x7eu8]) == (4int, Some(EventView::Key(press_mod_spec(Key::PageDown, 0)))),
{
    lemma_csi_tilde_digit(flags, 0x31);
    lemma_csi_tilde_digit(flags, 0x32);
    lemma_csi_tilde_digit(flags, 0x33);
    lemma_csi_tilde_digit(flags, 0x34);
    lemma_csi_tilde_digit(flags, 0x35);
    lemma_csi_tilde_digit(flags, 0x36);
}

/// `CSI k ; m ~` read from a six-byte input, for digit bytes `d` of `k`
/// and `e` of `m`.
proof fn lemma_csi_tilde_digit_mod(flags: u32, d: u8, e: u8)
    requires
        0x30 <= d <= 0x39,
        0x30 <= e <= 0x39,
    ensures
        csi_spec(flags, seq![ESC, 0x5bu8, d, 0x3bu8, e, 0x7eu8]) == (6int, Some(
            match tilde_spec(flags, 0x7e, seq![
                Param { value: (d - 0x30) as u16, missing: false, has_more: false },
                Param { value: (e - 0x30) as u16, missing: false, has_more: false },
            ]) {
                Some(x) => x,
                None => EventView::Unknown(seq![ESC, 0x5bu8, d, 0x3bu8, e, 0x7eu8]),
            },
        )),
{
    let b = seq![ESC, 0x5bu8, d, 0x3bu8, e, 0x7eu8];
    let init = CsiScan { done: Seq::empty(), cur: missing_param() };
    let p0 = Param { value: (d - 0x30) as u16, missing: false, has_more: false };
    let p1 = Param { value: (e - 0x30) as u16, missing: false, has_more: false };
    let st1 = CsiScan { done: Seq::<Param>::empty(), cur: p0 };
    let st2 = CsiScan { done: seq![p0], cur: missing_param() };
    let st3 = CsiScan { done: seq![p0], cur: p1 };
    assert(csi_scan_step(init, d) == st1);
    assert(Seq::<Param>::empty().push(p0) =~= seq![p0]);
    assert(csi_scan_step(st1, 0x3b) == st2);
    assert(csi_scan_step(st2, e) == st3);
    assert(csi_scan_from(b, 5, st3) == (5int, st3));
    assert(csi_scan_from(b, 4, st2) == (5int, st3));
    assert(csi_scan_from(b, 3, st1) == (5int, st3));
    assert(csi_scan_from(b, 2, init) == (5int, st3));
    assert(seq![p0].push(p1) =~= seq![p0, p1]);
    assert(first_non_intermediate(b, 5) == 5);
    assert(csi_frame(b) == (0u8, seq![p0, p1], 0u8, 5int));
    assert(b.take(6) =~= b);
}

/// `CSI k ; m ~` for an editing key number `k` and a modifier `m` from 1.
proof fn lemma_tilde_two(flags: u32, k: u16, v: u16)
    requires
        k == 2 || k == 3 || k == 5 || k == 6,
        1 <= v <= 9,
    ensures
        tilde_spec(flags, 0x7e, seq![
            Param { value: k, missing: false, has_more: false },
            Param { value: v, missing: false, has_more: false },
        ]) == Some(EventView::Key(press_mod_spec(tilde_key(flags, k as int)->0, xterm_mod_spec(v - 1)))),
{
}

/// The VT220 editing keys with an xterm modifier `CSI k ; m ~`, for any
/// modifier digit `m` from 1: Insert, Delete, Page Up and Page Down for
/// `k` = 2, 3, 5, 6, with the modifiers of `m - 1`.
pub proof fn lemma_csi_modified_editing_keys(flags: u32, e: u8)
    requires
        0x31 <= e <= 0x39,
    ensures
        csi_spec(flags, seq![ESC, 0x5bu8, 0x32u8, 0x3bu8, e, 0x7eu8]) == (6int, Some(EventView::Key(press_mod_spec(Key::Insert, xterm_mod_spec(e - 0x31))))),
        csi_spec(flags, seq![ESC, 0x5bu8, 0x33u8, 0x3bu8, e, 0x7eu8]) == (6int, Some(EventView::Key(press_mod_spec(Key::Delete, xterm_mod_spec(e - 0x31))))),
        csi_spec(flags, seq![ESC, 0x5bu8, 0x35u8, 0x3bu8, e, 0x7eu8]) == (6int, Some(EventView::Key(press_mod_spec(Key::PageUp, xterm_mod_spec(e - 0x31))))),
        csi_spec(flags, seq![ESC, 0x5bu8, 0x36u8, 0x3bu8, e, 0x7eu8]) == (6int, Some(EventView::Key(press_mod_spec(Key::PageDown, xterm_mod_spec(e - 0x31))))),
{
    assert(csi_spec(flags, seq![ESC, 0x5bu8, 0x32u8, 0x3bu8, e, 0x7eu8]) == (6int, Some(EventView::Key(press_mod_spec(Key::Insert, xterm_mod_spec(e - 0x31)))))) by {
        lemma_csi_tilde_digit_mod(flags, 0x32, e);
        lemma_tilde_two(flags, 2, (e - 0x30) as u16);
    }
    assert(csi_spec(flags, seq![ESC, 0x5bu8, 0x33u8, 0x3bu8, e, 0x7eu8]) == (6int, Some(EventView::Key(press_mod_spec(Key::Delete, xterm_mod_spec(e - 0x31)))))) by {
        lemma_csi_tilde_digit_mod(flags, 0x33, e);
        lemma_tilde_two(flags, 3, (e - 0x30) as u16);
    }
    assert(csi_spec(flags, seq![ESC, 0x5bu8, 0x35u8, 0x3bu8, e, 0x7eu8]) == (6int, Some(EventView::Key(press_mod_spec(Key::PageUp, xterm_mod_spec(e - 0x31)))))) by {
        lemma_csi_tilde_digit_mod(flags, 0x35, e);
        lemma_tilde_two(flags, 5, (e - 0x30) as u16);
    }
    assert(csi_spec(flags, seq![ESC, 0x5bu8, 0x36u8, 0x3bu8, e, 0x7eu8]) == (6int, Some(EventView::Key(press_mod_spec(Key::PageDown, xterm_mod_spec(e - 0x31)))))) by {
        lemma_csi_tilde_digit_mod(flags, 0x36, e);
        lemma_tilde_two(flags, 6, (e - 0x30) as u16);
    }
}

/// `CSI k ~` read from a five-byte input, for digit bytes `d`, `e` of `k`.
proof fn lemma_csi_tilde_two_digits(flags: u32, d: u8, e: u8)
    requires
        0x30 <= d <= 0x39,
        0x30 <= e <= 0x39,
    ensures
        csi_spec(flags, seq![ESC, 0x5bu8, d, e, 0x7eu8]) == (5int, Some(
            match tilde_spec(flags, 0x7e, seq![Param { value: ((d - 0x30) * 10 + (e - 0x30)) as u16, missing: false, has_more: false }]) {
                Some(x) => x,
                None => EventView::Unknown(seq![ESC, 0x5bu8, d, e, 0x7eu8]),
            },
        )),
{
    let b = seq![ESC, 0x5bu8, d, e, 0x7eu8];
    let init = CsiScan { done: Seq::empty(), cur: missing_param() };
    let p0 = Param { value: (d - 0x30) as u16, missing: false, has_more: false };
    let p1 = Param { value: ((d - 0x30) * 10 + (e - 0x30)) as u16, missing: false, has_more: false };
    let st1 = CsiScan { done: Seq::<Param>::empty(), cur: p0 };
    let st2 = CsiScan { done: Seq::<Param>::empty(), cur: p1 };
    assert(csi_scan_step(init, d) == st1);
    assert(csi_scan_step(st1, e) == st2);
    assert(csi_scan_from(b, 4, st2) == (4int, st2));
    assert(csi_scan_from(b, 3, st1) == (4int, st2));
    assert(csi_scan_from(b, 2, init) == (4int, st2));
    assert(Seq::<Param>::empty().push(p1) =~= seq![p1]);
    assert(first_non_intermediate(b, 4) == 4);
    assert(csi_frame(b) == (0u8, seq![p1], 0u8, 4int));
    assert(b.take(5) =~= b);
}

/// The VT220 function keys: `CSI 11 ~` to `CSI 15 ~` are F1 to F5,
/// `CSI 17 ~` to `CSI 21 ~` F6 to F10, `CSI 23 ~` to `CSI 26 ~` F11 to
/// F14, `CSI 28 ~` and `CSI 29 ~` F15 and F16, and `CSI 31 ~` to
/// `CSI 34 ~` F17 to F20.
pub proof fn lemma_csi_function_keys(flags: u32)
    ensures
        csi_spec(flags, seq![ESC, 0x5bu8, 0x31u8, 0x31u8, 0x7eu8]) == (5int, Some(EventView::Key(press_mod_spec(Key::F(1), 0)))),
        csi_spec(flags, seq![ESC, 0x5bu8, 0x31u8, 0x32u8, 0x7eu8]) == (5int, Some(EventView::Key(press_mod_spec(Key::F(2), 0)))),
        csi_spec(flags, seq![ESC, 0x5bu8, 0x31u8, 0x33u8, 0x7eu8]) == (5int, Some(EventView::Key(press_mod_spec(Key::F(3), 0)))),
        csi_spec(flags, seq![ESC, 0x5bu8, 0x31u8, 0x34u8, 0x7eu8]) == (5int, Some(EventView::Key(press_mod_spec(Key::F(4), 0)))),
        csi_spec(flags, seq![ESC, 0x5bu8, 0x31u8, 0x35u8, 0x7eu8]) == (5int, Some(EventView::Key(press_mod_spec(Key::F(5), 0)))),
        csi_spec(flags, seq![ESC, 0x5bu8, 0x31u8, 0x37u8, 0x7eu8]) == (5int, Some(EventView::Key(press_mod_spec(Key::F(6), 0)))),
        csi_spec(flags, seq![ESC, 0x5bu8, 0x31u8, 0x38u8, 0x7eu8]) == (5int, Some(EventView::Key(press_mod_spec(Key::F(7), 0)))),
        csi_spec(flags, seq![ESC, 0x5bu8, 0x31u8, 0x39u8, 0x7eu8]) == (5int, Some(EventView::Key(press_mod_spec(Key::F(8), 0)))),
        csi_spec(flags, seq![ESC, 0x5bu8, 0x32u8, 0x30u8, 0x7eu8]) == (5int, Some(EventView::Key(press_mod_spec(Key::F(9), 0)))),
        csi_spec(flags, seq![ESC, 0x5bu8, 0x32u8, 0x31u8, 0x7eu8]) == (5int, Some(EventView::Key(press_mod_spec(Key::F(10), 0)))),
        csi_spec(flags, seq![ESC, 0x5bu8, 0x32u8, 0x33u8, 0x7eu8]) == (5int, Some(EventView::Key(press_mod_spec(Key::F(11), 0)))),
        csi_spec(flags, seq![ESC, 0x5bu8, 0x32u8, 0x34u8, 0x7eu8]) == (5int, Some(EventView::Key(press_mod_spec(Key::F(12), 0)))),
        csi_spec(flags, seq![ESC, 0x5bu8, 0x32u8, 0x35u8, 0x7eu8]) == (5int, Some(EventView::Key(press_mod_spec(Key::F(13), 0)))),
        csi_spec(flags, seq![ESC, 0x5bu8, 0x32u8, 0x36u8, 0x7eu8]) == (5int, Some(EventView::Key(press_mod_spec(Key::F(14), 0)))),
        csi_spec(flags, seq![ESC, 0x5bu8, 0x32u8, 0x38u8, 0x7eu8]) == (5int, Some(EventView::Key(press_mod_spec(Key::F(15), 0)))),
        csi_spec(flags, seq![ESC, 0x5bu8, 0x32u8, 0x39u8, 0x7eu8]) == (5int, Some(EventView::Key(press_mod_spec(Key::F(16), 0)))),
        csi_spec(flags, seq![ESC, 0x5bu8, 0x33u8, 0x31u8, 0x7eu8]) == (5int, Some(EventView::Key(press_mod_spec(Key::F(17), 0)))),
        csi_spec(flags, seq![ESC, 0x5bu8, 0x33u8, 0x32u8, 0x7eu8]) == (5int, Some(EventView::Key(press_mod_spec(Key::F(18), 0)))),
        csi_spec(flags, seq![ESC, 0x5bu8, 0x33u8, 0x33u8, 0x7eu8]) == (5int, Some(EventView::Key(press_mod_spec(Key::F(19), 0)))),
        csi_spec(flags, seq![ESC, 0x5bu8, 0x33u8, 0x34u8, 0x7eu8]) == (5int, Some(EventView::Key(press_mod_spec(Key::F(20), 0)))),
{
    assert(csi_spec(flags, seq![ESC, 0x5bu8, 0x31u8, 0x31u8, 0x7eu8]) == (5int, Some(EventView::Key(press_mod_spec(Key::F(1), 0))))) by {
        lemma_csi_tilde_two_digits(flags, 0x31u8, 0x31u8);
    }
    assert(csi_spec(flags, seq![ESC, 0x5bu8, 0x31u8, 0x32u8, 0x7eu8]) == (5int, Some(EventView::Key(press_mod_spec(Key::F(2), 0))))) by {
        lemma_csi_tilde_two_digits(flags, 0x31u8, 0x32u8);
    }
    assert(csi_spec(flags, seq![ESC, 0x5bu8, 0x31u8, 0x33u8, 0x7eu8]) == (5int, Some(EventView::Key(press_mod_spec(Key::F(3), 0))))) by {
        lemma_csi_tilde_two_digits(flags, 0x31u8, 0x33u8);
    }
    assert(csi_spec(flags, seq![ESC, 0x5bu8, 0x31u8, 0x34u8, 0x7eu8]) == (5int, Some(EventView::Key(press_mod_spec(Key::F(4), 0))))) by {
        lemma_csi_tilde_two_digits(flags, 0x31u8, 0x34u8);
    }
    assert(csi_spec(flags, seq![ESC, 0x5bu8, 0x31u8, 0x35u8, 0x7eu8]) == (5int, Some(EventView::Key(press_mod_spec(Key::F(5), 0))))) by {
        lemma_csi_tilde_two_digits(flags, 0x31u8, 0x35u8);
    }
    assert(csi_spec(flags, seq![ESC, 0x5bu8, 0x31u8, 0x37u8, 0x7eu8]) == (5int, Some(EventView::Key(press_mod_spec(Key::F(6), 0))))) by {
        lemma_csi_tilde_two_digits(flags, 0x31u8, 0x37u8);
    }
    assert(csi_spec(flags, seq![ESC, 0x5bu8, 0x31u8, 0x38u8, 0x7eu8]) == (5int, Some(EventView::Key(press_mod_spec(Key::F(7), 0))))) by {
        lemma_csi_tilde_two_digits(flags, 0x31u8, 0x38u8);
    }
    assert(csi_spec(flags, seq![ESC, 0x5bu8, 0x31u8, 0x39u8, 0x7eu8]) == (5int, Some(EventView::Key(press_mod_spec(Key::F(8), 0))))) by {
        lemma_csi_tilde_two_digits(flags, 0x31u8, 0x39u8);
    }
    assert(csi_spec(flags, seq![ESC, 0x5bu8, 0x32u8, 0x30u8, 0x7eu8]) == (5int, Some(EventView::Key(press_mod_spec(Key::F(9), 0))))) by {
        lemma_csi_tilde_two_digits(flags, 0x32u8, 0x30u8);
    }
    assert(csi_spec(flags, seq![ESC, 0x5bu8, 0x32u8, 0x31u8, 0x7eu8]) == (5int, Some(EventView::Key(press_mod_spec(Key::F(10), 0))))) by {
        lemma_csi_tilde_two_digits(flags, 0x32u8, 0x31u8);
    }
    assert(csi_spec(flags, seq![ESC, 0x5bu8, 0x32u8, 0x33u8, 0x7eu8]) == (5int, Some(EventView::Key(press_mod_spec(Key::F(11), 0))))) by {
        lemma_csi_tilde_two_digits(flags, 0x32u8, 0x33u8);
    }
    assert(csi_spec(flags, seq![ESC, 0x5bu8, 0x32u8, 0x34u8, 0x7eu8]) == (5int, Some(EventView::Key(press_mod_spec(Key::F(12), 0))))) by {
        lemma_csi_tilde_two_digits(flags, 0x32u8, 0x34u8);
    }
    assert(csi_spec(flags, seq![ESC, 0x5bu8, 0x32u8, 0x35u8, 0x7eu8]) == (5int, Some(EventView::Key(press_mod_spec(Key::F(13), 0))))) by {
        lemma_csi_tilde_two_digits(flags, 0x32u8, 0x35u8);
    }
    assert(csi_spec(flags, seq![ESC, 0x5bu8, 0x32u8, 0x36u8, 0x7eu8]) == (5int, Some(EventView::Key(press_mod_spec(Key::F(14), 0))))) by {
        lemma_csi_tilde_two_digits(flags, 0x32u8, 0x36u8);
    }
    assert(csi_spec(flags, seq![ESC, 0x5bu8, 0x32u8, 0x38u8, 0x7eu8]) == (5int, Some(EventView::Key(press_mod_spec(Key::F(15), 0))))) by {
        lemma_csi_tilde_two_digits(flags, 0x32u8, 0x38u8);
    }
    assert(csi_spec(flags, seq![ESC, 0x5bu8, 0x32u8, 0x39u8, 0x7eu8]) == (5int, Some(EventView::Key(press_mod_spec(Key::F(16), 0))))) by {
        lemma_csi_tilde_two_digits(flags, 0x32u8, 0x39u8);
    }
    assert(csi_spec(flags, seq![ESC, 0x5bu8, 0x33u8, 0x31u8, 0x7eu8]) == (5int, Some(EventView::Key(press_mod_spec(Key::F(17), 0))))) by {
        lemma_csi_tilde_two_digits(flags, 0x33u8, 0x31u8);
    }
    assert(csi_spec(flags, seq![ESC, 0x5bu8, 0x33u8, 0x32u8, 0x7eu8]) == (5int, Some(EventView::Key(press_mod_spec(Key::F(18), 0))))) by {
        lemma_csi_tilde_two_digits(flags, 0x33u8, 0x32u8);
    }
    assert(csi_spec(flags, seq![ESC, 0x5bu8, 0x33u8, 0x33u8, 0x7eu8]) == (5int, Some(EventView::Key(press_mod_spec(Key::F(19), 0))))) by {
        lemma_csi_tilde_two_digits(flags, 0x33u8, 0x33u8);
    }
    assert(csi_spec(flags, seq![ESC, 0x5bu8, 0x33u8, 0x34u8, 0x7eu8]) == (5int, Some(EventView::Key(press_mod_spec(Key::F(20), 0))))) by {
        lemma_csi_tilde_two_digits(flags, 0x33u8, 0x34u8);
    }
}

/// `CSI X` read from a three-byte input, for a final byte `X`.
proof fn lemma_csi_final_only(flags: u32, x: u8)
    requires
        0x40 <= x <= 0x7e,
        x != 0x4d,
    ensures
        csi_spec(flags, seq![ESC, 0x5bu8, x]) == (3int, Some(
            match csi_event_spec(flags, 0, Seq::<Param>::empty(), 0, x) {
                Some(e) => e,
                None => EventView::Unknown(seq![ESC, 0x5bu8, x]),
            },
        )),
{
    let b = seq![ESC, 0x5bu8, x];
    let init = CsiScan { done: Seq::empty(), cur: missing_param() };
    assert(csi_scan_from(b, 2, init) == (2int, init));
    assert(first_non_intermediate(b, 2) == 2);
    assert(csi_frame(b) == (0u8, Seq::<Param>::empty(), 0u8, 2int));
    assert(b.take(3) =~= b);
}

/// The cursor and legacy function keys without parameters: `CSI A` to
/// `CSI D` are Up, Down, Right and Left, `CSI H` Home, `CSI F` End,
/// `CSI E` Begin, `CSI Z` Shift+Tab, and `CSI P` to `CSI S` F1 to F4.
pub proof fn lemma_csi_cursor_keys(flags: u32)
    ensures
        csi_spec(flags, seq![ESC, 0x5bu8, 0x41u8]) == (3int, Some(EventView::Key(press_mod_spec(Key::Up, 0)))),
        csi_spec(flags, seq![ESC, 0x5bu8, 0x42u8]) == (3int, Some(EventView::Key(press_mod_spec(Key::Down, 0)))),
        csi_spec(flags, seq![ESC, 0x5bu8, 0x43u8]) == (3int, Some(EventView::Key(press_mod_spec(Key::Right, 0)))),
        csi_spec(flags, seq![ESC, 0x5bu8, 0x44u8]) == (3int, Some(EventView::Key(press_mod_spec(Key::Left, 0)))),
        csi_spec(flags, seq![ESC, 0x5bu8, 0x48u8]) == (3int, Some(EventView::Key(press_mod_spec(Key::Home, 0)))),
        csi_spec(flags, seq![ESC, 0x5bu8, 0x46u8]) == (3int, Some(EventView::Key(press_mod_spec(Key::End, 0)))),
        csi_spec(flags, seq![ESC, 0x5bu8, 0x45u8]) == (3int, Some(EventView::Key(press_mod_spec(Key::Begin, 0)))),
        csi_spec(flags, seq![ESC, 0x5bu8, 0x5au8]) == (3int, Some(EventView::Key(press_mod_spec(Key::Tab, 1)))),
        csi_spec(flags, seq![ESC, 0x5bu8, 0x50u8]) == (3int, Some(EventView::Key(press_mod_spec(Key::F(1), 0)))),
        csi_spec(flags, seq![ESC, 0x5bu8, 0x51u8]) == (3int, Some(EventView::Key(press_mod_spec(Key::F(2), 0)))),
        csi_spec(flags, seq![ESC, 0x5bu8, 0x52u8]) == (3int, Some(EventView::Key(press_mod_spec(Key::F(3), 0)))),
        csi_spec(flags, seq![ESC, 0x5bu8, 0x53u8]) == (3int, Some(EventView::Key(press_mod_spec(Key::F(4), 0)))),
{
    lemma_csi_final_only(flags, 0x41u8);
    lemma_csi_final_only(flags, 0x42u8);
    lemma_csi_final_only(flags, 0x43u8);
    lemma_csi_final_only(flags, 0x44u8);
    lemma_csi_final_only(flags, 0x48u8);
    lemma_csi_final_only(flags, 0x46u8);
    lemma_csi_final_only(flags, 0x45u8);
    lemma_csi_final_only(flags, 0x5au8);
    lemma_csi_final_only(flags, 0x50u8);
    lemma_csi_final_only(flags, 0x51u8);
    lemma_csi_final_only(flags, 0x52u8);
    lemma_csi_final_only(flags, 0x53u8);
}

} // verus!
