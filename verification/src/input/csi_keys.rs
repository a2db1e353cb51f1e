//! Keys reported by CSI sequences: cursor and function keys, the Kitty
//! event types on them, and XTerm's modifyOtherKeys.
use vstd::prelude::*;
use crate::params::string_push;
use crate::utf8::decoder::char_from_u32;
use super::keys::{Key, KeyKind};
use super::decode::{Event, EventView, KeyEvent, KeyEventView, press_mod, press_mod_spec};
use super::kitty::{Param, char_or_replacement};
use super::mouse::param_or;
use super::ss3::{arrow, arrow_exec, xterm_mod, xterm_mod_spec};

verus! {

/// The key of a legacy CSI final byte and the modifiers it implies:
/// `a`..`d` are Shift+arrows, `A`..`D` arrows, `E` Begin, `F` End, `H`
/// Home, `P`..`S` F1 to F4, `Z` Shift+Tab.
pub open spec fn csi_key_base(cmd: u8) -> Option<(Key, u16)> {
    if 0x61 <= cmd <= 0x64 {
        Some((arrow((cmd - 0x61) as u8), 1))
    } else if 0x41 <= cmd <= 0x44 {
        Some((arrow((cmd - 0x41) as u8), 0))
    } else if cmd == 0x45 {
        Some((Key::Begin, 0))
    } else if cmd == 0x46 {
        Some((Key::End, 0))
    } else if cmd == 0x48 {
        Some((Key::Home, 0))
    } else if 0x50 <= cmd <= 0x53 {
        Some((Key::F((1 + cmd - 0x50) as u8), 0))
    } else if cmd == 0x5a {
        Some((Key::Tab, 1))
    } else {
        None
    }
}

/// A key event with the Kitty event type of a legacy sequence applied: when
/// there are three or more parameters and the second has a `:`
/// sub-parameter, the third is the event type (2 repeat, 3 release).
pub open spec fn kitty_ext_spec(pa: Seq<Param>, k: KeyEventView) -> EventView {
    if pa.len() > 2 && pa[1].has_more {
        let v = param_or(pa, 2, 1);
        if v == 2 {
            EventView::Key(KeyEventView { kind: KeyKind::Repeat, ..k })
        } else if v == 3 {
            EventView::Key(KeyEventView { kind: KeyKind::Release, ..k })
        } else {
            EventView::Key(k)
        }
    } else {
        EventView::Key(k)
    }
}

/// Applies the Kitty event type of a legacy key sequence to `k`.
pub fn parse_kitty_keyboard_ext(pa: &[Param], k: KeyEvent) -> (e: Event)
    ensures
        e@ == kitty_ext_spec(pa@, k@),
{
    let mut k = k;
    if pa.len() > 2 && pa[1].has_more {
        let v: u16 = if pa[2].missing { 1 } else { pa[2].value };
        if v == 2 {
            k.kind = KeyKind::Repeat;
        } else if v == 3 {
            k.kind = KeyKind::Release;
        }
    }
    Event::Key(k)
}

/// The modifier bits of an xterm modifier parameter less one, for a value
/// of at least -1.
pub(crate) fn xterm_mod_of(m1: i32) -> (r: u16)
    requires
        m1 >= -1,
    ensures
        r == xterm_mod_spec(m1 as int),
{
    if m1 < 0 {
        xterm_mod(15)
    } else {
        xterm_mod((m1 % 16) as u8)
    }
}

/// A legacy cursor or function key: `CSI [1 ; modifiers] final`. Any other
/// first parameter, or a third parameter without the Kitty event type
/// form, is not a key.
pub open spec fn csi_func_key_spec(cmd: u8, pa: Seq<Param>) -> Option<EventView> {
    match csi_key_base(cmd) {
        None => None,
        Some((key, meta)) => {
            let id = param_or(pa, 0, 1);
            let m = param_or(pa, 1, 1);
            if (pa.len() > 2 && !pa[1].has_more) || id != 1 {
                None
            } else {
                let bits = if pa.len() > 1 && m != -1 { meta | xterm_mod_spec(m - 1) } else { meta };
                Some(kitty_ext_spec(pa, press_mod_spec(key, bits)))
            }
        },
    }
}

fn csi_key_base_exec(cmd: u8) -> (r: Option<(Key, u16)>)
    ensures
        r == csi_key_base(cmd),
{
    if 0x61 <= cmd && cmd <= 0x64 {
        Some((arrow_exec(cmd - 0x61), 1))
    } else if 0x41 <= cmd && cmd <= 0x44 {
        Some((arrow_exec(cmd - 0x41), 0))
    } else if cmd == 0x45 {
        Some((Key::Begin, 0))
    } else if cmd == 0x46 {
        Some((Key::End, 0))
    } else if cmd == 0x48 {
        Some((Key::Home, 0))
    } else if 0x50 <= cmd && cmd <= 0x53 {
        Some((Key::F(1 + cmd - 0x50), 0))
    } else if cmd == 0x5a {
        Some((Key::Tab, 1))
    } else {
        None
    }
}

/// Reads a legacy cursor or function key from its final byte and
/// parameters.
pub fn csi_func_key(cmd: u8, pa: &[Param]) -> (r: Option<Event>)
    ensures
        match r {
            Some(e) => csi_func_key_spec(cmd, pa@) == Some(e@),
            None => csi_func_key_spec(cmd, pa@) is None,
        },
{
    match csi_key_base_exec(cmd) {
        None => None,
        Some((key, meta)) => {
            let id: i32 = if pa.len() > 0 { if pa[0].missing { 1 } else { pa[0].value as i32 } } else { 1 };
            let m: i32 = if pa.len() > 1 { if pa[1].missing { 1 } else { pa[1].value as i32 } } else { 1 };
            if (pa.len() > 2 && !pa[1].has_more) || id != 1 {
                return None;
            }
            let bits = if pa.len() > 1 && m != -1 { meta | xterm_mod_of(m - 1) } else { meta };
            Some(parse_kitty_keyboard_ext(pa, press_mod(key, bits)))
        },
    }
}

/// XTerm modifyOtherKeys (`CSI 27 ; modifiers ; code ~`): BS, HT, CR, ESC
/// and DEL are their keys; any other code is its character (U+FFFD when it
/// is none), which types itself with no modifier or Shift alone.
pub open spec fn modify_other_keys_spec(pa: Seq<Param>) -> EventView {
    let meta = xterm_mod_spec(param_or(pa, 1, 1) - 1);
    let code = param_or(pa, 2, 1);
    if code == 0x08 || code == 0x7f {
        EventView::Key(press_mod_spec(Key::Backspace, meta))
    } else if code == 0x09 {
        EventView::Key(press_mod_spec(Key::Tab, meta))
    } else if code == 0x0d {
        EventView::Key(press_mod_spec(Key::Enter, meta))
    } else if code == 0x1b {
        EventView::Key(press_mod_spec(Key::Escape, meta))
    } else {
        let c = char_or_replacement(code as u32);
        EventView::Key(KeyEventView {
            text: if meta == 0 || meta == 1 { Some(seq![c]) } else { None },
            ..press_mod_spec(Key::Char(c), meta)
        })
    }
}

/// Reads an XTerm modifyOtherKeys report from its parameters.
pub fn parse_xterm_modify_other_keys(pa: &[Param]) -> (e: Event)
    ensures
        e@ == modify_other_keys_spec(pa@),
{
    let xmod: i32 = if pa.len() > 1 { if pa[1].missing { 1 } else { pa[1].value as i32 } } else { 1 };
    let xcode: i32 = if pa.len() > 2 { if pa[2].missing { 1 } else { pa[2].value as i32 } } else { 1 };
    let meta = xterm_mod_of(xmod - 1);
    if xcode == 0x08 || xcode == 0x7f {
        Event::Key(press_mod(Key::Backspace, meta))
    } else if xcode == 0x09 {
        Event::Key(press_mod(Key::Tab, meta))
    } else if xcode == 0x0d {
        Event::Key(press_mod(Key::Enter, meta))
    } else if xcode == 0x1b {
        Event::Key(press_mod(Key::Escape, meta))
    } else {
        let c = match char_from_u32(xcode as u32) {
            Some(c) => c,
            None => '\u{FFFD}',
        };
        let mut k = press_mod(Key::Char(c), meta);
        if meta == 0 || meta == 1 {
            let mut t = String::new();
            string_push(&mut t, c);
            k.text = Some(t);
        }
        Event::Key(k)
    }
}

} // verus!
