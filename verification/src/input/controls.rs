//! C0 control codes read as keys.
use vstd::prelude::*;
use crate::events::Meta;
use crate::params::string_push;
use super::keys::{Key, KeyKind};
use super::decode::{Decoder, Event, EventView, KeyEvent, KeyEventView, ESC, press_mod, press_mod_spec};

verus! {

/// Ctrl+Space and Ctrl+@ are one key: NUL reads as Ctrl+@.
pub const FLAG_CTRL_AT: u32 = 1;
/// Tab and Ctrl+I are one key: HT reads as Ctrl+i.
pub const FLAG_CTRL_I: u32 = 2;
/// Enter and Ctrl+M are one key: CR reads as Ctrl+m.
pub const FLAG_CTRL_M: u32 = 4;
/// Escape and Ctrl+[ are one key: ESC reads as Ctrl+[.
pub const FLAG_CTRL_OPEN_BRACKET: u32 = 8;
/// DEL is the Delete key rather than Backspace.
pub const FLAG_BACKSPACE: u32 = 16;
/// `CSI 1 ~` is Find rather than Home.
pub const FLAG_FIND: u32 = 32;
/// `CSI 4 ~` is Select rather than End.
pub const FLAG_SELECT: u32 = 64;


/// The key event a control byte stands for, under the decoder's `flags`:
/// letters are lowercase, controls without a key of their own are Ctrl and
/// a character, and bytes that are not controls are unknown.
pub open spec fn control_spec(flags: u32, b: u8) -> EventView {
    if b == 0x00 {
        if flags & FLAG_CTRL_AT != 0 {
            EventView::Key(press_mod_spec(Key::Char('@'), 2))
        } else {
            EventView::Key(press_mod_spec(Key::Space, 2))
        }
    } else if b == 0x08 {
        EventView::Key(press_mod_spec(Key::Char('h'), 2))
    } else if b == 0x09 {
        if flags & FLAG_CTRL_I != 0 {
            EventView::Key(press_mod_spec(Key::Char('i'), 2))
        } else {
            EventView::Key(press_mod_spec(Key::Tab, 0))
        }
    } else if b == 0x0d {
        if flags & FLAG_CTRL_M != 0 {
            EventView::Key(press_mod_spec(Key::Char('m'), 2))
        } else {
            EventView::Key(press_mod_spec(Key::Enter, 0))
        }
    } else if b == ESC {
        if flags & FLAG_CTRL_OPEN_BRACKET != 0 {
            EventView::Key(press_mod_spec(Key::Char('['), 2))
        } else {
            EventView::Key(press_mod_spec(Key::Escape, 0))
        }
    } else if b == 0x7f {
        if flags & FLAG_BACKSPACE != 0 {
            EventView::Key(press_mod_spec(Key::Delete, 0))
        } else {
            EventView::Key(press_mod_spec(Key::Backspace, 0))
        }
    } else if b == 0x20 {
        EventView::Key(KeyEventView { text: Some(seq![' ']), ..press_mod_spec(Key::Space, 0) })
    } else if 0x01 <= b <= 0x1a {
        EventView::Key(press_mod_spec(Key::Char((b + 0x60) as char), 2))
    } else if 0x1c <= b <= 0x1f {
        EventView::Key(press_mod_spec(Key::Char((b + 0x40) as char), 2))
    } else {
        EventView::Unknown(seq![b])
    }
}

impl Decoder {
    /// The key event of a control byte (C0, DEL or space).
    pub fn parse_control(&self, b: u8) -> (e: Event)
        ensures
            e@ == control_spec(self.flags, b),
    {
        if b == 0x00 {
            if self.flags & FLAG_CTRL_AT != 0 {
                Event::Key(press_mod(Key::Char('@'), 2))
            } else {
                Event::Key(press_mod(Key::Space, 2))
            }
        } else if b == 0x08 {
            Event::Key(press_mod(Key::Char('h'), 2))
        } else if b == 0x09 {
            if self.flags & FLAG_CTRL_I != 0 {
                Event::Key(press_mod(Key::Char('i'), 2))
            } else {
                Event::Key(press_mod(Key::Tab, 0))
            }
        } else if b == 0x0d {
            if self.flags & FLAG_CTRL_M != 0 {
                Event::Key(press_mod(Key::Char('m'), 2))
            } else {
                Event::Key(press_mod(Key::Enter, 0))
            }
        } else if b == ESC {
            if self.flags & FLAG_CTRL_OPEN_BRACKET != 0 {
                Event::Key(press_mod(Key::Char('['), 2))
            } else {
                Event::Key(press_mod(Key::Escape, 0))
            }
        } else if b == 0x7f {
            if self.flags & FLAG_BACKSPACE != 0 {
                Event::Key(press_mod(Key::Delete, 0))
            } else {
                Event::Key(press_mod(Key::Backspace, 0))
            }
        } else if b == 0x20 {
            let mut t = String::new();
            string_push(&mut t, ' ');
            Event::Key(KeyEvent {
                key: Key::Space,
                kind: KeyKind::Press,
                meta: Meta { bits: 0 },
                text: Some(t),
                shifted_key: None,
                base_key: None,
            })
        } else if 0x01 <= b && b <= 0x1a {
            Event::Key(press_mod(Key::Char((b + 0x60) as char), 2))
        } else if 0x1c <= b && b <= 0x1f {
            Event::Key(press_mod(Key::Char((b + 0x40) as char), 2))
        } else {
            let mut v: Vec<u8> = Vec::new();
            v.push(b);
            proof { assert(v@ =~= seq![b]); }
            Event::Unknown(v)
        }
    }
}

/// Control bytes are Ctrl and the key that sends them: 0x01 to 0x1A are
/// Ctrl+a to Ctrl+z and 0x1C to 0x1F Ctrl+\\, Ctrl+], Ctrl+^ and Ctrl+_
/// (BS, HT and CR aside); BS is Ctrl+h; HT is Tab, CR Enter, ESC Escape
/// and NUL Ctrl+Space unless the decoder is told to read them as Ctrl+i,
/// Ctrl+m, Ctrl+[ and Ctrl+@; DEL is Backspace (Delete with the flag);
/// space types itself.
pub proof fn lemma_control_keys(flags: u32, letter: u8)
    requires
        (0x61 <= letter <= 0x7a && letter != 0x68 && letter != 0x69 && letter != 0x6d) || (0x5c <= letter <= 0x5f),
    ensures
        control_spec(flags, (letter & 0x1f) as u8) == EventView::Key(press_mod_spec(Key::Char(letter as char), 2)),
        control_spec(flags, 0x08) == EventView::Key(press_mod_spec(Key::Char('h'), 2)),
        control_spec(0, 0x09) == EventView::Key(press_mod_spec(Key::Tab, 0)),
        control_spec(FLAG_CTRL_I, 0x09) == EventView::Key(press_mod_spec(Key::Char('i'), 2)),
        control_spec(0, 0x0d) == EventView::Key(press_mod_spec(Key::Enter, 0)),
        control_spec(FLAG_CTRL_M, 0x0d) == EventView::Key(press_mod_spec(Key::Char('m'), 2)),
        control_spec(0, 0x1b) == EventView::Key(press_mod_spec(Key::Escape, 0)),
        control_spec(FLAG_CTRL_OPEN_BRACKET, 0x1b) == EventView::Key(press_mod_spec(Key::Char('['), 2)),
        control_spec(0, 0x00) == EventView::Key(press_mod_spec(Key::Space, 2)),
        control_spec(FLAG_CTRL_AT, 0x00) == EventView::Key(press_mod_spec(Key::Char('@'), 2)),
        control_spec(0, 0x7f) == EventView::Key(press_mod_spec(Key::Backspace, 0)),
        control_spec(FLAG_BACKSPACE, 0x7f) == EventView::Key(press_mod_spec(Key::Delete, 0)),
        control_spec(flags, 0x20) == EventView::Key(KeyEventView { text: Some(seq![' ']), ..press_mod_spec(Key::Space, 0) }),
{
    assert((0x61 <= letter <= 0x7a ==> (letter & 0x1f) as int == letter - 0x60)
        && (0x5c <= letter <= 0x5f ==> (letter & 0x1f) as int == letter - 0x40)
        && (1u32 & FLAG_CTRL_AT) != 0 && (2u32 & FLAG_CTRL_I) != 0 && (4u32 & FLAG_CTRL_M) != 0
        && (8u32 & FLAG_CTRL_OPEN_BRACKET) != 0 && (16u32 & FLAG_BACKSPACE) != 0
        && (0u32 & FLAG_CTRL_AT) == 0 && (0u32 & FLAG_CTRL_I) == 0 && (0u32 & FLAG_CTRL_M) == 0
        && (0u32 & FLAG_CTRL_OPEN_BRACKET) == 0 && (0u32 & FLAG_BACKSPACE) == 0) by (bit_vector);
}

} // verus!
