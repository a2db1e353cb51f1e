//! Keys, key events and the key tables of terminal input.
use vstd::prelude::*;
use crate::events::Meta;

verus! {

/// A key on the keyboard, as terminal input reports it.
#[derive(Clone, Copy, Debug, PartialEq, Eq, Structural)]
pub enum Key {
    Char(char),
    Extended,
    Space,
    Backspace,
    Tab,
    Enter,
    Escape,
    Insert,
    Delete,
    Left,
    Right,
    Up,
    Down,
    PageUp,
    PageDown,
    Home,
    End,
    Begin,
    Find,
    Select,
    CapsLock,
    ScrollLock,
    NumLock,
    PrintScreen,
    Pause,
    Menu,
    F(u8),
    Kp(u8),
    KpDecimal,
    KpDivide,
    KpMultiply,
    KpMinus,
    KpPlus,
    KpEnter,
    KpEqual,
    KpSep,
    KpComma,
    KpLeft,
    KpRight,
    KpUp,
    KpDown,
    KpPageUp,
    KpPageDown,
    KpHome,
    KpEnd,
    KpInsert,
    KpDelete,
    KpBegin,
    MediaPlay,
    MediaPause,
    MediaPlayPause,
    MediaReverse,
    MediaStop,
    MediaFastForward,
    MediaRewind,
    MediaNext,
    MediaPrev,
    MediaRecord,
    LowerVolume,
    RaiseVolume,
    Mute,
    LeftShift,
    LeftCtrl,
    LeftAlt,
    LeftSuper,
    LeftHyper,
    LeftMeta,
    RightShift,
    RightCtrl,
    RightAlt,
    RightSuper,
    RightHyper,
    RightMeta,
    IsoLevel3Shift,
    IsoLevel5Shift,
}

/// Whether a key went down, repeats, or went up.
#[derive(Clone, Copy, Debug, PartialEq, Eq, Structural)]
pub enum KeyKind {
    Press,
    Repeat,
    Release,
}

/// The Kitty keyboard protocol modifier bits, as [`Meta`] bits: Shift,
/// Alt, Ctrl, Super, Hyper, Meta, Caps Lock and Num Lock.
pub open spec fn kitty_mod_spec(m: i32) -> u16 {
    ((if m & 1 != 0 { 1int } else { 0 }) + (if m & 2 != 0 { 4int } else { 0 }) + (if m & 4 != 0 { 2int } else { 0 })
        + (if m & 8 != 0 { 8int } else { 0 }) + (if m & 16 != 0 { 16int } else { 0 }) + (if m & 32 != 0 { 32int } else { 0 })
        + (if m & 64 != 0 { 64int } else { 0 }) + (if m & 128 != 0 { 128int } else { 0 })) as u16
}

/// The modifiers of a Kitty keyboard protocol modifier field (already
/// decremented by one).
pub fn from_kitty_mod(m: i32) -> (r: Meta)
    ensures
        r.bits == kitty_mod_spec(m),
{
    let mut bits: u16 = 0;
    if m & 1 != 0 {
        bits = bits + 1;
    }
    if m & 2 != 0 {
        bits = bits + 4;
    }
    if m & 4 != 0 {
        bits = bits + 2;
    }
    if m & 8 != 0 {
        bits = bits + 8;
    }
    if m & 16 != 0 {
        bits = bits + 16;
    }
    if m & 32 != 0 {
        bits = bits + 32;
    }
    if m & 64 != 0 {
        bits = bits + 64;
    }
    if m & 128 != 0 {
        bits = bits + 128;
    }
    Meta { bits }
}

/// The Kitty keyboard protocol's functional key codes, with the C0 codes
/// some terminals send in their place (read as Ctrl and a letter).
pub open spec fn kitty_key_spec(code: u32) -> Option<(Key, Meta)> {
    if code == 8 {
        Some((Key::Backspace, Meta { bits: 0 }))
    } else if code == 9 {
        Some((Key::Tab, Meta { bits: 0 }))
    } else if code == 13 {
        Some((Key::Enter, Meta { bits: 0 }))
    } else if code == 27 {
        Some((Key::Escape, Meta { bits: 0 }))
    } else if code == 127 {
        Some((Key::Backspace, Meta { bits: 0 }))
    } else if code == 0 {
        Some((Key::Space, Meta { bits: 2 }))
    } else if (1 <= code <= 7 || 0x0A <= code <= 0x0C || 0x0E <= code <= 0x1A) {
        Some((Key::Char((code + 0x60) as char), Meta { bits: 2 }))
    } else if 0x1C <= code <= 0x1F {
        Some((Key::Char((code + 0x40) as char), Meta { bits: 2 }))
    } else if code == 57344 {
        Some((Key::Escape, Meta { bits: 0 }))
    } else if code == 57345 {
        Some((Key::Enter, Meta { bits: 0 }))
    } else if code == 57346 {
        Some((Key::Tab, Meta { bits: 0 }))
    } else if code == 57347 {
        Some((Key::Backspace, Meta { bits: 0 }))
    } else if code == 57348 {
        Some((Key::Insert, Meta { bits: 0 }))
    } else if code == 57349 {
        Some((Key::Delete, Meta { bits: 0 }))
    } else if code == 57350 {
        Some((Key::Left, Meta { bits: 0 }))
    } else if code == 57351 {
        Some((Key::Right, Meta { bits: 0 }))
    } else if code == 57352 {
        Some((Key::Up, Meta { bits: 0 }))
    } else if code == 57353 {
        Some((Key::Down, Meta { bits: 0 }))
    } else if code == 57354 {
        Some((Key::PageUp, Meta { bits: 0 }))
    } else if code == 57355 {
        Some((Key::PageDown, Meta { bits: 0 }))
    } else if code == 57356 {
        Some((Key::Home, Meta { bits: 0 }))
    } else if code == 57357 {
        Some((Key::End, Meta { bits: 0 }))
    } else if code == 57358 {
        Some((Key::CapsLock, Meta { bits: 0 }))
    } else if code == 57359 {
        Some((Key::ScrollLock, Meta { bits: 0 }))
    } else if code == 57360 {
        Some((Key::NumLock, Meta { bits: 0 }))
    } else if code == 57361 {
        Some((Key::PrintScreen, Meta { bits: 0 }))
    } else if code == 57362 {
        Some((Key::Pause, Meta { bits: 0 }))
    } else if code == 57363 {
        Some((Key::Menu, Meta { bits: 0 }))
    } else if 57364 <= code <= 57398 {
        Some((Key::F((code - 57363) as u8), Meta { bits: 0 }))
    } else if 57399 <= code <= 57408 {
        Some((Key::Kp((code - 57399) as u8), Meta { bits: 0 }))
    } else if code == 57409 {
        Some((Key::KpDecimal, Meta { bits: 0 }))
    } else if code == 57410 {
        Some((Key::KpDivide, Meta { bits: 0 }))
    } else if code == 57411 {
        Some((Key::KpMultiply, Meta { bits: 0 }))
    } else if code == 57412 {
        Some((Key::KpMinus, Meta { bits: 0 }))
    } else if code == 57413 {
        Some((Key::KpPlus, Meta { bits: 0 }))
    } else if code == 57414 {
        Some((Key::KpEnter, Meta { bits: 0 }))
    } else if code == 57415 {
        Some((Key::KpEqual, Meta { bits: 0 }))
    } else if code == 57416 {
        Some((Key::KpSep, Meta { bits: 0 }))
    } else if code == 57417 {
        Some((Key::KpLeft, Meta { bits: 0 }))
    } else if code == 57418 {
        Some((Key::KpRight, Meta { bits: 0 }))
    } else if code == 57419 {
        Some((Key::KpUp, Meta { bits: 0 }))
    } else if code == 57420 {
        Some((Key::KpDown, Meta { bits: 0 }))
    } else if code == 57421 {
        Some((Key::KpPageUp, Meta { bits: 0 }))
    } else if code == 57422 {
        Some((Key::KpPageDown, Meta { bits: 0 }))
    } else if code == 57423 {
        Some((Key::KpHome, Meta { bits: 0 }))
    } else if code == 57424 {
        Some((Key::KpEnd, Meta { bits: 0 }))
    } else if code == 57425 {
        Some((Key::KpInsert, Meta { bits: 0 }))
    } else if code == 57426 {
        Some((Key::KpDelete, Meta { bits: 0 }))
    } else if code == 57427 {
        Some((Key::KpBegin, Meta { bits: 0 }))
    } else if code == 57428 {
        Some((Key::MediaPlay, Meta { bits: 0 }))
    } else if code == 57429 {
        Some((Key::MediaPause, Meta { bits: 0 }))
    } else if code == 57430 {
        Some((Key::MediaPlayPause, Meta { bits: 0 }))
    } else if code == 57431 {
        Some((Key::MediaReverse, Meta { bits: 0 }))
    } else if code == 57432 {
        Some((Key::MediaStop, Meta { bits: 0 }))
    } else if code == 57433 {
        Some((Key::MediaFastForward, Meta { bits: 0 }))
    } else if code == 57434 {
        Some((Key::MediaRewind, Meta { bits: 0 }))
    } else if code == 57435 {
        Some((Key::MediaNext, Meta { bits: 0 }))
    } else if code == 57436 {
        Some((Key::MediaPrev, Meta { bits: 0 }))
    } else if code == 57437 {
        Some((Key::MediaRecord, Meta { bits: 0 }))
    } else if code == 57438 {
        Some((Key::LowerVolume, Meta { bits: 0 }))
    } else if code == 57439 {
        Some((Key::RaiseVolume, Meta { bits: 0 }))
    } else if code == 57440 {
        Some((Key::Mute, Meta { bits: 0 }))
    } else if code == 57441 {
        Some((Key::LeftShift, Meta { bits: 0 }))
    } else if code == 57442 {
        Some((Key::LeftCtrl, Meta { bits: 0 }))
    } else if code == 57443 {
        Some((Key::LeftAlt, Meta { bits: 0 }))
    } else if code == 57444 {
        Some((Key::LeftSuper, Meta { bits: 0 }))
    } else if code == 57445 {
        Some((Key::LeftHyper, Meta { bits: 0 }))
    } else if code == 57446 {
        Some((Key::LeftMeta, Meta { bits: 0 }))
    } else if code == 57447 {
        Some((Key::RightShift, Meta { bits: 0 }))
    } else if code == 57448 {
        Some((Key::RightCtrl, Meta { bits: 0 }))
    } else if code == 57449 {
        Some((Key::RightAlt, Meta { bits: 0 }))
    } else if code == 57450 {
        Some((Key::RightSuper, Meta { bits: 0 }))
    } else if code == 57451 {
        Some((Key::RightHyper, Meta { bits: 0 }))
    } else if code == 57452 {
        Some((Key::RightMeta, Meta { bits: 0 }))
    } else if code == 57453 {
        Some((Key::IsoLevel3Shift, Meta { bits: 0 }))
    } else if code == 57454 {
        Some((Key::IsoLevel5Shift, Meta { bits: 0 }))
    } else {
        None
    }
}

/// The key and modifiers of a Kitty keyboard protocol key code, if it is one
/// of the functional keys or a C0 code.
pub fn kitty_key(code: u32) -> (r: Option<(Key, Meta)>)
    ensures
        r == kitty_key_spec(code),
{
    if code == 8 {
        Some((Key::Backspace, Meta { bits: 0 }))
    } else if code == 9 {
        Some((Key::Tab, Meta { bits: 0 }))
    } else if code == 13 {
        Some((Key::Enter, Meta { bits: 0 }))
    } else if code == 27 {
        Some((Key::Escape, Meta { bits: 0 }))
    } else if code == 127 {
        Some((Key::Backspace, Meta { bits: 0 }))
    } else if code == 0 {
        Some((Key::Space, Meta { bits: 2 }))
    } else if ((1 <= code && code <= 7) || (0x0A <= code && code <= 0x0C) || (0x0E <= code && code <= 0x1A)) {
        Some((Key::Char(((code as u8) + 0x60) as char), Meta { bits: 2 }))
    } else if (0x1C <= code && code <= 0x1F) {
        Some((Key::Char(((code as u8) + 0x40) as char), Meta { bits: 2 }))
    } else if code == 57344 {
        Some((Key::Escape, Meta { bits: 0 }))
    } else if code == 57345 {
        Some((Key::Enter, Meta { bits: 0 }))
    } else if code == 57346 {
        Some((Key::Tab, Meta { bits: 0 }))
    } else if code == 57347 {
        Some((Key::Backspace, Meta { bits: 0 }))
    } else if code == 57348 {
        Some((Key::Insert, Meta { bits: 0 }))
    } else if code == 57349 {
        Some((Key::Delete, Meta { bits: 0 }))
    } else if code == 57350 {
        Some((Key::Left, Meta { bits: 0 }))
    } else if code == 57351 {
        Some((Key::Right, Meta { bits: 0 }))
    } else if code == 57352 {
        Some((Key::Up, Meta { bits: 0 }))
    } else if code == 57353 {
        Some((Key::Down, Meta { bits: 0 }))
    } else if code == 57354 {
        Some((Key::PageUp, Meta { bits: 0 }))
    } else if code == 57355 {
        Some((Key::PageDown, Meta { bits: 0 }))
    } else if code == 57356 {
        Some((Key::Home, Meta { bits: 0 }))
    } else if code == 57357 {
        Some((Key::End, Meta { bits: 0 }))
    } else if code == 57358 {
        Some((Key::CapsLock, Meta { bits: 0 }))
    } else if code == 57359 {
        Some((Key::ScrollLock, Meta { bits: 0 }))
    } else if code == 57360 {
        Some((Key::NumLock, Meta { bits: 0 }))
    } else if code == 57361 {
        Some((Key::PrintScreen, Meta { bits: 0 }))
    } else if code == 57362 {
        Some((Key::Pause, Meta { bits: 0 }))
    } else if code == 57363 {
        Some((Key::Menu, Meta { bits: 0 }))
    } else if (57364 <= code && code <= 57398) {
        Some((Key::F((code - 57363) as u8), Meta { bits: 0 }))
    } else if (57399 <= code && code <= 57408) {
        Some((Key::Kp((code - 57399) as u8), Meta { bits: 0 }))
    } else if code == 57409 {
        Some((Key::KpDecimal, Meta { bits: 0 }))
    } else if code == 57410 {
        Some((Key::KpDivide, Meta { bits: 0 }))
    } else if code == 57411 {
        Some((Key::KpMultiply, Meta { bits: 0 }))
    } else if code == 57412 {
        Some((Key::KpMinus, Meta { bits: 0 }))
    } else if code == 57413 {
        Some((Key::KpPlus, Meta { bits: 0 }))
    } else if code == 57414 {
        Some((Key::KpEnter, Meta { bits: 0 }))
    } else if code == 57415 {
        Some((Key::KpEqual, Meta { bits: 0 }))
    } else if code == 57416 {
        Some((Key::KpSep, Meta { bits: 0 }))
    } else if code == 57417 {
        Some((Key::KpLeft, Meta { bits: 0 }))
    } else if code == 57418 {
        Some((Key::KpRight, Meta { bits: 0 }))
    } else if code == 57419 {
        Some((Key::KpUp, Meta { bits: 0 }))
    } else if code == 57420 {
        Some((Key::KpDown, Meta { bits: 0 }))
    } else if code == 57421 {
        Some((Key::KpPageUp, Meta { bits: 0 }))
    } else if code == 57422 {
        Some((Key::KpPageDown, Meta { bits: 0 }))
    } else if code == 57423 {
        Some((Key::KpHome, Meta { bits: 0 }))
    } else if code == 57424 {
        Some((Key::KpEnd, Meta { bits: 0 }))
    } else if code == 57425 {
        Some((Key::KpInsert, Meta { bits: 0 }))
    } else if code == 57426 {
        Some((Key::KpDelete, Meta { bits: 0 }))
    } else if code == 57427 {
        Some((Key::KpBegin, Meta { bits: 0 }))
    } else if code == 57428 {
        Some((Key::MediaPlay, Meta { bits: 0 }))
    } else if code == 57429 {
        Some((Key::MediaPause, Meta { bits: 0 }))
    } else if code == 57430 {
        Some((Key::MediaPlayPause, Meta { bits: 0 }))
    } else if code == 57431 {
        Some((Key::MediaReverse, Meta { bits: 0 }))
    } else if code == 57432 {
        Some((Key::MediaStop, Meta { bits: 0 }))
    } else if code == 57433 {
        Some((Key::MediaFastForward, Meta { bits: 0 }))
    } else if code == 57434 {
        Some((Key::MediaRewind, Meta { bits: 0 }))
    } else if code == 57435 {
        Some((Key::MediaNext, Meta { bits: 0 }))
    } else if code == 57436 {
        Some((Key::MediaPrev, Meta { bits: 0 }))
    } else if code == 57437 {
        Some((Key::MediaRecord, Meta { bits: 0 }))
    } else if code == 57438 {
        Some((Key::LowerVolume, Meta { bits: 0 }))
    } else if code == 57439 {
        Some((Key::RaiseVolume, Meta { bits: 0 }))
    } else if code == 57440 {
        Some((Key::Mute, Meta { bits: 0 }))
    } else if code == 57441 {
        Some((Key::LeftShift, Meta { bits: 0 }))
    } else if code == 57442 {
        Some((Key::LeftCtrl, Meta { bits: 0 }))
    } else if code == 57443 {
        Some((Key::LeftAlt, Meta { bits: 0 }))
    } else if code == 57444 {
        Some((Key::LeftSuper, Meta { bits: 0 }))
    } else if code == 57445 {
        Some((Key::LeftHyper, Meta { bits: 0 }))
    } else if code == 57446 {
        Some((Key::LeftMeta, Meta { bits: 0 }))
    } else if code == 57447 {
        Some((Key::RightShift, Meta { bits: 0 }))
    } else if code == 57448 {
        Some((Key::RightCtrl, Meta { bits: 0 }))
    } else if code == 57449 {
        Some((Key::RightAlt, Meta { bits: 0 }))
    } else if code == 57450 {
        Some((Key::RightSuper, Meta { bits: 0 }))
    } else if code == 57451 {
        Some((Key::RightHyper, Meta { bits: 0 }))
    } else if code == 57452 {
        Some((Key::RightMeta, Meta { bits: 0 }))
    } else if code == 57453 {
        Some((Key::IsoLevel3Shift, Meta { bits: 0 }))
    } else if code == 57454 {
        Some((Key::IsoLevel5Shift, Meta { bits: 0 }))
    } else {
        None
    }
}

/// The Kitty modifier field (less one) is a bit set: Shift 1, Alt 2,
/// Ctrl 4, Super 8, Hyper 16, Meta 32, Caps Lock 64, Num Lock 128; each
/// flag set in it gives the same modifier, in the library's bits (Shift 1,
/// Ctrl 2, Alt 4, Super 8, Hyper 16, Meta 32, Caps Lock 64, Num Lock 128).
pub proof fn lemma_kitty_modifiers(shift: bool, alt: bool, ctrl: bool, sup: bool, hyper: bool, meta: bool, caps: bool, num: bool)
    ensures
        kitty_mod_spec(((if shift { 1int } else { 0 }) + (if alt { 2int } else { 0 }) + (if ctrl { 4int } else { 0 })
            + (if sup { 8int } else { 0 }) + (if hyper { 16int } else { 0 }) + (if meta { 32int } else { 0 })
            + (if caps { 64int } else { 0 }) + (if num { 128int } else { 0 })) as i32)
            == ((if shift { 1int } else { 0 }) + (if ctrl { 2int } else { 0 }) + (if alt { 4int } else { 0 })
            + (if sup { 8int } else { 0 }) + (if hyper { 16int } else { 0 }) + (if meta { 32int } else { 0 })
            + (if caps { 64int } else { 0 }) + (if num { 128int } else { 0 })) as u16,
{
    let s: i32 = if shift { 1 } else { 0 };
    let a: i32 = if alt { 1 } else { 0 };
    let c: i32 = if ctrl { 1 } else { 0 };
    let u: i32 = if sup { 1 } else { 0 };
    let h: i32 = if hyper { 1 } else { 0 };
    let me: i32 = if meta { 1 } else { 0 };
    let cl: i32 = if caps { 1 } else { 0 };
    let nl: i32 = if num { 1 } else { 0 };
    let m: i32 = (s + 2 * a + 4 * c + 8 * u + 16 * h + 32 * me + 64 * cl + 128 * nl) as i32;
    assert(m == ((if shift { 1int } else { 0 }) + (if alt { 2int } else { 0 }) + (if ctrl { 4int } else { 0 })
            + (if sup { 8int } else { 0 }) + (if hyper { 16int } else { 0 }) + (if meta { 32int } else { 0 })
            + (if caps { 64int } else { 0 }) + (if num { 128int } else { 0 })) as i32);
    assert(((m & 1) != 0 <==> s == 1) && ((m & 2) != 0 <==> a == 1) && ((m & 4) != 0 <==> c == 1)
        && ((m & 8) != 0 <==> u == 1) && ((m & 16) != 0 <==> h == 1) && ((m & 32) != 0 <==> me == 1)
        && ((m & 64) != 0 <==> cl == 1) && ((m & 128) != 0 <==> nl == 1)) by (bit_vector)
        requires
            0 <= s <= 1, 0 <= a <= 1, 0 <= c <= 1, 0 <= u <= 1, 0 <= h <= 1, 0 <= me <= 1, 0 <= cl <= 1, 0 <= nl <= 1,
            m == s + 2 * a + 4 * c + 8 * u + 16 * h + 32 * me + 64 * cl + 128 * nl;
}

/// The Kitty protocol's functional key codes: 57344 to 57363 are Escape,
/// Enter, Tab, Backspace, Insert, Delete, Left, Right, Up, Down, Page Up,
/// Page Down, Home, End, Caps Lock, Scroll Lock, Num Lock, Print Screen,
/// Pause and Menu; 57364 on are F1 to F35, then the keypad digits 0 to 9;
/// the C0 codes of letters are Ctrl and the letter; and printable codes
/// are not functional keys.
pub proof fn lemma_kitty_functional_keys(code: u32)
    ensures
        kitty_key_spec(57344) == Some((Key::Escape, Meta { bits: 0 })),
        kitty_key_spec(57345) == Some((Key::Enter, Meta { bits: 0 })),
        kitty_key_spec(57346) == Some((Key::Tab, Meta { bits: 0 })),
        kitty_key_spec(57347) == Some((Key::Backspace, Meta { bits: 0 })),
        kitty_key_spec(57348) == Some((Key::Insert, Meta { bits: 0 })),
        kitty_key_spec(57349) == Some((Key::Delete, Meta { bits: 0 })),
        kitty_key_spec(57350) == Some((Key::Left, Meta { bits: 0 })),
        kitty_key_spec(57351) == Some((Key::Right, Meta { bits: 0 })),
        kitty_key_spec(57352) == Some((Key::Up, Meta { bits: 0 })),
        kitty_key_spec(57353) == Some((Key::Down, Meta { bits: 0 })),
        kitty_key_spec(57354) == Some((Key::PageUp, Meta { bits: 0 })),
        kitty_key_spec(57355) == Some((Key::PageDown, Meta { bits: 0 })),
        kitty_key_spec(57356) == Some((Key::Home, Meta { bits: 0 })),
        kitty_key_spec(57357) == Some((Key::End, Meta { bits: 0 })),
        kitty_key_spec(57358) == Some((Key::CapsLock, Meta { bits: 0 })),
        kitty_key_spec(57359) == Some((Key::ScrollLock, Meta { bits: 0 })),
        kitty_key_spec(57360) == Some((Key::NumLock, Meta { bits: 0 })),
        kitty_key_spec(57361) == Some((Key::PrintScreen, Meta { bits: 0 })),
        kitty_key_spec(57362) == Some((Key::Pause, Meta { bits: 0 })),
        kitty_key_spec(57363) == Some((Key::Menu, Meta { bits: 0 })),
        57364 <= code <= 57398 ==> kitty_key_spec(code) == Some((Key::F((code - 57363) as u8), Meta { bits: 0 })),
        57399 <= code <= 57408 ==> kitty_key_spec(code) == Some((Key::Kp((code - 57399) as u8), Meta { bits: 0 })),
        (0x61 <= code <= 0x7a && code != 0x68 && code != 0x69 && code != 0x6d) ==> kitty_key_spec((code - 0x60) as u32) == Some((Key::Char(code as char), Meta { bits: 2 })),
        0x20 < code < 0x7f ==> kitty_key_spec(code) is None,
{
}

} // verus!
