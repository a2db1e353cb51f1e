//! The Kitty keyboard protocol: `CSI u` key reports.
use vstd::prelude::*;
use vstd::utf8::is_scalar;
use crate::events::Meta;
use crate::params::string_push;
use crate::utf8::decoder::char_from_u32;
use super::keys::{Key, KeyKind, kitty_key, kitty_key_spec, kitty_mod_spec, from_kitty_mod, lemma_kitty_functional_keys};
use super::decode::{Event, EventView, KeyEvent, KeyEventView};

verus! {

/// A numeric parameter of a control sequence: its value, whether it was
/// left out, and whether a `:` sub-parameter follows it.
#[derive(Clone, Copy, Debug, PartialEq, Eq, Structural)]
pub struct Param {
    pub value: u16,
    pub missing: bool,
    pub has_more: bool,
}

/// The value of a parameter, or `default` when it was left out.
pub open spec fn value_or(p: Param, default: int) -> int {
    if p.missing { default } else { p.value as int }
}

impl Param {
    /// The parameter's value, or `default` if it was left out.
    pub fn value_or(self, default: i32) -> (r: i32)
        ensures
            r == value_or(self, default as int),
    {
        if self.missing { default } else { self.value as i32 }
    }
}

/// Whether `c` is a control character (Unicode general category Cc:
/// U+0000 to U+001F and U+007F to U+009F).
pub open spec fn is_control(c: char) -> bool {
    (c as u32) <= 0x1f || (0x7f <= (c as u32) && (c as u32) <= 0x9f)
}

fn is_control_exec(c: char) -> (r: bool)
    ensures
        r == is_control(c),
{
    let v = c as u32;
    v <= 0x1f || (0x7f <= v && v <= 0x9f)
}

/// What `char::to_uppercase` gives for `c`.
pub uninterp spec fn upper_of(c: char) -> Seq<char>;

/// What `char::to_lowercase` gives for `c`.
pub uninterp spec fn lower_of(c: char) -> Seq<char>;

/// `char::to_uppercase`: the uppercase mapping of `c`, one or more
/// characters; the contract only names it.
#[verifier::external_body]
fn char_to_uppercase(c: char) -> (s: String)
    ensures
        s@ == upper_of(c),
{
    c.to_uppercase().collect()
}

/// `char::to_lowercase`: the lowercase mapping of `c`, one or more
/// characters; the contract only names it.
#[verifier::external_body]
fn char_to_lowercase(c: char) -> (s: String)
    ensures
        s@ == lower_of(c),
{
    c.to_lowercase().collect()
}

/// The character with scalar value `code`, or U+FFFD.
pub open spec fn char_or_replacement(code: u32) -> char {
    if is_scalar(code) { code as char } else { '\u{FFFD}' }
}

/// The character with scalar value `code` when it is one and not a control
/// character.
pub open spec fn printable_char(code: int) -> Option<char> {
    let v = code as u32;
    if is_scalar(v) && !is_control(v as char) { Some(v as char) } else { None }
}

/// The text a keypad key types, if it types one.
pub open spec fn keypad_text(key: Key) -> Option<char> {
    match key {
        Key::Kp(n) => Some((0x30 + n) as char),
        Key::KpEqual => Some('='),
        Key::KpMultiply => Some('*'),
        Key::KpPlus => Some('+'),
        Key::KpMinus => Some('-'),
        Key::KpDecimal => Some('.'),
        Key::KpDivide => Some('/'),
        Key::KpSep => Some(','),
        _ => None,
    }
}

/// What a `CSI u` report has said so far: which parameter and
/// sub-parameter comes next, and the key event being built.
pub ghost struct KittyAcc {
    pub param_idx: int,
    pub sub_idx: int,
    pub key: Key,
    pub meta: u16,
    pub kind: KeyKind,
    pub shifted_key: Option<char>,
    pub base_key: Option<char>,
    pub release: bool,
    pub text: Seq<char>,
}

/// Before any parameter: a press of U+FFFD with no modifier.
pub open spec fn kitty_start() -> KittyAcc {
    KittyAcc {
        param_idx: 0,
        sub_idx: 0,
        key: Key::Char('\u{FFFD}'),
        meta: 0,
        kind: KeyKind::Press,
        shifted_key: None,
        base_key: None,
        release: false,
        text: Seq::empty(),
    }
}

/// One parameter of a `CSI u` report: `code:shifted:base ; modifiers:event ;
/// text-codepoints`.
pub open spec fn kitty_step(a: KittyAcc, p: Param) -> KittyAcc {
    let b = if a.param_idx == 0 && a.sub_idx == 0 {
        let code = value_or(p, 1) as u32;
        match kitty_key_spec(code) {
            Some((k, m)) => KittyAcc { key: k, meta: m.bits, ..a },
            None => KittyAcc { key: Key::Char(char_or_replacement(code)), ..a },
        }
    } else if a.param_idx == 0 && a.sub_idx == 1 {
        match printable_char(value_or(p, 1)) {
            Some(s) => KittyAcc { shifted_key: Some(s), ..a },
            None => a,
        }
    } else if a.param_idx == 0 && a.sub_idx == 2 {
        match printable_char(value_or(p, 1)) {
            Some(c) => KittyAcc { base_key: Some(c), ..a },
            None => a,
        }
    } else if a.param_idx == 1 && a.sub_idx == 0 {
        let m = value_or(p, 1);
        if m > 1 {
            let meta = kitty_mod_spec((m - 1) as i32);
            KittyAcc { meta, text: if meta & 0xFFFEu16 != 0 { Seq::empty() } else { a.text }, ..a }
        } else {
            a
        }
    } else if a.param_idx == 1 && a.sub_idx == 1 {
        let v = value_or(p, 1);
        if v == 2 {
            KittyAcc { kind: KeyKind::Repeat, ..a }
        } else if v == 3 {
            KittyAcc { release: true, ..a }
        } else {
            a
        }
    } else if a.param_idx == 2 {
        let code = value_or(p, 0) as u32;
        if code != 0 && is_scalar(code) {
            KittyAcc { text: a.text.push(code as char), ..a }
        } else {
            a
        }
    } else {
        a
    };
    if p.has_more {
        KittyAcc { sub_idx: b.sub_idx + 1, ..b }
    } else {
        KittyAcc { param_idx: b.param_idx + 1, sub_idx: 0, ..b }
    }
}

/// The report after the first `n` parameters.
pub open spec fn kitty_fold(pa: Seq<Param>, n: int) -> KittyAcc
    decreases n,
{
    if n <= 0 {
        kitty_start()
    } else {
        kitty_step(kitty_fold(pa, n - 1), pa[n - 1])
    }
}

/// The text of a key report once all parameters are read: the associated
/// text if there is some; else, when no modifier but Shift or Caps Lock is
/// held, what a keypad key types, or for a printable character: itself
/// with no modifier, the shifted key if reported, else its uppercase with
/// Shift or Caps Lock, else its lowercase.
pub open spec fn kitty_text(a: KittyAcc) -> Seq<char> {
    let key_mod = a.meta & 0xFF7Fu16;
    let print_mod = key_mod == 0 || key_mod == 1 || key_mod == 64 || key_mod == 65;
    let t1 = if a.text.len() == 0 && print_mod && keypad_text(a.key) is Some {
        seq![keypad_text(a.key)->0]
    } else {
        a.text
    };
    match a.key {
        Key::Char(c) => if t1.len() == 0 && print_mod && !is_control(c) {
            if key_mod == 0 {
                seq![c]
            } else if a.shifted_key is Some {
                seq![a.shifted_key->0]
            } else if key_mod & 1 != 0 || key_mod & 64 != 0 {
                upper_of(c)
            } else {
                lower_of(c)
            }
        } else {
            t1
        },
        _ => t1,
    }
}

/// The key event of a `CSI u` report with parameters `pa`.
pub open spec fn kitty_keyboard_spec(pa: Seq<Param>) -> EventView {
    let a = kitty_fold(pa, pa.len() as int);
    let t = kitty_text(a);
    EventView::Key(KeyEventView {
        key: a.key,
        kind: if a.release { KeyKind::Release } else { a.kind },
        meta: Meta { bits: a.meta },
        text: if t.len() == 0 { None } else { Some(t) },
        shifted_key: a.shifted_key,
        base_key: a.base_key,
    })
}

fn push_all(s: &mut String, t: &String)
    ensures
        final(s)@ == old(s)@ + t@,
{
    let mut k: usize = 0;
    let n = t.as_str().unicode_len();
    while k < n
        invariant
            k <= n,
            n == t@.len(),
            s@ == old(s)@ + t@.take(k as int),
        decreases n - k,
    {
        let c = t.as_str().get_char(k);
        string_push(s, c);
        k = k + 1;
        assert(s@ =~= old(s)@ + t@.take(k as int));
    }
    assert(t@.take(k as int) =~= t@);
}

fn printable_exec(code: u16) -> (r: Option<char>)
    ensures
        r == printable_char(code as int),
{
    match char_from_u32(code as u32) {
        Some(c) => if is_control_exec(c) { None } else { Some(c) },
        None => None,
    }
}

/// Reads a Kitty keyboard protocol report (`CSI code:shifted:base ;
/// modifiers:event ; text u`) from its parameters.
pub fn parse_kitty_keyboard(pa: &[Param]) -> (e: Event)
    ensures
        e@ == kitty_keyboard_spec(pa@),
{
    let mut param_idx: usize = 0;
    let mut sub_idx: usize = 0;
    let mut key = Key::Char('\u{FFFD}');
    let mut meta: u16 = 0;
    let mut kind = KeyKind::Press;
    let mut shifted_key: Option<char> = None;
    let mut base_key: Option<char> = None;
    let mut release = false;
    let mut text = String::new();
    let mut k: usize = 0;
    while k < pa.len()
        invariant
            k <= pa@.len(),
            param_idx <= k,
            sub_idx <= k,
            ({
                let a = kitty_fold(pa@, k as int);
                &&& a.param_idx == param_idx
                &&& a.sub_idx == sub_idx
                &&& a.key == key
                &&& a.meta == meta
                &&& a.kind == kind
                &&& a.shifted_key == shifted_key
                &&& a.base_key == base_key
                &&& a.release == release
                &&& a.text == text@
            }),
            key matches Key::Kp(n) ==> n <= 9,
        decreases pa@.len() - k,
    {
        let p = pa[k];
        if param_idx == 0 && sub_idx == 0 {
            let code: u32 = if p.missing { 1 } else { p.value as u32 };
            match kitty_key(code) {
                Some((kk, m)) => {
                    key = kk;
                    meta = m.bits;
                },
                None => {
                    key = Key::Char(
                        match char_from_u32(code) {
                            Some(c) => c,
                            None => '\u{FFFD}',
                        },
                    );
                },
            }
        } else if param_idx == 0 && sub_idx == 1 {
            match printable_exec(if p.missing { 1 } else { p.value }) {
                Some(s) => shifted_key = Some(s),
                None => {},
            }
        } else if param_idx == 0 && sub_idx == 2 {
            match printable_exec(if p.missing { 1 } else { p.value }) {
                Some(c) => base_key = Some(c),
                None => {},
            }
        } else if param_idx == 1 && sub_idx == 0 {
            let m: i32 = if p.missing { 1 } else { p.value as i32 };
            if m > 1 {
                meta = from_kitty_mod(m - 1).bits;
                if meta & 0xFFFE != 0 {
                    text = String::new();
                }
            }
        } else if param_idx == 1 && sub_idx == 1 {
            let v: u16 = if p.missing { 1 } else { p.value };
            if v == 2 {
                kind = KeyKind::Repeat;
            } else if v == 3 {
                release = true;
            }
        } else if param_idx == 2 {
            let code: u32 = if p.missing { 0 } else { p.value as u32 };
            if code != 0 {
                match char_from_u32(code) {
                    Some(c) => string_push(&mut text, c),
                    None => {},
                }
            }
        }
        if p.has_more {
            sub_idx = sub_idx + 1;
        } else {
            param_idx = param_idx + 1;
            sub_idx = 0;
        }
        k = k + 1;
    }
    let key_mod: u16 = meta & 0xFF7F;
    let print_mod = key_mod == 0 || key_mod == 1 || key_mod == 64 || key_mod == 65;
    if text.as_str().unicode_len() == 0 && print_mod {
        let t: Option<char> = match key {
            Key::Kp(n) => Some((0x30 + n) as char),
            Key::KpEqual => Some('='),
            Key::KpMultiply => Some('*'),
            Key::KpPlus => Some('+'),
            Key::KpMinus => Some('-'),
            Key::KpDecimal => Some('.'),
            Key::KpDivide => Some('/'),
            Key::KpSep => Some(','),
            _ => None,
        };
        match t {
            Some(t) => string_push(&mut text, t),
            None => {},
        }
    }
    if text.as_str().unicode_len() == 0 && print_mod {
        match key {
            Key::Char(c) => {
                if !is_control_exec(c) {
                    if key_mod == 0 {
                        string_push(&mut text, c);
                    } else {
                        match shifted_key {
                            Some(s) => string_push(&mut text, s),
                            None => {
                                if key_mod & 1 != 0 || key_mod & 64 != 0 {
                                    let u = char_to_uppercase(c);
                                    push_all(&mut text, &u);
                                } else {
                                    let l = char_to_lowercase(c);
                                    push_all(&mut text, &l);
                                }
                            },
                        }
                    }
                }
            },
            _ => {},
        }
    }
    let ghost a = kitty_fold(pa@, pa@.len() as int);
    proof {
        assert(text@ =~= kitty_text(a));
    }
    let has_text = text.as_str().unicode_len() > 0;
    Event::Key(KeyEvent {
        key,
        kind: if release { KeyKind::Release } else { kind },
        meta: Meta { bits: meta },
        text: if has_text { Some(text) } else { None },
        shifted_key,
        base_key,
    })
}

/// `CSI code u` for a printable ASCII code that names no functional key is
/// a press of that character, typing it; with `; 5` (Ctrl) it types
/// nothing; with `; 1:3` it is the release of the key, and `; 1:2` a
/// repeat.
pub proof fn lemma_kitty_printable_key(code: u16)
    requires
        0x21 <= code <= 0x7e,
    ensures
        kitty_keyboard_spec(seq![Param { value: code, missing: false, has_more: false }]) == EventView::Key(KeyEventView {
            key: Key::Char(code as char),
            kind: KeyKind::Press,
            meta: Meta { bits: 0 },
            text: Some(seq![code as char]),
            shifted_key: None,
            base_key: None,
        }),
        kitty_keyboard_spec(seq![
            Param { value: code, missing: false, has_more: false },
            Param { value: 5, missing: false, has_more: false },
        ]) == EventView::Key(KeyEventView {
            key: Key::Char(code as char),
            kind: KeyKind::Press,
            meta: Meta { bits: 2 },
            text: None,
            shifted_key: None,
            base_key: None,
        }),
        kitty_keyboard_spec(seq![
            Param { value: code, missing: false, has_more: false },
            Param { value: 1, missing: false, has_more: true },
            Param { value: 3, missing: false, has_more: false },
        ]) == EventView::Key(KeyEventView {
            key: Key::Char(code as char),
            kind: KeyKind::Release,
            meta: Meta { bits: 0 },
            text: Some(seq![code as char]),
            shifted_key: None,
            base_key: None,
        }),
        kitty_keyboard_spec(seq![
            Param { value: code, missing: false, has_more: false },
            Param { value: 1, missing: false, has_more: true },
            Param { value: 2, missing: false, has_more: false },
        ]) == EventView::Key(KeyEventView {
            key: Key::Char(code as char),
            kind: KeyKind::Repeat,
            meta: Meta { bits: 0 },
            text: Some(seq![code as char]),
            shifted_key: None,
            base_key: None,
        }),
{
    lemma_kitty_functional_keys(code as u32);
    assert(is_scalar(code as u32));
    assert((4i32 & 1) == 0 && (4i32 & 2) == 0 && (4i32 & 4) != 0 && (4i32 & 8) == 0 && (4i32 & 16) == 0
        && (4i32 & 32) == 0 && (4i32 & 64) == 0 && (4i32 & 128) == 0
        && (0u16 & 0xFF7Fu16) == 0 && (2u16 & 0xFF7Fu16) == 2 && (2u16 & 0xFFFEu16) != 0) by (bit_vector);
    let p0 = Param { value: code, missing: false, has_more: false };
    let a1 = kitty_step(kitty_start(), p0);
    assert(kitty_fold(seq![p0], 0) == kitty_start());
    assert(seq![p0][0] == p0);
    assert(kitty_fold(seq![p0], 1) == a1);
    let p5 = Param { value: 5, missing: false, has_more: false };
    assert(kitty_fold(seq![p0, p5], 0) == kitty_start());
    assert(seq![p0, p5][0] == p0 && seq![p0, p5][1] == p5);
    assert(kitty_fold(seq![p0, p5], 1) == a1);
    assert(kitty_fold(seq![p0, p5], 2) == kitty_step(a1, p5));
    let q1 = Param { value: 1, missing: false, has_more: true };
    let q3 = Param { value: 3, missing: false, has_more: false };
    let q2 = Param { value: 2, missing: false, has_more: false };
    assert(kitty_fold(seq![p0, q1, q3], 0) == kitty_start());
    assert(seq![p0, q1, q3][0] == p0 && seq![p0, q1, q3][1] == q1 && seq![p0, q1, q3][2] == q3);
    assert(kitty_fold(seq![p0, q1, q3], 1) == a1);
    assert(kitty_fold(seq![p0, q1, q3], 2) == kitty_step(a1, q1));
    assert(kitty_fold(seq![p0, q1, q3], 3) == kitty_step(kitty_step(a1, q1), q3));
    assert(kitty_fold(seq![p0, q1, q2], 0) == kitty_start());
    assert(seq![p0, q1, q2][0] == p0 && seq![p0, q1, q2][1] == q1 && seq![p0, q1, q2][2] == q2);
    assert(kitty_fold(seq![p0, q1, q2], 1) == a1);
    assert(kitty_fold(seq![p0, q1, q2], 2) == kitty_step(a1, q1));
    assert(kitty_fold(seq![p0, q1, q2], 3) == kitty_step(kitty_step(a1, q1), q2));
}

} // verus!
