//! Decoding terminal input sequences into events.
use vstd::prelude::*;
use vstd::slice::slice_subrange;
use vstd::slice::slice_to_vec;
use crate::events::{ColorScheme, Meta};
use super::keys::Key;
use super::keys::KeyKind;
use super::mouse::{Point, PointerEvent, ScrollEvent};
use crate::params::string_push;
use crate::utf8::lossy::{lossy_chars, lossy_string};

verus! {

/// ESC.
pub const ESC: u8 = 0x1b;
/// CAN.
pub const CAN: u8 = 0x18;
/// SUB.
pub const SUB: u8 = 0x1a;
/// The 8-bit string terminator.
pub const ST: u8 = 0x9c;
/// The 8-bit start of string.
pub const SOS: u8 = 0x98;
/// The 8-bit privacy message introducer.
pub const PM: u8 = 0x9e;
/// The 8-bit application program command introducer.
pub const APC: u8 = 0x9f;

/// A key event: the key, how it moved, the modifiers, and the text it
/// produces, the shifted key and the base-layout key where known.
#[derive(Clone, Debug, PartialEq, Eq)]
pub struct KeyEvent {
    pub key: Key,
    pub kind: KeyKind,
    pub meta: Meta,
    pub text: Option<String>,
    pub shifted_key: Option<char>,
    pub base_key: Option<char>,
}

/// A [`KeyEvent`] as a mathematical value.
pub ghost struct KeyEventView {
    pub key: Key,
    pub kind: KeyKind,
    pub meta: Meta,
    pub text: Option<Seq<char>>,
    pub shifted_key: Option<char>,
    pub base_key: Option<char>,
}

impl View for KeyEvent {
    type V = KeyEventView;

    open spec fn view(&self) -> KeyEventView {
        KeyEventView {
            key: self.key,
            kind: self.kind,
            meta: self.meta,
            text: match self.text {
                Some(t) => Some(t@),
                None => None,
            },
            shifted_key: self.shifted_key,
            base_key: self.base_key,
        }
    }
}

/// An event decoded from terminal input.
#[derive(Debug, PartialEq, Eq)]
pub enum Event {
    /// A key.
    Key(KeyEvent),
    /// A Kitty graphics protocol reply: its options and payload.
    KittyGraphics { options: Vec<u8>, payload: Vec<u8> },
    /// A sequence that is not understood, with its bytes.
    Unknown(Vec<u8>),
    /// A cancelled sequence, with its bytes.
    Ignored(Vec<u8>),
    /// A capability string reported by the terminal (`name=value;..`).
    Capability(String),
    /// The terminal's name and version.
    TerminalVersion(String),
    /// The tertiary device attributes (the unit ID).
    TertiaryDeviceAttributes(Vec<u8>),
    /// The foreground color the terminal reported, as it spelled it.
    ForegroundColor(Vec<u8>),
    /// The background color the terminal reported, as it spelled it.
    BackgroundColor(Vec<u8>),
    /// The cursor color the terminal reported, as it spelled it.
    CursorColor(Vec<u8>),
    /// A clipboard reply: the selection, and the content decoded.
    Clipboard { selection: Option<char>, content: String },
    /// A mouse wheel turn.
    Scroll(ScrollEvent),
    /// A mouse button press, release or motion.
    Pointer(PointerEvent),
    /// A mode report (DECRPM): the mode and its setting.
    ModeReport { mode: Mode, value: u16 },
    /// The primary device attributes.
    PrimaryDeviceAttributes(Vec<u16>),
    /// The secondary device attributes.
    SecondaryDeviceAttributes(Vec<u16>),
    /// The Kitty keyboard enhancement flags in effect.
    KeyboardEnhancements(i32),
    /// The cursor position, 0-based.
    CursorPosition(Point),
    /// The XTerm modifyOtherKeys level.
    ModifyOtherKeys(u8),
    /// The terminal's color scheme.
    ColorScheme(ColorScheme),
    /// The terminal gained focus.
    Focus,
    /// The terminal lost focus.
    Blur,
    /// Several events from one sequence.
    Multi(Vec<Event>),
    /// A bracketed paste starts.
    PasteStart,
    /// A bracketed paste ends.
    PasteEnd,
    /// The window size in pixels.
    PixelSize(Size),
    /// The size of a character cell in pixels.
    CellSize(Size),
    /// The window size in cells.
    WindowSize(Size),
    /// Another window operation report: the operation and its arguments.
    WindowOp { op: i32, args: Vec<i32> },
}

/// A mode of a mode report: a DEC private mode or an ANSI mode.
#[derive(Clone, Copy, Debug, PartialEq, Eq, Structural)]
pub enum Mode {
    Dec(u16),
    Ansi(u16),
}

/// A width and a height.
#[derive(Clone, Copy, Debug, PartialEq, Eq, Structural)]
pub struct Size {
    pub width: i32,
    pub height: i32,
}

/// An [`Event`] as a mathematical value.
pub ghost enum EventView {
    Key(KeyEventView),
    KittyGraphics(Seq<u8>, Seq<u8>),
    Unknown(Seq<u8>),
    Ignored(Seq<u8>),
    Capability(Seq<char>),
    TerminalVersion(Seq<char>),
    TertiaryDeviceAttributes(Seq<u8>),
    ForegroundColor(Seq<u8>),
    BackgroundColor(Seq<u8>),
    CursorColor(Seq<u8>),
    Clipboard(Option<char>, Seq<char>),
    Scroll(ScrollEvent),
    Pointer(PointerEvent),
    ModeReport(Mode, u16),
    PrimaryDeviceAttributes(Seq<u16>),
    SecondaryDeviceAttributes(Seq<u16>),
    KeyboardEnhancements(i32),
    CursorPosition(Point),
    ModifyOtherKeys(u8),
    ColorScheme(ColorScheme),
    Focus,
    Blur,
    Multi(Seq<Event>),
    PasteStart,
    PasteEnd,
    PixelSize(Size),
    CellSize(Size),
    WindowSize(Size),
    WindowOp(i32, Seq<i32>),
}

impl View for Event {
    type V = EventView;

    open spec fn view(&self) -> EventView {
        match self {
            Event::Key(k) => EventView::Key(k@),
            Event::KittyGraphics { options, payload } => EventView::KittyGraphics(options@, payload@),
            Event::Unknown(b) => EventView::Unknown(b@),
            Event::Ignored(b) => EventView::Ignored(b@),
            Event::Capability(t) => EventView::Capability(t@),
            Event::TerminalVersion(t) => EventView::TerminalVersion(t@),
            Event::TertiaryDeviceAttributes(b) => EventView::TertiaryDeviceAttributes(b@),
            Event::ForegroundColor(b) => EventView::ForegroundColor(b@),
            Event::BackgroundColor(b) => EventView::BackgroundColor(b@),
            Event::CursorColor(b) => EventView::CursorColor(b@),
            Event::Clipboard { selection, content } => EventView::Clipboard(*selection, content@),
            Event::Scroll(e) => EventView::Scroll(*e),
            Event::Pointer(e) => EventView::Pointer(*e),
            Event::ModeReport { mode, value } => EventView::ModeReport(*mode, *value),
            Event::PrimaryDeviceAttributes(a) => EventView::PrimaryDeviceAttributes(a@),
            Event::SecondaryDeviceAttributes(a) => EventView::SecondaryDeviceAttributes(a@),
            Event::KeyboardEnhancements(f) => EventView::KeyboardEnhancements(*f),
            Event::CursorPosition(p) => EventView::CursorPosition(*p),
            Event::ModifyOtherKeys(m) => EventView::ModifyOtherKeys(*m),
            Event::ColorScheme(c) => EventView::ColorScheme(*c),
            Event::Focus => EventView::Focus,
            Event::Blur => EventView::Blur,
            Event::Multi(v) => EventView::Multi(v@),
            Event::PasteStart => EventView::PasteStart,
            Event::PasteEnd => EventView::PasteEnd,
            Event::PixelSize(s) => EventView::PixelSize(*s),
            Event::CellSize(s) => EventView::CellSize(*s),
            Event::WindowSize(s) => EventView::WindowSize(*s),
            Event::WindowOp { op, args } => EventView::WindowOp(*op, args@),
        }
    }
}

/// The view of a decoding result.
pub open spec fn result_view(r: (usize, Option<Event>)) -> (int, Option<EventView>) {
    (r.0 as int, match r.1 {
        Some(e) => Some(e@),
        None => None,
    })
}

/// A key press with modifiers and no text.
pub open spec fn press_mod_spec(key: Key, meta: u16) -> KeyEventView {
    KeyEventView { key, kind: KeyKind::Press, meta: Meta { bits: meta }, text: None, shifted_key: None, base_key: None }
}

pub(crate) fn press_mod(key: Key, bits: u16) -> (k: KeyEvent)
    ensures
        k@ == press_mod_spec(key, bits),
{
    KeyEvent { key, kind: KeyKind::Press, meta: Meta { bits }, text: None, shifted_key: None, base_key: None }
}

/// The lowercase form of an ASCII letter; other bytes stay.
pub open spec fn ascii_lower(b: u8) -> u8 {
    if 0x41 <= b <= 0x5a { (b + 0x20) as u8 } else { b }
}

fn to_ascii_lower(b: u8) -> (r: u8)
    ensures
        r == ascii_lower(b),
{
    if 0x41 <= b && b <= 0x5a { b + 0x20 } else { b }
}

/// A byte that ends the data of a string sequence: ESC, ST, CAN or SUB.
pub open spec fn is_st_stop(x: u8) -> bool {
    x == ESC || x == ST || x == CAN || x == SUB
}

/// The first index from `i` whose byte ends the data of a string sequence,
/// or the length when there is none.
pub open spec fn first_st_stop(b: Seq<u8>, i: int) -> int
    decreases b.len() - i,
{
    if i < 0 || i >= b.len() {
        b.len() as int
    } else if is_st_stop(b[i]) {
        i
    } else {
        first_st_stop(b, i + 1)
    }
}

pub proof fn lemma_first_st_stop(b: Seq<u8>, i: int)
    requires
        0 <= i <= b.len(),
    ensures
        i <= first_st_stop(b, i) <= b.len(),
        first_st_stop(b, i) < b.len() ==> is_st_stop(b[first_st_stop(b, i)]),
    decreases b.len() - i,
{
    if i < b.len() && !is_st_stop(b[i]) {
        lemma_first_st_stop(b, i + 1);
    }
}

/// The first index from `i` holding `x`, or the length when there is none.
pub open spec fn first_of(b: Seq<u8>, x: u8, i: int) -> int
    decreases b.len() - i,
{
    if i < 0 || i >= b.len() {
        b.len() as int
    } else if b[i] == x {
        i
    } else {
        first_of(b, x, i + 1)
    }
}

pub proof fn lemma_first_of(b: Seq<u8>, x: u8, i: int)
    requires
        0 <= i <= b.len(),
    ensures
        i <= first_of(b, x, i) <= b.len(),
    decreases b.len() - i,
{
    if i < b.len() && b[i] != x {
        lemma_first_of(b, x, i + 1);
    }
}

/// The key that a string introducer read as ESC and a letter stands for:
/// Shift+Alt and the lowercase letter for SOS, Alt and the byte for PM and
/// APC.
pub open spec fn st_default_key(intro8: u8, b: Seq<u8>) -> (int, Option<EventView>) {
    if intro8 == SOS {
        (2, Some(EventView::Key(press_mod_spec(Key::Char(ascii_lower(b[1]) as char), 5))))
    } else if intro8 == PM || intro8 == APC {
        (2, Some(EventView::Key(press_mod_spec(Key::Char(b[1] as char), 4))))
    } else {
        (0, None)
    }
}

/// The Kitty graphics reply in the data of an APC string, if it is one: the
/// data starts with `G`; the options run to the first `;`, the payload
/// after it.
pub open spec fn kitty_graphics_spec(data: Seq<u8>) -> Option<EventView> {
    if data.len() > 0 && data[0] == 0x47 {
        let d = data.skip(1);
        let sc = first_of(d, 0x3b, 0);
        Some(EventView::KittyGraphics(
            d.take(sc),
            if sc < d.len() { d.skip(sc + 1) } else { Seq::empty() },
        ))
    } else {
        None
    }
}

/// Where the data of a string sequence starts: after the 8-bit introducer,
/// or after ESC and the 7-bit one.
pub open spec fn st_data_start(intro7: u8, b: Seq<u8>) -> int {
    if 1 < b.len() && b[0] == ESC && b[1] == intro7 { 2 } else { 1 }
}

/// A string sequence (SOS, PM or APC) terminated by ST, read from the start
/// of `b`: how many bytes it takes and the event. The 7-bit ST is `ESC \`;
/// CAN or SUB cancel the sequence; an ESC that is not followed by `\` ends a
/// cancelled sequence, or, right after the introducer, makes the introducer
/// a key. With `graphics`, Kitty graphics replies are read from the data.
pub open spec fn st_spec(intro8: u8, intro7: u8, graphics: bool, b: Seq<u8>) -> (int, Option<EventView>) {
    if b.len() == 2 && b[0] == ESC {
        st_default_key(intro8, b)
    } else {
        let start = st_data_start(intro7, b);
        let end = first_st_stop(b, start);
        if end >= b.len() {
            (end, Some(EventView::Unknown(b.take(end))))
        } else {
            let i = end + 1;
            if b[end] == CAN || b[end] == SUB {
                (i, Some(EventView::Ignored(b.take(i))))
            } else if b[end] == ESC && (i >= b.len() || b[i] != 0x5c) {
                if start == end {
                    st_default_key(intro8, b)
                } else {
                    (i, Some(EventView::Ignored(b.take(i))))
                }
            } else {
                let j = if b[end] == ESC { i + 1 } else { i };
                match (if graphics { kitty_graphics_spec(b.subrange(start, end)) } else { None }) {
                    Some(e) => (j, Some(e)),
                    None => (j, Some(EventView::Unknown(b.take(j)))),
                }
            }
        }
    }
}

fn first_st_stop_exec(b: &[u8], start: usize) -> (e: usize)
    requires
        start <= b@.len(),
    ensures
        e == first_st_stop(b@, start as int),
{
    let mut i = start;
    while i < b.len() && !(b[i] == ESC || b[i] == ST || b[i] == CAN || b[i] == SUB)
        invariant
            start <= i <= b@.len(),
            first_st_stop(b@, start as int) == first_st_stop(b@, i as int),
        decreases b@.len() - i,
    {
        i = i + 1;
    }
    i
}

fn first_of_exec(b: &[u8], x: u8) -> (e: usize)
    ensures
        e == first_of(b@, x, 0),
{
    let mut i: usize = 0;
    while i < b.len() && b[i] != x
        invariant
            i <= b@.len(),
            first_of(b@, x, 0) == first_of(b@, x, i as int),
        decreases b@.len() - i,
    {
        i = i + 1;
    }
    i
}

fn st_default_key_exec(intro8: u8, b: &[u8]) -> (r: (usize, Option<Event>))
    requires
        b@.len() >= 2,
    ensures
        result_view(r) == st_default_key(intro8, b@),
{
    if intro8 == SOS {
        let c = to_ascii_lower(b[1]) as char;
        (2, Some(Event::Key(press_mod(Key::Char(c), 5))))
    } else if intro8 == PM || intro8 == APC {
        (2, Some(Event::Key(press_mod(Key::Char(b[1] as char), 4))))
    } else {
        (0, None)
    }
}

fn kitty_graphics(data: &[u8]) -> (r: Option<Event>)
    ensures
        match r {
            Some(e) => kitty_graphics_spec(data@) == Some(e@),
            None => kitty_graphics_spec(data@) is None,
        },
{
    if data.len() > 0 && data[0] == 0x47 {
        let d = slice_subrange(data, 1, data.len());
        assert(d@ =~= data@.skip(1));
        let sc = first_of_exec(d, 0x3b);
        proof { lemma_first_of(d@, 0x3b, 0); }
        let options = slice_to_vec(slice_subrange(d, 0, sc));
        let payload = if sc < d.len() {
            slice_to_vec(slice_subrange(d, sc + 1, d.len()))
        } else {
            Vec::new()
        };
        proof {
            assert(options@ =~= d@.take(sc as int));
            if sc < d.len() {
                assert(payload@ =~= d@.skip(sc + 1));
            } else {
                assert(payload@ =~= Seq::<u8>::empty());
            }
        }
        Some(Event::KittyGraphics { options, payload })
    } else {
        None
    }
}

/// Terminal input flags (legacy key encodings).
pub struct Decoder {
    pub flags: u32,
}

impl Decoder {
    /// Reads a string sequence (SOS, PM or APC) terminated by ST from the
    /// start of `b`, which starts with the 8-bit introducer `intro8` or ESC;
    /// the 7-bit introducer follows ESC. With `graphics`, the data is read as
    /// a Kitty graphics reply where it is one.
    pub fn parse_st_terminated(&mut self, intro8: u8, intro7: u8, graphics: bool, b: &[u8]) -> (r: (usize, Option<Event>))
        requires
            b@.len() > 0,
            b@[0] == intro8 || b@[0] == ESC,
        ensures
            result_view(r) == st_spec(intro8, intro7, graphics, b@),
            (intro8 == SOS || intro8 == PM || intro8 == APC) ==> 1 <= r.0 && r.1 is Some,
            r.0 <= b@.len(),
            *final(self) == *old(self),
    {
        if b.len() == 2 && b[0] == ESC {
            return st_default_key_exec(intro8, b);
        }
        let mut i: usize = 1;
        if i < b.len() && b[0] == ESC && b[i] == intro7 {
            i = 2;
        }
        let start = i;
        proof { lemma_first_st_stop(b@, start as int); }
        i = first_st_stop_exec(b, start);
        if i >= b.len() {
            let u = slice_to_vec(slice_subrange(b, 0, i));
            proof { assert(u@ =~= b@.take(i as int)); }
            return (i, Some(Event::Unknown(u)));
        }
        let end = i;
        i = i + 1;
        if b[end] == CAN || b[end] == SUB {
            let u = slice_to_vec(slice_subrange(b, 0, i));
            proof { assert(u@ =~= b@.take(i as int)); }
            return (i, Some(Event::Ignored(u)));
        }
        if b[end] == ESC {
            if i >= b.len() || b[i] != 0x5c {
                if start == end {
                    return st_default_key_exec(intro8, b);
                }
                let u = slice_to_vec(slice_subrange(b, 0, i));
                proof { assert(u@ =~= b@.take(i as int)); }
                return (i, Some(Event::Ignored(u)));
            }
            i = i + 1;
        }
        if graphics {
            let data = slice_subrange(b, start, end);
            match kitty_graphics(data) {
                Some(e) => {
                    return (i, Some(e));
                },
                None => {},
            }
        }
        let u = slice_to_vec(slice_subrange(b, 0, i));
        proof { assert(u@ =~= b@.take(i as int)); }
        (i, Some(Event::Unknown(u)))
    }

    /// Reads an APC string from the start of `b`, which starts with APC or
    /// ESC: ESC `_` alone is Alt+`_`; Kitty graphics replies are read from
    /// the data.
    pub fn parse_apc(&mut self, b: &[u8]) -> (r: (usize, Option<Event>))
        requires
            b@.len() > 0,
            b@[0] == APC || b@[0] == ESC,
        ensures
            result_view(r) == st_spec(APC, 0x5f, true, b@),
            1 <= r.0,
            r.1 is Some,
            r.0 <= b@.len(),
            *final(self) == *old(self),
    {
        if b.len() == 2 && b[0] == ESC {
            return st_default_key_exec(APC, b);
        }
        self.parse_st_terminated(APC, 0x5f, true, b)
    }
}

/// The 8-bit device control string introducer.
pub const DCS: u8 = 0x90;

/// The value of a hexadecimal digit (either case).
pub open spec fn hex_val(x: u8) -> Option<u8> {
    if 0x30 <= x <= 0x39 {
        Some((x - 0x30) as u8)
    } else if 0x61 <= x <= 0x66 {
        Some((x - 0x61 + 10) as u8)
    } else if 0x41 <= x <= 0x46 {
        Some((x - 0x41 + 10) as u8)
    } else {
        None
    }
}

fn hex_val_exec(x: u8) -> (r: Option<u8>)
    ensures
        r == hex_val(x),
{
    if 0x30 <= x && x <= 0x39 {
        Some(x - 0x30)
    } else if 0x61 <= x && x <= 0x66 {
        Some(x - 0x61 + 10)
    } else if 0x41 <= x && x <= 0x46 {
        Some(x - 0x41 + 10)
    } else {
        None
    }
}

/// The bytes a string of hexadecimal digit pairs spells, or `None` when it
/// has an odd length or a byte that is not a hexadecimal digit.
pub open spec fn hex_spec(x: Seq<u8>) -> Option<Seq<u8>>
    decreases x.len(),
{
    if x.len() == 0 {
        Some(Seq::empty())
    } else if x.len() % 2 == 1 {
        None
    } else {
        match (hex_spec(x.take(x.len() - 2)), hex_val(x[x.len() - 2]), hex_val(x[x.len() - 1])) {
            (Some(r), Some(a), Some(b)) => Some(r.push((a * 16 + b) as u8)),
            _ => None,
        }
    }
}

proof fn lemma_hex_none(x: Seq<u8>, k: int)
    requires
        0 <= k,
        2 * k + 2 <= x.len(),
        x.len() % 2 == 0,
        hex_spec(x.take(2 * k + 2)) is None,
    ensures
        hex_spec(x) is None,
    decreases x.len() - 2 * k,
{
    if 2 * k + 2 < x.len() {
        assert(x.take(2 * k + 4).take(2 * k + 2) =~= x.take(2 * k + 2));
        lemma_hex_none(x, k + 1);
    } else {
        assert(x.take(2 * k + 2) =~= x);
    }
}

/// Decodes pairs of hexadecimal digits into bytes.
pub fn hex_decode(x: &[u8]) -> (r: Option<Vec<u8>>)
    ensures
        match r {
            Some(v) => hex_spec(x@) == Some(v@),
            None => hex_spec(x@) is None,
        },
{
    if x.len() % 2 == 1 {
        return None;
    }
    let mut out: Vec<u8> = Vec::new();
    let mut k: usize = 0;
    assert(x@.take(0) =~= Seq::<u8>::empty());
    while k < x.len() / 2
        invariant
            x@.len() % 2 == 0,
            k <= x@.len() / 2,
            hex_spec(x@.take(2 * k as int)) == Some(out@),
        decreases x@.len() / 2 - k,
    {
        let ghost t = x@.take(2 * k + 2);
        assert(t.take(t.len() - 2) =~= x@.take(2 * k as int));
        assert(t[t.len() - 2] == x@[2 * k as int]);
        assert(t[t.len() - 1] == x@[2 * k + 1]);
        let a = hex_val_exec(x[2 * k]);
        let b = hex_val_exec(x[2 * k + 1]);
        match (a, b) {
            (Some(a), Some(b)) => {
                out.push(a * 16 + b);
            },
            _ => {
                proof { lemma_hex_none(x@, k as int); }
                return None;
            },
        }
        k = k + 1;
    }
    assert(x@.take(2 * k as int) =~= x@);
    Some(out)
}

/// The tertiary device attributes reply: its data in hexadecimal, or an
/// unknown sequence.
pub open spec fn tertiary_spec(data: Seq<u8>) -> EventView {
    match hex_spec(data) {
        Some(b) => EventView::TertiaryDeviceAttributes(b),
        None => EventView::Unknown(data),
    }
}

/// Reads the tertiary device attributes from the data of their reply.
pub fn parse_tertiary_dev_attrs(data: &[u8]) -> (e: Event)
    ensures
        e@ == tertiary_spec(data@),
{
    match hex_decode(data) {
        Some(bytes) => Event::TertiaryDeviceAttributes(bytes),
        None => Event::Unknown(slice_to_vec(data)),
    }
}

/// The capability string after adding one `name=value` field (both in
/// hexadecimal) to `tc`: a field whose name is not hexadecimal, or empty, is
/// left out; a value that is missing or not hexadecimal is empty, and then
/// no `=` is written.
pub open spec fn add_capability(tc: Seq<char>, field: Seq<u8>) -> Seq<char> {
    let eq = first_of(field, 0x3d, 0);
    match hex_spec(field.take(eq)) {
        None => tc,
        Some(name) => if name.len() == 0 {
            tc
        } else {
            let value = if eq < field.len() {
                match hex_spec(field.skip(eq + 1)) {
                    Some(v) => v,
                    None => Seq::empty(),
                }
            } else {
                Seq::empty()
            };
            tc + (if tc.len() > 0 { seq![';'] } else { Seq::empty() }) + lossy_chars(name) + (if value.len() > 0 {
                seq!['='] + lossy_chars(value)
            } else {
                Seq::empty()
            })
        },
    }
}

/// The capability string of the `;`-separated fields of `data` from `i`,
/// added to `tc`.
pub open spec fn capabilities_from(data: Seq<u8>, i: int, tc: Seq<char>) -> Seq<char>
    decreases data.len() - i,
{
    if i < 0 || i > data.len() {
        tc
    } else {
        let e = first_of(data, 0x3b, i);
        let tc2 = add_capability(tc, data.subrange(i, e));
        if e >= data.len() {
            tc2
        } else {
            proof { lemma_first_of(data, 0x3b, i); }
            capabilities_from(data, e + 1, tc2)
        }
    }
}

fn push_str_chars(s: &mut String, t: &String)
    ensures
        final(s)@ == old(s)@ + t@,
{
    let mut k: usize = 0;
    let n = t.as_str().unicode_len();
    while k < n
        invariant
            k <= n,
            n == t@.len(),
            s@ == old(s)@ + t@.take(k as int),
        decreases n - k,
    {
        let c = t.as_str().get_char(k);
        string_push(s, c);
        k = k + 1;
        assert(s@ =~= old(s)@ + t@.take(k as int));
    }
    assert(t@.take(k as int) =~= t@);
}

fn first_of_from(b: &[u8], x: u8, start: usize) -> (e: usize)
    requires
        start <= b@.len(),
    ensures
        e == first_of(b@, x, start as int),
        start <= e <= b@.len(),
{
    proof { lemma_first_of(b@, x, start as int); }
    let mut i = start;
    while i < b.len() && b[i] != x
        invariant
            start <= i <= b@.len(),
            first_of(b@, x, start as int) == first_of(b@, x, i as int),
        decreases b@.len() - i,
    {
        i = i + 1;
    }
    i
}

fn add_capability_exec(tc: &mut String, field: &[u8])
    ensures
        final(tc)@ == add_capability(old(tc)@, field@),
{
    let eq = first_of_from(field, 0x3d, 0);
    let name = match hex_decode(slice_subrange(field, 0, eq)) {
        Some(n) => n,
        None => {
            assert(field@.subrange(0, eq as int) =~= field@.take(eq as int));
            return;
        },
    };
    assert(field@.subrange(0, eq as int) =~= field@.take(eq as int));
    if name.len() == 0 {
        return;
    }
    let value: Vec<u8> = if eq < field.len() {
        let rest = slice_subrange(field, eq + 1, field.len());
        assert(rest@ =~= field@.skip(eq + 1));
        match hex_decode(rest) {
            Some(v) => v,
            None => Vec::new(),
        }
    } else {
        Vec::new()
    };
    let ghost before = tc@;
    if tc.as_str().unicode_len() > 0 {
        string_push(tc, ';');
    }
    let n = lossy_string(name.as_slice());
    push_str_chars(tc, &n);
    if value.len() > 0 {
        string_push(tc, '=');
        let v = lossy_string(value.as_slice());
        push_str_chars(tc, &v);
    }
    proof {
        let sep: Seq<char> = if before.len() > 0 { seq![';'] } else { Seq::empty() };
        let tail: Seq<char> = if value@.len() > 0 { seq!['='] + lossy_chars(value@) } else { Seq::empty() };
        assert(tc@ =~= before + sep + lossy_chars(name@) + tail);
    }
}

/// The capability string of an XTGETTCAP reply.
pub open spec fn termcap_spec(data: Seq<u8>) -> EventView {
    if data.len() == 0 {
        EventView::Capability(Seq::empty())
    } else {
        EventView::Capability(capabilities_from(data, 0, Seq::empty()))
    }
}

/// Reads the `;`-separated `<hex name>=<hex value>` fields of an XTGETTCAP
/// reply into a `name=value;name=value` capability string.
pub fn parse_termcap(data: &[u8]) -> (e: Event)
    ensures
        e@ == termcap_spec(data@),
{
    let mut tc = String::new();
    if data.len() == 0 {
        return Event::Capability(tc);
    }
    let mut i: usize = 0;
    loop
        invariant
            i <= data@.len(),
            capabilities_from(data@, 0, Seq::empty()) == capabilities_from(data@, i as int, tc@),
        decreases data@.len() - i,
    {
        let e = first_of_from(data, 0x3b, i);
        add_capability_exec(&mut tc, slice_subrange(data, i, e));
        if e >= data.len() {
            return Event::Capability(tc);
        }
        i = e + 1;
    }
}

/// `v` times ten plus the digit `d`, both steps saturating at `u16::MAX`.
pub open spec fn sat_digit(v: u16, d: u8) -> u16 {
    let m = if v * 10 > 0xFFFF { 0xFFFFint } else { v * 10 };
    (if m + d > 0xFFFF { 0xFFFFint } else { m + d }) as u16
}

/// Scans the parameter bytes (`0x30..=0x3F`) of a device control string
/// from `i`, after `seps` separators, with the first parameter's value so
/// far `v`: where the scan stops (a byte that is not a parameter byte, the
/// end, or sixteen parameters) and the first parameter's value.
pub open spec fn dcs_scan(b: Seq<u8>, i: int, seps: nat, v: u16) -> (int, u16)
    decreases b.len() - i,
{
    if i < 0 || i >= b.len() || !(0x30 <= b[i] <= 0x3F) || seps >= 16 {
        (i, v)
    } else if 0x30 <= b[i] <= 0x39 {
        dcs_scan(b, i + 1, seps, if seps == 0 { sat_digit(v, (b[i] - 0x30) as u8) } else { v })
    } else if b[i] == 0x3a || b[i] == 0x3b {
        dcs_scan(b, i + 1, seps + 1, v)
    } else {
        dcs_scan(b, i + 1, seps, v)
    }
}

/// Scans the intermediate bytes (`0x20..=0x2F`) from `i`: where they end and
/// the last of them (`last` when there is none).
pub open spec fn inter_scan(b: Seq<u8>, i: int, last: u8) -> (int, u8)
    decreases b.len() - i,
{
    if i < 0 || i >= b.len() || !(0x20 <= b[i] <= 0x2F) {
        (i, last)
    } else {
        inter_scan(b, i + 1, b[i])
    }
}

/// The first index from `i` holding ST or ESC, or the length.
pub open spec fn first_dcs_stop(b: Seq<u8>, i: int) -> int
    decreases b.len() - i,
{
    if i < 0 || i >= b.len() {
        b.len() as int
    } else if b[i] == ST || b[i] == ESC {
        i
    } else {
        first_dcs_stop(b, i + 1)
    }
}

/// A device control string read from the start of `b`: how many bytes it
/// takes and the event. ESC `P` alone is Shift+Alt+`p`. The parameters,
/// intermediates and final byte choose the reply: an XTGETTCAP reply
/// (intermediate `+`, final `r`, first parameter 1), the terminal version
/// (private marker `>`, final `|`), the tertiary device attributes
/// (intermediate `!`, final `|`); anything else is unknown.
pub open spec fn dcs_spec(b: Seq<u8>) -> (int, Option<EventView>) {
    if b.len() == 2 && b[0] == ESC {
        (2, Some(EventView::Key(press_mod_spec(Key::Char(ascii_lower(b[1]) as char), 5))))
    } else {
        let i0: int = if 1 < b.len() && b[0] == ESC && b[1] == 0x50 { 2 } else { 1 };
        let prefix: u8 = if i0 < b.len() && 0x3c <= b[i0] <= 0x3f { b[i0] } else { 0 };
        let (i1, p0) = dcs_scan(b, i0, 0, 0);
        let (i2, inter) = inter_scan(b, i1, 0);
        if i2 >= b.len() || !(0x40 <= b[i2] <= 0x7e) {
            (i2, Some(EventView::Unknown(b.take(i2))))
        } else {
            let fin = b[i2];
            let start = i2 + 1;
            let end = first_dcs_stop(b, start);
            if end >= b.len() {
                (end, Some(EventView::Unknown(b.take(end))))
            } else {
                let i3 = end + 1;
                let i4 = if i3 < b.len() && b[end] == ESC && b[i3] == 0x5c { i3 + 1 } else { i3 };
                let data = b.subrange(start, end);
                if prefix == 0 && inter == 0x2b && fin == 0x72 && p0 == 1 {
                    (i4, Some(termcap_spec(data)))
                } else if prefix == 0x3e && inter == 0 && fin == 0x7c {
                    (i4, Some(EventView::TerminalVersion(lossy_chars(data))))
                } else if prefix == 0 && inter == 0x21 && fin == 0x7c {
                    (i4, Some(tertiary_spec(data)))
                } else {
                    (i4, Some(EventView::Unknown(b.take(i4))))
                }
            }
        }
    }
}

proof fn lemma_scans(b: Seq<u8>, i: int, seps: nat, v: u16, last: u8)
    requires
        0 <= i <= b.len(),
    ensures
        i <= dcs_scan(b, i, seps, v).0 <= b.len(),
        i <= inter_scan(b, i, last).0 <= b.len(),
        i <= first_dcs_stop(b, i) <= b.len(),
        first_dcs_stop(b, i) < b.len() ==> (b[first_dcs_stop(b, i)] == ST || b[first_dcs_stop(b, i)] == ESC),
    decreases b.len() - i,
{
    if i < b.len() {
        let ns: nat = if b[i] == 0x3a || b[i] == 0x3b { seps + 1 } else { seps };
        let nv = if 0x30 <= b[i] <= 0x39 && seps == 0 { sat_digit(v, (b[i] - 0x30) as u8) } else { v };
        lemma_scans(b, i + 1, ns, nv, b[i]);
        lemma_scans(b, i + 1, seps, v, last);
    }
}

pub(crate) fn sat_digit_exec(v: u16, d: u8) -> (r: u16)
    requires
        d < 10,
    ensures
        r == sat_digit(v, d),
{
    let m: u16 = if v > 6553 { 0xFFFF } else { v * 10 };
    if m as u32 + d as u32 > 0xFFFF { 0xFFFF } else { m + d as u16 }
}

impl Decoder {
    /// Reads a device control string from the start of `b`, which starts
    /// with DCS or ESC.
    pub fn parse_dcs(&mut self, b: &[u8]) -> (r: (usize, Option<Event>))
        requires
            b@.len() > 0,
            b@[0] == DCS || b@[0] == ESC,
        ensures
            result_view(r) == dcs_spec(b@),
            1 <= r.0,
            r.1 is Some,
            r.0 <= b@.len(),
            *final(self) == *old(self),
    {
        if b.len() == 2 && b[0] == ESC {
            let c = to_ascii_lower(b[1]) as char;
            return (2, Some(Event::Key(press_mod(Key::Char(c), 5))));
        }
        let mut i: usize = 1;
        if i < b.len() && b[0] == ESC && b[i] == 0x50 {
            i = 2;
        }
        let i0 = i;
        let prefix: u8 = if i < b.len() && 0x3c <= b[i] && b[i] <= 0x3f { b[i] } else { 0 };
        proof { lemma_scans(b@, i0 as int, 0, 0, 0); }
        let mut seps: usize = 0;
        let mut v: u16 = 0;
        while i < b.len() && 0x30 <= b[i] && b[i] <= 0x3f && seps < 16
            invariant
                i0 <= i <= b@.len(),
                seps <= 16,
                dcs_scan(b@, i0 as int, 0, 0) == dcs_scan(b@, i as int, seps as nat, v),
            decreases b@.len() - i,
        {
            if 0x30 <= b[i] && b[i] <= 0x39 {
                if seps == 0 {
                    v = sat_digit_exec(v, b[i] - 0x30);
                }
            } else if b[i] == 0x3a || b[i] == 0x3b {
                seps = seps + 1;
            }
            i = i + 1;
        }
        let i1 = i;
        proof { lemma_scans(b@, i1 as int, 0, 0, 0); }
        let mut inter: u8 = 0;
        while i < b.len() && 0x20 <= b[i] && b[i] <= 0x2f
            invariant
                i1 <= i <= b@.len(),
                inter_scan(b@, i1 as int, 0) == inter_scan(b@, i as int, inter),
            decreases b@.len() - i,
        {
            inter = b[i];
            i = i + 1;
        }
        if i >= b.len() || !(0x40 <= b[i] && b[i] <= 0x7e) {
            let u = slice_to_vec(slice_subrange(b, 0, i));
            proof { assert(u@ =~= b@.take(i as int)); }
            return (i, Some(Event::Unknown(u)));
        }
        let fin = b[i];
        i = i + 1;
        let start = i;
        proof { lemma_scans(b@, start as int, 0, 0, 0); }
        while i < b.len() && b[i] != ST && b[i] != ESC
            invariant
                start <= i <= b@.len(),
                first_dcs_stop(b@, start as int) == first_dcs_stop(b@, i as int),
            decreases b@.len() - i,
        {
            i = i + 1;
        }
        if i >= b.len() {
            let u = slice_to_vec(slice_subrange(b, 0, i));
            proof { assert(u@ =~= b@.take(i as int)); }
            return (i, Some(Event::Unknown(u)));
        }
        let end = i;
        i = i + 1;
        if i < b.len() && b[end] == ESC && b[i] == 0x5c {
            i = i + 1;
        }
        let data = slice_subrange(b, start, end);
        if prefix == 0 && inter == 0x2b && fin == 0x72 && v == 1 {
            return (i, Some(parse_termcap(data)));
        } else if prefix == 0x3e && inter == 0 && fin == 0x7c {
            return (i, Some(Event::TerminalVersion(lossy_string(data))));
        } else if prefix == 0 && inter == 0x21 && fin == 0x7c {
            return (i, Some(parse_tertiary_dev_attrs(data)));
        }
        let u = slice_to_vec(slice_subrange(b, 0, i));
        proof { assert(u@ =~= b@.take(i as int)); }
        (i, Some(Event::Unknown(u)))
    }
}

/// The lowercase hexadecimal digit of `v` (below 16).
pub open spec fn hex_digit(v: int) -> u8 {
    if v < 10 { (0x30 + v) as u8 } else { (0x61 + v - 10) as u8 }
}

/// The hexadecimal spelling of `b`, two lowercase digits a byte, most
/// significant first.
pub open spec fn hex_encode(b: Seq<u8>) -> Seq<u8>
    decreases b.len(),
{
    if b.len() == 0 {
        Seq::empty()
    } else {
        hex_encode(b.drop_last()) + seq![hex_digit((b.last() / 16) as int), hex_digit((b.last() % 16) as int)]
    }
}

/// Decoding hexadecimal gives back the bytes it spells.
pub proof fn lemma_hex_decodes_encoding(b: Seq<u8>)
    ensures
        hex_encode(b).len() == 2 * b.len(),
        hex_spec(hex_encode(b)) == Some(b),
    decreases b.len(),
{
    if b.len() > 0 {
        lemma_hex_decodes_encoding(b.drop_last());
        let e = hex_encode(b);
        let hi = b.last() / 16;
        let lo = b.last() % 16;
        assert(e.take(e.len() - 2) =~= hex_encode(b.drop_last()));
        assert(e[e.len() - 2] == hex_digit(hi as int) && e[e.len() - 1] == hex_digit(lo as int));
        assert(hex_val(hex_digit(hi as int)) == Some(hi as u8));
        assert(hex_val(hex_digit(lo as int)) == Some(lo as u8));
        assert(b.drop_last().push((hi * 16 + lo) as u8) =~= b);
    }
}

} // verus!
