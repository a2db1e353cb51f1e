//! Mouse reports: the X10 and SGR encodings.
use vstd::prelude::*;
use crate::events::Meta;
use super::decode::{Event, EventView};
use super::kitty::{Param, value_or};

verus! {

/// A position on the screen, from (0, 0) at the upper left.
#[derive(Clone, Copy, Debug, PartialEq, Eq, Structural)]
pub struct Point {
    pub x: i32,
    pub y: i32,
}

/// A mouse button as the X10 and SGR encodings number them.
#[derive(Clone, Copy, Debug, PartialEq, Eq, Structural)]
pub enum MouseButton {
    NoButton,
    Left,
    Middle,
    Right,
    WheelUp,
    WheelDown,
    WheelLeft,
    WheelRight,
    Backward,
    Forward,
    Button10,
    Button11,
}

/// The direction of a wheel turn.
#[derive(Clone, Copy, Debug, PartialEq, Eq, Structural)]
pub enum ScrollKind {
    Up,
    Down,
    Left,
    Right,
}

/// A wheel turn: its direction, the modifiers and where the pointer is.
#[derive(Clone, Copy, Debug, PartialEq, Eq, Structural)]
pub struct ScrollEvent {
    pub kind: ScrollKind,
    pub meta: Meta,
    pub position: Point,
}

/// What a pointer event reports.
#[derive(Clone, Copy, Debug, PartialEq, Eq, Structural)]
pub enum PointerKind {
    Press,
    Release,
    Motion,
}

/// The button of a pointer event.
#[derive(Clone, Copy, Debug, PartialEq, Eq, Structural)]
pub enum PointerButton {
    NoButton,
    Left,
    Middle,
    Right,
    Backward,
    Forward,
    Button10,
    Button11,
}

/// A pointer event: the button, what happened, the modifiers and the
/// position.
#[derive(Clone, Copy, Debug, PartialEq, Eq, Structural)]
pub struct PointerEvent {
    pub button: PointerButton,
    pub kind: PointerKind,
    pub meta: Meta,
    pub position: Point,
}

/// Whether a button is a wheel direction.
pub open spec fn is_wheel(btn: MouseButton) -> bool {
    btn is WheelUp || btn is WheelDown || btn is WheelLeft || btn is WheelRight
}

/// The button field of a mouse report: Alt (bit 8), Ctrl (16) and Shift
/// (4) modifiers; bit 128 selects buttons 8 to 11 and bit 64 the wheel by
/// the low two bits, else those bits are left, middle, right or a release;
/// bit 32 is motion, which wheel events do not report. The result is the
/// modifiers, the button, whether it is a release, and whether it is
/// motion.
pub open spec fn mouse_button_spec(b: i32) -> (u16, MouseButton, bool, bool) {
    let meta: u16 = ((if b & 8i32 != 0 { 4int } else { 0 }) + (if b & 16i32 != 0 { 2int } else { 0 })
        + (if b & 4i32 != 0 { 1int } else { 0 })) as u16;
    let low = b & 3i32;
    let (btn, release) = if b & 128i32 != 0 {
        (if low == 0 { MouseButton::Backward } else if low == 1 { MouseButton::Forward } else if low
            == 2 { MouseButton::Button10 } else { MouseButton::Button11 }, false)
    } else if b & 64i32 != 0 {
        (if low == 0 { MouseButton::WheelUp } else if low == 1 { MouseButton::WheelDown } else if low
            == 2 { MouseButton::WheelLeft } else { MouseButton::WheelRight }, false)
    } else {
        if low == 0 {
            (MouseButton::Left, false)
        } else if low == 1 {
            (MouseButton::Middle, false)
        } else if low == 2 {
            (MouseButton::Right, false)
        } else {
            (MouseButton::NoButton, true)
        }
    };
    (meta, btn, release, b & 32i32 != 0 && !is_wheel(btn))
}

/// Decodes the button field of a mouse report.
pub fn parse_mouse_button(b: i32) -> (r: (Meta, MouseButton, bool, bool))
    ensures
        (r.0.bits, r.1, r.2, r.3) == mouse_button_spec(b),
{
    let mut meta: u16 = 0;
    if b & 8 != 0 {
        meta = meta + 4;
    }
    if b & 16 != 0 {
        meta = meta + 2;
    }
    if b & 4 != 0 {
        meta = meta + 1;
    }
    let low = b & 3;
    let mut release = false;
    let btn = if b & 128 != 0 {
        if low == 0 {
            MouseButton::Backward
        } else if low == 1 {
            MouseButton::Forward
        } else if low == 2 {
            MouseButton::Button10
        } else {
            MouseButton::Button11
        }
    } else if b & 64 != 0 {
        if low == 0 {
            MouseButton::WheelUp
        } else if low == 1 {
            MouseButton::WheelDown
        } else if low == 2 {
            MouseButton::WheelLeft
        } else {
            MouseButton::WheelRight
        }
    } else {
        if low == 0 {
            MouseButton::Left
        } else if low == 1 {
            MouseButton::Middle
        } else if low == 2 {
            MouseButton::Right
        } else {
            release = true;
            MouseButton::NoButton
        }
    };
    let wheel = match btn {
        MouseButton::WheelUp | MouseButton::WheelDown | MouseButton::WheelLeft | MouseButton::WheelRight => true,
        _ => false,
    };
    let motion = b & 32 != 0 && !wheel;
    (Meta { bits: meta }, btn, release, motion)
}

/// The pointer button of a mouse button; wheel directions have none.
pub open spec fn pointer_button_spec(btn: MouseButton) -> PointerButton {
    match btn {
        MouseButton::Left => PointerButton::Left,
        MouseButton::Middle => PointerButton::Middle,
        MouseButton::Right => PointerButton::Right,
        MouseButton::Backward => PointerButton::Backward,
        MouseButton::Forward => PointerButton::Forward,
        MouseButton::Button10 => PointerButton::Button10,
        MouseButton::Button11 => PointerButton::Button11,
        _ => PointerButton::NoButton,
    }
}

/// The pointer button of a mouse button; wheel directions have none.
pub fn pointer_button(btn: MouseButton) -> (r: PointerButton)
    ensures
        r == pointer_button_spec(btn),
{
    match btn {
        MouseButton::Left => PointerButton::Left,
        MouseButton::Middle => PointerButton::Middle,
        MouseButton::Right => PointerButton::Right,
        MouseButton::Backward => PointerButton::Backward,
        MouseButton::Forward => PointerButton::Forward,
        MouseButton::Button10 => PointerButton::Button10,
        MouseButton::Button11 => PointerButton::Button11,
        _ => PointerButton::NoButton,
    }
}

/// The event of a decoded mouse report at (`x`, `y`): a wheel direction is
/// a scroll; otherwise motion, a release or a press of the button.
pub open spec fn mouse_event_spec(btn: MouseButton, meta: u16, x: i32, y: i32, release: bool, motion: bool) -> EventView {
    let position = Point { x, y };
    if is_wheel(btn) {
        EventView::Scroll(ScrollEvent {
            kind: if btn is WheelUp { ScrollKind::Up } else if btn is WheelDown { ScrollKind::Down } else if btn is WheelLeft { ScrollKind::Left } else { ScrollKind::Right },
            meta: Meta { bits: meta },
            position,
        })
    } else {
        EventView::Pointer(PointerEvent {
            button: pointer_button_spec(btn),
            kind: if motion { PointerKind::Motion } else if release { PointerKind::Release } else { PointerKind::Press },
            meta: Meta { bits: meta },
            position,
        })
    }
}

/// The event of a decoded mouse report at (`x`, `y`).
pub fn mouse_event(btn: MouseButton, meta: Meta, x: i32, y: i32, release: bool, motion: bool) -> (e: Event)
    ensures
        e@ == mouse_event_spec(btn, meta.bits, x, y, release, motion),
{
    let position = Point { x, y };
    match btn {
        MouseButton::WheelUp => Event::Scroll(ScrollEvent { kind: ScrollKind::Up, meta, position }),
        MouseButton::WheelDown => Event::Scroll(ScrollEvent { kind: ScrollKind::Down, meta, position }),
        MouseButton::WheelLeft => Event::Scroll(ScrollEvent { kind: ScrollKind::Left, meta, position }),
        MouseButton::WheelRight => Event::Scroll(ScrollEvent { kind: ScrollKind::Right, meta, position }),
        _ => {
            let kind = if motion {
                PointerKind::Motion
            } else if release {
                PointerKind::Release
            } else {
                PointerKind::Press
            };
            Event::Pointer(PointerEvent { button: pointer_button(btn), kind, meta, position })
        },
    }
}

/// Parameter `i`, or `default` when it was left out or is not there.
pub open spec fn param_or(pa: Seq<Param>, i: int, default: int) -> int {
    if 0 <= i < pa.len() { value_or(pa[i], default) } else { default }
}

fn param_or_exec(pa: &[Param], i: usize, default: i32) -> (r: i32)
    requires
        0 <= default <= 1,
    ensures
        r == param_or(pa@, i as int, default as int),
{
    if i < pa.len() {
        if pa[i].missing { default } else { pa[i].value as i32 }
    } else {
        default
    }
}

/// An SGR mouse report (`CSI < button ; x ; y M` or `m` for a release),
/// with the 1-based position made 0-based.
pub open spec fn sgr_mouse_spec(final_byte: u8, pa: Seq<Param>) -> EventView {
    let (meta, btn, _, motion) = mouse_button_spec(param_or(pa, 0, 0) as i32);
    mouse_event_spec(btn, meta, (param_or(pa, 1, 1) - 1) as i32, (param_or(pa, 2, 1) - 1) as i32, final_byte == 0x6d, motion)
}

/// Reads an SGR mouse report from its final byte and parameters.
pub fn parse_sgr_mouse(final_byte: u8, pa: &[Param]) -> (e: Event)
    ensures
        e@ == sgr_mouse_spec(final_byte, pa@),
{
    let x = param_or_exec(pa, 1, 1);
    let y = param_or_exec(pa, 2, 1);
    let (meta, btn, _, motion) = parse_mouse_button(param_or_exec(pa, 0, 0));
    mouse_event(btn, meta, x - 1, y - 1, final_byte == 0x6d, motion)
}

/// An X10 mouse report (`CSI M` and three bytes: button, x, y, each offset
/// by 32), with the 1-based position made 0-based.
pub open spec fn x10_mouse_spec(v: Seq<u8>) -> EventView {
    let b = if v[0] >= 32 { v[0] - 32 } else { v[0] as int };
    let (meta, btn, release, motion) = mouse_button_spec(b as i32);
    mouse_event_spec(btn, meta, (v[1] - 33) as i32, (v[2] - 33) as i32, release, motion)
}

/// Reads the three bytes of an X10 mouse report.
pub fn parse_x10_mouse(v: &[u8]) -> (e: Event)
    requires
        v@.len() >= 3,
    ensures
        e@ == x10_mouse_spec(v@),
{
    let mut b = v[0] as i32;
    if b >= 32 {
        b = b - 32;
    }
    let (meta, btn, release, motion) = parse_mouse_button(b);
    let x = v[1] as i32 - 33;
    let y = v[2] as i32 - 33;
    mouse_event(btn, meta, x, y, release, motion)
}

/// The button field of a mouse report with neither the wheel bit (64) nor
/// the extra-button bit (128): its low two bits name the button, 0 left,
/// 1 middle, 2 right, and 3 a release with no button; the Alt, Ctrl and
/// Shift bits (8, 16, 4) only add modifiers.
pub proof fn lemma_basic_mouse_buttons(b: i32)
    requires
        b & 64 == 0,
        b & 128 == 0,
    ensures
        b & 3 == 0 ==> mouse_button_spec(b).1 == MouseButton::Left && !mouse_button_spec(b).2,
        b & 3 == 1 ==> mouse_button_spec(b).1 == MouseButton::Middle && !mouse_button_spec(b).2,
        b & 3 == 2 ==> mouse_button_spec(b).1 == MouseButton::Right && !mouse_button_spec(b).2,
        b & 3 == 3 ==> mouse_button_spec(b).1 == MouseButton::NoButton && mouse_button_spec(b).2,
        mouse_button_spec(b).1 == mouse_button_spec(b & 3).1,
        mouse_button_spec(b).2 == mouse_button_spec(b & 3).2,
        0 <= b & 3 <= 3,
{
    assert((b & 3) & 64 == 0 && (b & 3) & 128 == 0 && (b & 3) & 3 == b & 3 && 0 <= b & 3 <= 3) by (bit_vector);
}

/// Two basic button fields with different low bits decode to different
/// buttons (or one is a release and the other not).
pub proof fn lemma_basic_mouse_buttons_distinct(b1: i32, b2: i32)
    requires
        b1 & 64 == 0,
        b1 & 128 == 0,
        b2 & 64 == 0,
        b2 & 128 == 0,
        b1 & 3 != b2 & 3,
    ensures
        (mouse_button_spec(b1).1, mouse_button_spec(b1).2) != (mouse_button_spec(b2).1, mouse_button_spec(b2).2),
{
    lemma_basic_mouse_buttons(b1);
    lemma_basic_mouse_buttons(b2);
}

/// An SGR mouse report `CSI < 2 ; x ; y M` is a press of the right button at
/// (x - 1, y - 1), and with `m` its release.
pub proof fn lemma_sgr_right_button(final_byte: u8, pa: Seq<Param>)
    requires
        pa.len() == 3,
        !pa[0].missing,
        pa[0].value == 2,
    ensures
        sgr_mouse_spec(final_byte, pa) == EventView::Pointer(PointerEvent {
            button: PointerButton::Right,
            kind: if final_byte == 0x6d { PointerKind::Release } else { PointerKind::Press },
            meta: Meta { bits: 0 },
            position: Point { x: (param_or(pa, 1, 1) - 1) as i32, y: (param_or(pa, 2, 1) - 1) as i32 },
        }),
{
    assert((2i32 & 8) == 0 && (2i32 & 16) == 0 && (2i32 & 4) == 0 && (2i32 & 128) == 0 && (2i32 & 64) == 0
        && (2i32 & 3) == 2 && (2i32 & 32) == 0) by (bit_vector);
}

/// The button field of a mouse report is a bit set: the low two bits pick a
/// button, Shift 4, Alt 8 and Ctrl 16 are modifiers (the library's Shift 1,
/// Alt 4, Ctrl 2), 32 is motion (not reported for the wheel), 64 selects
/// the wheel (up, down, left, right) and 128 the extra buttons (back,
/// forward, 10, 11). Without 64 or 128, low bits 3 are a release.
pub proof fn lemma_mouse_button_fields(low: i32, shift: bool, alt: bool, ctrl: bool, motion: bool, wheel: bool, extra: bool)
    requires
        0 <= low <= 3,
    ensures
        ({
            let b = (low + (if shift { 4int } else { 0 }) + (if alt { 8int } else { 0 }) + (if ctrl { 16int } else { 0 })
                + (if motion { 32int } else { 0 }) + (if wheel { 64int } else { 0 }) + (if extra { 128int } else { 0 })) as i32;
            let r = mouse_button_spec(b);
            &&& r.0 == ((if shift { 1int } else { 0 }) + (if ctrl { 2int } else { 0 }) + (if alt { 4int } else { 0 })) as u16
            &&& r.1 == (if extra {
                if low == 0 { MouseButton::Backward } else if low == 1 { MouseButton::Forward } else if low == 2 { MouseButton::Button10 } else { MouseButton::Button11 }
            } else if wheel {
                if low == 0 { MouseButton::WheelUp } else if low == 1 { MouseButton::WheelDown } else if low == 2 { MouseButton::WheelLeft } else { MouseButton::WheelRight }
            } else {
                if low == 0 { MouseButton::Left } else if low == 1 { MouseButton::Middle } else if low == 2 { MouseButton::Right } else { MouseButton::NoButton }
            })
            &&& r.2 == (!extra && !wheel && low == 3)
            &&& r.3 == (motion && (extra || !wheel))
        }),
{
    let s: i32 = if shift { 1 } else { 0 };
    let a: i32 = if alt { 1 } else { 0 };
    let c: i32 = if ctrl { 1 } else { 0 };
    let mo: i32 = if motion { 1 } else { 0 };
    let w: i32 = if wheel { 1 } else { 0 };
    let x: i32 = if extra { 1 } else { 0 };
    let b: i32 = (low + 4 * s + 8 * a + 16 * c + 32 * mo + 64 * w + 128 * x) as i32;
    assert(b == (low + (if shift { 4int } else { 0 }) + (if alt { 8int } else { 0 }) + (if ctrl { 16int } else { 0 })
                + (if motion { 32int } else { 0 }) + (if wheel { 64int } else { 0 }) + (if extra { 128int } else { 0 })) as i32);
    assert(((b & 4) != 0 <==> s == 1) && ((b & 8) != 0 <==> a == 1) && ((b & 16) != 0 <==> c == 1)
        && ((b & 32) != 0 <==> mo == 1) && ((b & 64) != 0 <==> w == 1) && ((b & 128) != 0 <==> x == 1)
        && (b & 3) == low) by (bit_vector)
        requires
            0 <= low <= 3, 0 <= s <= 1, 0 <= a <= 1, 0 <= c <= 1, 0 <= mo <= 1, 0 <= w <= 1, 0 <= x <= 1,
            b == low + 4 * s + 8 * a + 16 * c + 32 * mo + 64 * w + 128 * x;
}

} // verus!
