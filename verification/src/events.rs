//! Terminal input events: keys and color-scheme changes.
use vstd::prelude::*;

verus! {

/// A color scheme change event.
#[derive(Debug, Clone, Copy, PartialEq, Eq, Structural)]
pub enum ColorScheme {
    Dark,
    Light,
}

/// Whether a key went up or down.
#[derive(Debug, Clone, Copy, PartialEq, Eq, Structural)]
pub enum KeyKind {
    Up,
    Down,
}

impl KeyKind {
    /// The default kind, `Down`.
    pub fn default() -> (k: KeyKind)
        ensures
            k == KeyKind::Down,
    {
        KeyKind::Down
    }
}

/// A media key.
#[derive(Debug, Clone, Copy, PartialEq, Eq, Structural)]
pub enum MediaCode {
    Unset,
    FastForward,
    LowerVolume,
    MuteVolume,
    Pause,
    Play,
    PlayPause,
    RaiseVolume,
    Record,
    Reverse,
    Rewind,
    Stop,
    TrackNext,
    TrackPrevious,
}

/// A key. An extended key name is kept as a `String`.
#[derive(Debug, Clone, PartialEq, Eq)]
pub enum Code {
    Null,
    Char(char),
    Extended(String),
    Left,
    Right,
    Up,
    Down,
    Space,
    Enter,
    Backspace,
    Escape,
    Tab,
    Begin,
    CapsLock,
    Delete,
    End,
    Find,
    Select,
    F(u8),
    Home,
    Insert,
    Media(MediaCode),
    Keypad(u8),
    Menu,
    NumLock,
    PageDown,
    PageUp,
    Pause,
    PrintScreen,
    ScrollLock,
}

/// The modifier keys held, one bit each: Shift (bit 0), Ctrl, Alt, Super,
/// Hyper, Meta, CapsLock, NumLock, ScrollLock, Keypad (bit 9).
#[derive(Debug, Clone, Copy, PartialEq, Eq, Structural)]
pub struct Meta {
    pub bits: u16,
}

impl Meta {
    /// No modifier.
    pub fn empty() -> (m: Meta)
        ensures
            m.bits == 0,
    {
        Meta { bits: 0 }
    }
}

/// A key event: which key, up or down, the modifiers and whether it
/// repeats.
#[derive(Debug, Clone, PartialEq, Eq)]
pub struct KeyEvent {
    pub code: Code,
    pub kind: KeyKind,
    pub meta: Meta,
    pub repeat: bool,
}

impl KeyEvent {
    /// `code` going up, with no modifier and no repeat.
    #[allow(non_snake_case)]
    pub fn Up(code: Code) -> (e: KeyEvent)
        ensures
            e.code == code,
            e.kind == KeyKind::Up,
            e.meta.bits == 0,
            !e.repeat,
    {
        KeyEvent { code, kind: KeyKind::Up, meta: Meta::empty(), repeat: false }
    }

    /// `code` going down, with no modifier and no repeat.
    #[allow(non_snake_case)]
    pub fn Down(code: Code) -> (e: KeyEvent)
        ensures
            e.code == code,
            e.kind == KeyKind::Down,
            e.meta.bits == 0,
            !e.repeat,
    {
        KeyEvent { code, kind: KeyKind::Down, meta: Meta::empty(), repeat: false }
    }
}

} // verus!
