use vstd::prelude::*;

verus! {

/// The states of the DEC ANSI parser (<https://vt100.net/emu/dec_ansi_parser>).
#[derive(Clone, Copy, PartialEq, Eq, Structural, Debug, Hash)]
pub enum State {
    Ground,
    Escape,
    EscapeIntermediate,
    CsiEntry,
    CsiParam,
    CsiIntermediate,
    CsiIgnore,
    DcsEntry,
    DcsParam,
    DcsIntermediate,
    DcsData,
    DcsIgnore,
    OscData,
    SosPmData,
    ApcData,
}

/// What the parser does with a byte, or on entering or leaving a state.
#[derive(Clone, Copy, PartialEq, Eq, Structural, Debug, Hash)]
pub enum Action {
    /// Nothing.
    Nop,
    /// Forget the collected intermediates and parameters.
    Clear,
    /// Store a private marker or intermediate byte.
    Collect,
    /// Execute a C0 control.
    Execute,
    /// Drop the byte.
    Ignore,
    /// Collect a parameter digit or separator.
    Param,
    /// Print the byte.
    Print,
    /// Dispatch an escape sequence.
    EscDispatch,
    /// Dispatch a control sequence.
    CsiDispatch,
    /// Start a device control string.
    Dcs,
    /// One byte of a device control string.
    DcsData,
    /// End a device control string.
    DcsEnd,
    /// Start an operating system command.
    Osc,
    /// One byte of an operating system command.
    OscData,
    /// End an operating system command.
    OscEnd,
    /// Start an application program command.
    ApcStart,
    /// One byte of an application program command.
    ApcByte,
    /// End an application program command.
    ApcEnd,
}

/// The transition table: the next state and the action for byte `b` in
/// state `s`. CAN and SUB execute and ESC starts an escape from every state;
/// a byte a state does not list leaves the state unchanged and does nothing.
pub open spec fn transition_spec(s: State, b: u8) -> (State, Action) {
    if b == 0x18 || b == 0x1a {
        (State::Ground, Action::Execute)
    } else if b == 0x1b {
        (State::Escape, Action::Nop)
    } else {
        match s {
            State::Ground => {
                if 0x00 <= b && b <= 0x17 {
                    (State::Ground, Action::Execute)
                } else if b == 0x19 {
                    (State::Ground, Action::Execute)
                } else if 0x1c <= b && b <= 0x1f {
                    (State::Ground, Action::Execute)
                } else if 0x20 <= b && b <= 0x7f {
                    (State::Ground, Action::Print)
                } else if 0xc2 <= b && b <= 0xf4 {
                    (State::Ground, Action::Print)
                } else {
                    (State::Ground, Action::Nop)
                }
            },
            State::Escape => {
                if 0x00 <= b && b <= 0x17 {
                    (State::Escape, Action::Execute)
                } else if b == 0x19 {
                    (State::Escape, Action::Execute)
                } else if 0x1c <= b && b <= 0x1f {
                    (State::Escape, Action::Execute)
                } else if b == 0x7f {
                    (State::Escape, Action::Ignore)
                } else if 0x20 <= b && b <= 0x2f {
                    (State::EscapeIntermediate, Action::Collect)
                } else if 0x30 <= b && b <= 0x4f {
                    (State::Ground, Action::EscDispatch)
                } else if 0x51 <= b && b <= 0x57 {
                    (State::Ground, Action::EscDispatch)
                } else if b == 0x59 {
                    (State::Ground, Action::EscDispatch)
                } else if b == 0x5a {
                    (State::Ground, Action::EscDispatch)
                } else if b == 0x5c {
                    (State::Ground, Action::EscDispatch)
                } else if 0x60 <= b && b <= 0x7e {
                    (State::Ground, Action::EscDispatch)
                } else if b == 0x5b {
                    (State::CsiEntry, Action::Nop)
                } else if b == 0x5d {
                    (State::OscData, Action::Nop)
                } else if b == 0x50 {
                    (State::DcsEntry, Action::Nop)
                } else if b == 0x58 {
                    (State::SosPmData, Action::Nop)
                } else if b == 0x5e {
                    (State::SosPmData, Action::Nop)
                } else if b == 0x5f {
                    (State::ApcData, Action::Nop)
                } else {
                    (State::Escape, Action::Nop)
                }
            },
            State::EscapeIntermediate => {
                if 0x00 <= b && b <= 0x17 {
                    (State::EscapeIntermediate, Action::Execute)
                } else if b == 0x19 {
                    (State::EscapeIntermediate, Action::Execute)
                } else if 0x1c <= b && b <= 0x1f {
                    (State::EscapeIntermediate, Action::Execute)
                } else if 0x20 <= b && b <= 0x2f {
                    (State::EscapeIntermediate, Action::Collect)
                } else if b == 0x7f {
                    (State::EscapeIntermediate, Action::Ignore)
                } else if 0x30 <= b && b <= 0x7e {
                    (State::Ground, Action::EscDispatch)
                } else {
                    (State::EscapeIntermediate, Action::Nop)
                }
            },
            State::CsiEntry => {
                if 0x00 <= b && b <= 0x17 {
                    (State::CsiEntry, Action::Execute)
                } else if b == 0x19 {
                    (State::CsiEntry, Action::Execute)
                } else if 0x1c <= b && b <= 0x1f {
                    (State::CsiEntry, Action::Execute)
                } else if b == 0x7f {
                    (State::CsiEntry, Action::Ignore)
                } else if 0x20 <= b && b <= 0x2f {
                    (State::CsiIntermediate, Action::Collect)
                } else if b == 0x3a {
                    (State::CsiIgnore, Action::Nop)
                } else if 0x30 <= b && b <= 0x39 {
                    (State::CsiParam, Action::Param)
                } else if b == 0x3b {
                    (State::CsiParam, Action::Param)
                } else if 0x3c <= b && b <= 0x3f {
                    (State::CsiParam, Action::Collect)
                } else if 0x40 <= b && b <= 0x7e {
                    (State::Ground, Action::CsiDispatch)
                } else {
                    (State::CsiEntry, Action::Nop)
                }
            },
            State::CsiParam => {
                if 0x00 <= b && b <= 0x17 {
                    (State::CsiParam, Action::Execute)
                } else if b == 0x19 {
                    (State::CsiParam, Action::Execute)
                } else if 0x1c <= b && b <= 0x1f {
                    (State::CsiParam, Action::Execute)
                } else if 0x30 <= b && b <= 0x3b {
                    (State::CsiParam, Action::Param)
                } else if b == 0x7f {
                    (State::CsiParam, Action::Ignore)
                } else if 0x3c <= b && b <= 0x3f {
                    (State::CsiIgnore, Action::Nop)
                } else if 0x20 <= b && b <= 0x2f {
                    (State::CsiIntermediate, Action::Collect)
                } else if 0x40 <= b && b <= 0x7e {
                    (State::Ground, Action::CsiDispatch)
                } else {
                    (State::CsiParam, Action::Nop)
                }
            },
            State::CsiIntermediate => {
                if 0x00 <= b && b <= 0x17 {
                    (State::CsiIntermediate, Action::Execute)
                } else if b == 0x19 {
                    (State::CsiIntermediate, Action::Execute)
                } else if 0x1c <= b && b <= 0x1f {
                    (State::CsiIntermediate, Action::Execute)
                } else if 0x20 <= b && b <= 0x2f {
                    (State::CsiIntermediate, Action::Collect)
                } else if b == 0x7f {
                    (State::CsiIntermediate, Action::Ignore)
                } else if 0x30 <= b && b <= 0x3f {
                    (State::CsiIgnore, Action::Nop)
                } else if 0x40 <= b && b <= 0x7e {
                    (State::Ground, Action::CsiDispatch)
                } else {
                    (State::CsiIntermediate, Action::Nop)
                }
            },
            State::CsiIgnore => {
                if 0x00 <= b && b <= 0x17 {
                    (State::CsiIgnore, Action::Execute)
                } else if b == 0x19 {
                    (State::CsiIgnore, Action::Execute)
                } else if 0x1c <= b && b <= 0x1f {
                    (State::CsiIgnore, Action::Execute)
                } else if 0x20 <= b && b <= 0x3f {
                    (State::CsiIgnore, Action::Ignore)
                } else if b == 0x7f {
                    (State::CsiIgnore, Action::Ignore)
                } else if 0x40 <= b && b <= 0x7e {
                    (State::Ground, Action::Nop)
                } else {
                    (State::CsiIgnore, Action::Nop)
                }
            },
            State::DcsEntry => {
                if 0x00 <= b && b <= 0x17 {
                    (State::DcsEntry, Action::Ignore)
                } else if b == 0x19 {
                    (State::DcsEntry, Action::Ignore)
                } else if 0x1c <= b && b <= 0x1f {
                    (State::DcsEntry, Action::Ignore)
                } else if b == 0x7f {
                    (State::DcsEntry, Action::Ignore)
                } else if b == 0x3a {
                    (State::DcsIgnore, Action::Nop)
                } else if 0x20 <= b && b <= 0x2f {
                    (State::DcsIntermediate, Action::Collect)
                } else if 0x30 <= b && b <= 0x39 {
                    (State::DcsParam, Action::Param)
                } else if b == 0x3b {
                    (State::DcsParam, Action::Param)
                } else if 0x3c <= b && b <= 0x3f {
                    (State::DcsParam, Action::Collect)
                } else if 0x40 <= b && b <= 0x7e {
                    (State::DcsData, Action::Nop)
                } else {
                    (State::DcsEntry, Action::Nop)
                }
            },
            State::DcsParam => {
                if 0x00 <= b && b <= 0x17 {
                    (State::DcsParam, Action::Ignore)
                } else if b == 0x19 {
                    (State::DcsParam, Action::Ignore)
                } else if 0x1c <= b && b <= 0x1f {
                    (State::DcsParam, Action::Ignore)
                } else if 0x30 <= b && b <= 0x39 {
                    (State::DcsParam, Action::Param)
                } else if b == 0x3b {
                    (State::DcsParam, Action::Param)
                } else if b == 0x7f {
                    (State::DcsParam, Action::Ignore)
                } else if b == 0x3a {
                    (State::DcsParam, Action::Param)
                } else if 0x3c <= b && b <= 0x3f {
                    (State::DcsIgnore, Action::Nop)
                } else if 0x20 <= b && b <= 0x2f {
                    (State::DcsIntermediate, Action::Collect)
                } else if 0x40 <= b && b <= 0x7e {
                    (State::DcsData, Action::Nop)
                } else {
                    (State::DcsParam, Action::Nop)
                }
            },
            State::DcsIntermediate => {
                if 0x00 <= b && b <= 0x17 {
                    (State::DcsIntermediate, Action::Ignore)
                } else if b == 0x19 {
                    (State::DcsIntermediate, Action::Ignore)
                } else if 0x1c <= b && b <= 0x1f {
                    (State::DcsIntermediate, Action::Ignore)
                } else if 0x20 <= b && b <= 0x2f {
                    (State::DcsIntermediate, Action::Collect)
                } else if b == 0x7f {
                    (State::DcsIntermediate, Action::Ignore)
                } else if 0x30 <= b && b <= 0x3f {
                    (State::DcsIgnore, Action::Nop)
                } else if 0x40 <= b && b <= 0x7e {
                    (State::DcsData, Action::Nop)
                } else {
                    (State::DcsIntermediate, Action::Nop)
                }
            },
            State::DcsData => {
                if 0x00 <= b && b <= 0x17 {
                    (State::DcsData, Action::DcsData)
                } else if b == 0x19 {
                    (State::DcsData, Action::DcsData)
                } else if 0x1c <= b && b <= 0x1f {
                    (State::DcsData, Action::DcsData)
                } else if 0x20 <= b && b <= 0x7e {
                    (State::DcsData, Action::DcsData)
                } else if b == 0x7f {
                    (State::DcsData, Action::Ignore)
                } else if 0x80 <= b && b <= 0xff {
                    (State::DcsData, Action::DcsData)
                } else {
                    (State::DcsData, Action::Nop)
                }
            },
            State::DcsIgnore => {
                if 0x00 <= b && b <= 0x17 {
                    (State::DcsIgnore, Action::Ignore)
                } else if b == 0x19 {
                    (State::DcsIgnore, Action::Ignore)
                } else if 0x1c <= b && b <= 0x1f {
                    (State::DcsIgnore, Action::Ignore)
                } else if 0x20 <= b && b <= 0x7f {
                    (State::DcsIgnore, Action::Ignore)
                } else {
                    (State::DcsIgnore, Action::Nop)
                }
            },
            State::OscData => {
                if 0x00 <= b && b <= 0x06 {
                    (State::OscData, Action::Ignore)
                } else if b == 0x07 {
                    (State::Ground, Action::Ignore)
                } else if 0x08 <= b && b <= 0x17 {
                    (State::OscData, Action::Ignore)
                } else if b == 0x19 {
                    (State::OscData, Action::Ignore)
                } else if 0x1c <= b && b <= 0x1f {
                    (State::OscData, Action::Ignore)
                } else if 0x20 <= b && b <= 0x7f {
                    (State::OscData, Action::OscData)
                } else if 0x80 <= b && b <= 0xff {
                    (State::OscData, Action::OscData)
                } else {
                    (State::OscData, Action::Nop)
                }
            },
            State::SosPmData => {
                if 0x00 <= b && b <= 0x17 {
                    (State::SosPmData, Action::Ignore)
                } else if b == 0x19 {
                    (State::SosPmData, Action::Ignore)
                } else if 0x1c <= b && b <= 0x1f {
                    (State::SosPmData, Action::Ignore)
                } else if 0x20 <= b && b <= 0x7f {
                    (State::SosPmData, Action::Ignore)
                } else {
                    (State::SosPmData, Action::Nop)
                }
            },
            State::ApcData => {
                if 0x00 <= b && b <= 0x17 {
                    (State::ApcData, Action::ApcByte)
                } else if b == 0x19 {
                    (State::ApcData, Action::ApcByte)
                } else if 0x1c <= b && b <= 0x1f {
                    (State::ApcData, Action::ApcByte)
                } else if 0x20 <= b && b <= 0x7f {
                    (State::ApcData, Action::ApcByte)
                } else {
                    (State::ApcData, Action::Nop)
                }
            },
        }
    }
}

/// The action on entering a state.
pub open spec fn entry_spec(s: State) -> Action {
    match s {
        State::Ground => Action::Nop,
        State::Escape => Action::Clear,
        State::EscapeIntermediate => Action::Nop,
        State::CsiEntry => Action::Clear,
        State::CsiParam => Action::Nop,
        State::CsiIntermediate => Action::Nop,
        State::CsiIgnore => Action::Nop,
        State::DcsEntry => Action::Clear,
        State::DcsParam => Action::Nop,
        State::DcsIntermediate => Action::Nop,
        State::DcsData => Action::Dcs,
        State::DcsIgnore => Action::Nop,
        State::OscData => Action::Osc,
        State::SosPmData => Action::Nop,
        State::ApcData => Action::ApcStart,
    }
}

/// The action on leaving a state.
pub open spec fn exit_spec(s: State) -> Action {
    match s {
        State::Ground => Action::Nop,
        State::Escape => Action::Nop,
        State::EscapeIntermediate => Action::Nop,
        State::CsiEntry => Action::Nop,
        State::CsiParam => Action::Nop,
        State::CsiIntermediate => Action::Nop,
        State::CsiIgnore => Action::Nop,
        State::DcsEntry => Action::Nop,
        State::DcsParam => Action::Nop,
        State::DcsIntermediate => Action::Nop,
        State::DcsData => Action::DcsEnd,
        State::DcsIgnore => Action::Nop,
        State::OscData => Action::OscEnd,
        State::SosPmData => Action::Nop,
        State::ApcData => Action::ApcEnd,
    }
}

impl State {
    /// The default state, `Ground`.
    pub fn default() -> (s: State)
        ensures
            s == State::Ground,
    {
        State::Ground
    }

    /// The next state and the action for `b` in this state.
    pub fn transition(self, b: u8) -> (r: (State, Action))
        ensures
            r == transition_spec(self, b),
    {
        let s = self;
        if b == 0x18 || b == 0x1a {
            (State::Ground, Action::Execute)
        } else if b == 0x1b {
            (State::Escape, Action::Nop)
        } else {
            match s {
                State::Ground => {
                    if 0x00 <= b && b <= 0x17 {
                        (State::Ground, Action::Execute)
                    } else if b == 0x19 {
                        (State::Ground, Action::Execute)
                    } else if 0x1c <= b && b <= 0x1f {
                        (State::Ground, Action::Execute)
                    } else if 0x20 <= b && b <= 0x7f {
                        (State::Ground, Action::Print)
                    } else if 0xc2 <= b && b <= 0xf4 {
                        (State::Ground, Action::Print)
                    } else {
                        (State::Ground, Action::Nop)
                    }
                },
                State::Escape => {
                    if 0x00 <= b && b <= 0x17 {
                        (State::Escape, Action::Execute)
                    } else if b == 0x19 {
                        (State::Escape, Action::Execute)
                    } else if 0x1c <= b && b <= 0x1f {
                        (State::Escape, Action::Execute)
                    } else if b == 0x7f {
                        (State::Escape, Action::Ignore)
                    } else if 0x20 <= b && b <= 0x2f {
                        (State::EscapeIntermediate, Action::Collect)
                    } else if 0x30 <= b && b <= 0x4f {
                        (State::Ground, Action::EscDispatch)
                    } else if 0x51 <= b && b <= 0x57 {
                        (State::Ground, Action::EscDispatch)
                    } else if b == 0x59 {
                        (State::Ground, Action::EscDispatch)
                    } else if b == 0x5a {
                        (State::Ground, Action::EscDispatch)
                    } else if b == 0x5c {
                        (State::Ground, Action::EscDispatch)
                    } else if 0x60 <= b && b <= 0x7e {
                        (State::Ground, Action::EscDispatch)
                    } else if b == 0x5b {
                        (State::CsiEntry, Action::Nop)
                    } else if b == 0x5d {
                        (State::OscData, Action::Nop)
                    } else if b == 0x50 {
                        (State::DcsEntry, Action::Nop)
                    } else if b == 0x58 {
                        (State::SosPmData, Action::Nop)
                    } else if b == 0x5e {
                        (State::SosPmData, Action::Nop)
                    } else if b == 0x5f {
                        (State::ApcData, Action::Nop)
                    } else {
                        (State::Escape, Action::Nop)
                    }
                },
                State::EscapeIntermediate => {
                    if 0x00 <= b && b <= 0x17 {
                        (State::EscapeIntermediate, Action::Execute)
                    } else if b == 0x19 {
                        (State::EscapeIntermediate, Action::Execute)
                    } else if 0x1c <= b && b <= 0x1f {
                        (State::EscapeIntermediate, Action::Execute)
                    } else if 0x20 <= b && b <= 0x2f {
                        (State::EscapeIntermediate, Action::Collect)
                    } else if b == 0x7f {
                        (State::EscapeIntermediate, Action::Ignore)
                    } else if 0x30 <= b && b <= 0x7e {
                        (State::Ground, Action::EscDispatch)
                    } else {
                        (State::EscapeIntermediate, Action::Nop)
                    }
                },
                State::CsiEntry => {
                    if 0x00 <= b && b <= 0x17 {
                        (State::CsiEntry, Action::Execute)
                    } else if b == 0x19 {
                        (State::CsiEntry, Action::Execute)
                    } else if 0x1c <= b && b <= 0x1f {
                        (State::CsiEntry, Action::Execute)
                    } else if b == 0x7f {
                        (State::CsiEntry, Action::Ignore)
                    } else if 0x20 <= b && b <= 0x2f {
                        (State::CsiIntermediate, Action::Collect)
                    } else if b == 0x3a {
                        (State::CsiIgnore, Action::Nop)
                    } else if 0x30 <= b && b <= 0x39 {
                        (State::CsiParam, Action::Param)
                    } else if b == 0x3b {
                        (State::CsiParam, Action::Param)
                    } else if 0x3c <= b && b <= 0x3f {
                        (State::CsiParam, Action::Collect)
                    } else if 0x40 <= b && b <= 0x7e {
                        (State::Ground, Action::CsiDispatch)
                    } else {
                        (State::CsiEntry, Action::Nop)
                    }
                },
                State::CsiParam => {
                    if 0x00 <= b && b <= 0x17 {
                        (State::CsiParam, Action::Execute)
                    } else if b == 0x19 {
                        (State::CsiParam, Action::Execute)
                    } else if 0x1c <= b && b <= 0x1f {
                        (State::CsiParam, Action::Execute)
                    } else if 0x30 <= b && b <= 0x3b {
                        (State::CsiParam, Action::Param)
                    } else if b == 0x7f {
                        (State::CsiParam, Action::Ignore)
                    } else if 0x3c <= b && b <= 0x3f {
                        (State::CsiIgnore, Action::Nop)
                    } else if 0x20 <= b && b <= 0x2f {
                        (State::CsiIntermediate, Action::Collect)
                    } else if 0x40 <= b && b <= 0x7e {
                        (State::Ground, Action::CsiDispatch)
                    } else {
                        (State::CsiParam, Action::Nop)
                    }
                },
                State::CsiIntermediate => {
                    if 0x00 <= b && b <= 0x17 {
                        (State::CsiIntermediate, Action::Execute)
                    } else if b == 0x19 {
                        (State::CsiIntermediate, Action::Execute)
                    } else if 0x1c <= b && b <= 0x1f {
                        (State::CsiIntermediate, Action::Execute)
                    } else if 0x20 <= b && b <= 0x2f {
                        (State::CsiIntermediate, Action::Collect)
                    } else if b == 0x7f {
                        (State::CsiIntermediate, Action::Ignore)
                    } else if 0x30 <= b && b <= 0x3f {
                        (State::CsiIgnore, Action::Nop)
                    } else if 0x40 <= b && b <= 0x7e {
                        (State::Ground, Action::CsiDispatch)
                    } else {
                        (State::CsiIntermediate, Action::Nop)
                    }
                },
                State::CsiIgnore => {
                    if 0x00 <= b && b <= 0x17 {
                        (State::CsiIgnore, Action::Execute)
                    } else if b == 0x19 {
                        (State::CsiIgnore, Action::Execute)
                    } else if 0x1c <= b && b <= 0x1f {
                        (State::CsiIgnore, Action::Execute)
                    } else if 0x20 <= b && b <= 0x3f {
                        (State::CsiIgnore, Action::Ignore)
                    } else if b == 0x7f {
                        (State::CsiIgnore, Action::Ignore)
                    } else if 0x40 <= b && b <= 0x7e {
                        (State::Ground, Action::Nop)
                    } else {
                        (State::CsiIgnore, Action::Nop)
                    }
                },
                State::DcsEntry => {
                    if 0x00 <= b && b <= 0x17 {
                        (State::DcsEntry, Action::Ignore)
                    } else if b == 0x19 {
                        (State::DcsEntry, Action::Ignore)
                    } else if 0x1c <= b && b <= 0x1f {
                        (State::DcsEntry, Action::Ignore)
                    } else if b == 0x7f {
                        (State::DcsEntry, Action::Ignore)
                    } else if b == 0x3a {
                        (State::DcsIgnore, Action::Nop)
                    } else if 0x20 <= b && b <= 0x2f {
                        (State::DcsIntermediate, Action::Collect)
                    } else if 0x30 <= b && b <= 0x39 {
                        (State::DcsParam, Action::Param)
                    } else if b == 0x3b {
                        (State::DcsParam, Action::Param)
                    } else if 0x3c <= b && b <= 0x3f {
                        (State::DcsParam, Action::Collect)
                    } else if 0x40 <= b && b <= 0x7e {
                        (State::DcsData, Action::Nop)
                    } else {
                        (State::DcsEntry, Action::Nop)
                    }
                },
                State::DcsParam => {
                    if 0x00 <= b && b <= 0x17 {
                        (State::DcsParam, Action::Ignore)
                    } else if b == 0x19 {
                        (State::DcsParam, Action::Ignore)
                    } else if 0x1c <= b && b <= 0x1f {
                        (State::DcsParam, Action::Ignore)
                    } else if 0x30 <= b && b <= 0x39 {
                        (State::DcsParam, Action::Param)
                    } else if b == 0x3b {
                        (State::DcsParam, Action::Param)
                    } else if b == 0x7f {
                        (State::DcsParam, Action::Ignore)
                    } else if b == 0x3a {
                        (State::DcsParam, Action::Param)
                    } else if 0x3c <= b && b <= 0x3f {
                        (State::DcsIgnore, Action::Nop)
                    } else if 0x20 <= b && b <= 0x2f {
                        (State::DcsIntermediate, Action::Collect)
                    } else if 0x40 <= b && b <= 0x7e {
                        (State::DcsData, Action::Nop)
                    } else {
                        (State::DcsParam, Action::Nop)
                    }
                },
                State::DcsIntermediate => {
                    if 0x00 <= b && b <= 0x17 {
                        (State::DcsIntermediate, Action::Ignore)
                    } else if b == 0x19 {
                        (State::DcsIntermediate, Action::Ignore)
                    } else if 0x1c <= b && b <= 0x1f {
                        (State::DcsIntermediate, Action::Ignore)
                    } else if 0x20 <= b && b <= 0x2f {
                        (State::DcsIntermediate, Action::Collect)
                    } else if b == 0x7f {
                        (State::DcsIntermediate, Action::Ignore)
                    } else if 0x30 <= b && b <= 0x3f {
                        (State::DcsIgnore, Action::Nop)
                    } else if 0x40 <= b && b <= 0x7e {
                        (State::DcsData, Action::Nop)
                    } else {
                        (State::DcsIntermediate, Action::Nop)
                    }
                },
                State::DcsData => {
                    if 0x00 <= b && b <= 0x17 {
                        (State::DcsData, Action::DcsData)
                    } else if b == 0x19 {
                        (State::DcsData, Action::DcsData)
                    } else if 0x1c <= b && b <= 0x1f {
                        (State::DcsData, Action::DcsData)
                    } else if 0x20 <= b && b <= 0x7e {
                        (State::DcsData, Action::DcsData)
                    } else if b == 0x7f {
                        (State::DcsData, Action::Ignore)
                    } else if 0x80 <= b && b <= 0xff {
                        (State::DcsData, Action::DcsData)
                    } else {
                        (State::DcsData, Action::Nop)
                    }
                },
                State::DcsIgnore => {
                    if 0x00 <= b && b <= 0x17 {
                        (State::DcsIgnore, Action::Ignore)
                    } else if b == 0x19 {
                        (State::DcsIgnore, Action::Ignore)
                    } else if 0x1c <= b && b <= 0x1f {
                        (State::DcsIgnore, Action::Ignore)
                    } else if 0x20 <= b && b <= 0x7f {
                        (State::DcsIgnore, Action::Ignore)
                    } else {
                        (State::DcsIgnore, Action::Nop)
                    }
                },
                State::OscData => {
                    if 0x00 <= b && b <= 0x06 {
                        (State::OscData, Action::Ignore)
                    } else if b == 0x07 {
                        (State::Ground, Action::Ignore)
                    } else if 0x08 <= b && b <= 0x17 {
                        (State::OscData, Action::Ignore)
                    } else if b == 0x19 {
                        (State::OscData, Action::Ignore)
                    } else if 0x1c <= b && b <= 0x1f {
                        (State::OscData, Action::Ignore)
                    } else if 0x20 <= b && b <= 0x7f {
                        (State::OscData, Action::OscData)
                    } else if 0x80 <= b && b <= 0xff {
                        (State::OscData, Action::OscData)
                    } else {
                        (State::OscData, Action::Nop)
                    }
                },
                State::SosPmData => {
                    if 0x00 <= b && b <= 0x17 {
                        (State::SosPmData, Action::Ignore)
                    } else if b == 0x19 {
                        (State::SosPmData, Action::Ignore)
                    } else if 0x1c <= b && b <= 0x1f {
                        (State::SosPmData, Action::Ignore)
                    } else if 0x20 <= b && b <= 0x7f {
                        (State::SosPmData, Action::Ignore)
                    } else {
                        (State::SosPmData, Action::Nop)
                    }
                },
                State::ApcData => {
                    if 0x00 <= b && b <= 0x17 {
                        (State::ApcData, Action::ApcByte)
                    } else if b == 0x19 {
                        (State::ApcData, Action::ApcByte)
                    } else if 0x1c <= b && b <= 0x1f {
                        (State::ApcData, Action::ApcByte)
                    } else if 0x20 <= b && b <= 0x7f {
                        (State::ApcData, Action::ApcByte)
                    } else {
                        (State::ApcData, Action::Nop)
                    }
                },
            }
        }
    }

    /// The action on entering this state.
    pub fn entry(self) -> (a: Action)
        ensures
            a == entry_spec(self),
    {
        match self {
            State::Ground => Action::Nop,
            State::Escape => Action::Clear,
            State::EscapeIntermediate => Action::Nop,
            State::CsiEntry => Action::Clear,
            State::CsiParam => Action::Nop,
            State::CsiIntermediate => Action::Nop,
            State::CsiIgnore => Action::Nop,
            State::DcsEntry => Action::Clear,
            State::DcsParam => Action::Nop,
            State::DcsIntermediate => Action::Nop,
            State::DcsData => Action::Dcs,
            State::DcsIgnore => Action::Nop,
            State::OscData => Action::Osc,
            State::SosPmData => Action::Nop,
            State::ApcData => Action::ApcStart,
        }
    }

    /// The action on leaving this state.
    pub fn exit(self) -> (a: Action)
        ensures
            a == exit_spec(self),
    {
        match self {
            State::Ground => Action::Nop,
            State::Escape => Action::Nop,
            State::EscapeIntermediate => Action::Nop,
            State::CsiEntry => Action::Nop,
            State::CsiParam => Action::Nop,
            State::CsiIntermediate => Action::Nop,
            State::CsiIgnore => Action::Nop,
            State::DcsEntry => Action::Nop,
            State::DcsParam => Action::Nop,
            State::DcsIntermediate => Action::Nop,
            State::DcsData => Action::DcsEnd,
            State::DcsIgnore => Action::Nop,
            State::OscData => Action::OscEnd,
            State::SosPmData => Action::Nop,
            State::ApcData => Action::ApcEnd,
        }
    }
}

impl Action {
    /// Whether the action does something.
    pub fn is_some(self) -> (r: bool)
        ensures
            r == !(self is Nop),
    {
        match self {
            Action::Nop => false,
            _ => true,
        }
    }

    /// Whether the action stores an intermediate byte.
    pub fn is_collect(self) -> (r: bool)
        ensures
            r == (self is Collect),
    {
        match self {
            Action::Collect => true,
            _ => false,
        }
    }

    /// The default action, `Nop`.
    pub fn default() -> (a: Action)
        ensures
            a == Action::Nop,
    {
        Action::Nop
    }
}

} // verus!
