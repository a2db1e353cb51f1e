//! The transition table of the second parser, packed one byte per entry.
use vstd::prelude::*;

verus! {

/// What the parser does with a byte, or on entering or leaving a state.
#[derive(Clone, Copy, PartialEq, Eq, Structural, Debug, Hash)]
pub enum Action {
    Nop,
    Ignore,
    Clear,
    Print,
    Execute,
    Collect,
    Param,
    EscDispatch,
    CsiDispatch,
    DcsDispatch,
    DcsByte,
    DcsTermination,
    OscDispatch,
    OscByte,
    OscTermination,
    Unused,
}

/// The states of the parser. They are numbered in declaration order, from
/// `CsiEntry` (0) to `Unset` (15); `Unset` stands for "no next state".
#[derive(Clone, Copy, PartialEq, Eq, Structural, Debug, Hash)]
pub enum State {
    CsiEntry,
    CsiParam,
    CsiIntermediate,
    CsiIgnore,
    DcsEntry,
    DcsParam,
    DcsIntermediate,
    DcsString,
    DcsIgnore,
    OscString,
    SosPmApcString,
    Escape,
    EscapeIntermediate,
    Utf8,
    Ground,
    Unset,
}

/// The number of an action, in declaration order.
pub open spec fn action_number(a: Action) -> u8 {
    match a {
        Action::Nop => 0,
        Action::Ignore => 1,
        Action::Clear => 2,
        Action::Print => 3,
        Action::Execute => 4,
        Action::Collect => 5,
        Action::Param => 6,
        Action::EscDispatch => 7,
        Action::CsiDispatch => 8,
        Action::DcsDispatch => 9,
        Action::DcsByte => 10,
        Action::DcsTermination => 11,
        Action::OscDispatch => 12,
        Action::OscByte => 13,
        Action::OscTermination => 14,
        Action::Unused => 15,
    }
}

/// The action with number `n` (below 16).
pub open spec fn action_from(n: u8) -> Action {
    if n == 0 {
        Action::Nop
    } else if n == 1 {
        Action::Ignore
    } else if n == 2 {
        Action::Clear
    } else if n == 3 {
        Action::Print
    } else if n == 4 {
        Action::Execute
    } else if n == 5 {
        Action::Collect
    } else if n == 6 {
        Action::Param
    } else if n == 7 {
        Action::EscDispatch
    } else if n == 8 {
        Action::CsiDispatch
    } else if n == 9 {
        Action::DcsDispatch
    } else if n == 10 {
        Action::DcsByte
    } else if n == 11 {
        Action::DcsTermination
    } else if n == 12 {
        Action::OscDispatch
    } else if n == 13 {
        Action::OscByte
    } else if n == 14 {
        Action::OscTermination
    } else {
        Action::Unused
    }
}

/// The number of a state, in declaration order.
pub open spec fn state_number(s: State) -> u8 {
    match s {
        State::CsiEntry => 0,
        State::CsiParam => 1,
        State::CsiIntermediate => 2,
        State::CsiIgnore => 3,
        State::DcsEntry => 4,
        State::DcsParam => 5,
        State::DcsIntermediate => 6,
        State::DcsString => 7,
        State::DcsIgnore => 8,
        State::OscString => 9,
        State::SosPmApcString => 10,
        State::Escape => 11,
        State::EscapeIntermediate => 12,
        State::Utf8 => 13,
        State::Ground => 14,
        State::Unset => 15,
    }
}

/// The state with number `n` (below 16).
pub open spec fn state_from(n: u8) -> State {
    if n == 0 {
        State::CsiEntry
    } else if n == 1 {
        State::CsiParam
    } else if n == 2 {
        State::CsiIntermediate
    } else if n == 3 {
        State::CsiIgnore
    } else if n == 4 {
        State::DcsEntry
    } else if n == 5 {
        State::DcsParam
    } else if n == 6 {
        State::DcsIntermediate
    } else if n == 7 {
        State::DcsString
    } else if n == 8 {
        State::DcsIgnore
    } else if n == 9 {
        State::OscString
    } else if n == 10 {
        State::SosPmApcString
    } else if n == 11 {
        State::Escape
    } else if n == 12 {
        State::EscapeIntermediate
    } else if n == 13 {
        State::Utf8
    } else if n == 14 {
        State::Ground
    } else {
        State::Unset
    }
}

/// The rule a state lists for byte `b`, if any. A rule that names only an
/// action keeps the state.
pub open spec fn own_rule(s: State, b: u8) -> Option<(Action, State)> {
    match s {
        State::CsiEntry => if 0x00 <= b && b <= 0x17 {
            Some((Action::Execute, State::CsiEntry))
        } else if b == 0x19 {
            Some((Action::Execute, State::CsiEntry))
        } else if 0x1c <= b && b <= 0x1f {
            Some((Action::Execute, State::CsiEntry))
        } else if b == 0x7f {
            Some((Action::Ignore, State::CsiEntry))
        } else if 0x20 <= b && b <= 0x2f {
            Some((Action::Collect, State::CsiIntermediate))
        } else if b == 0x3a {
            Some((Action::Nop, State::CsiIgnore))
        } else if 0x30 <= b && b <= 0x39 {
            Some((Action::Param, State::CsiParam))
        } else if b == 0x3b {
            Some((Action::Param, State::CsiParam))
        } else if 0x3c <= b && b <= 0x3f {
            Some((Action::Collect, State::CsiParam))
        } else if 0x40 <= b && b <= 0x7e {
            Some((Action::CsiDispatch, State::Ground))
        } else {
            None
        },
        State::CsiParam => if 0x00 <= b && b <= 0x17 {
            Some((Action::Execute, State::CsiParam))
        } else if b == 0x19 {
            Some((Action::Execute, State::CsiParam))
        } else if 0x1c <= b && b <= 0x1f {
            Some((Action::Execute, State::CsiParam))
        } else if 0x30 <= b && b <= 0x39 {
            Some((Action::Param, State::CsiParam))
        } else if b == 0x3b {
            Some((Action::Param, State::CsiParam))
        } else if b == 0x7f {
            Some((Action::Ignore, State::CsiParam))
        } else if 0x3c <= b && b <= 0x3f {
            Some((Action::Nop, State::CsiIgnore))
        } else if b == 0x3a {
            Some((Action::Param, State::CsiParam))
        } else if 0x20 <= b && b <= 0x2f {
            Some((Action::Collect, State::CsiIntermediate))
        } else if 0x40 <= b && b <= 0x7e {
            Some((Action::CsiDispatch, State::Ground))
        } else {
            None
        },
        State::CsiIntermediate => if 0x00 <= b && b <= 0x17 {
            Some((Action::Execute, State::CsiIntermediate))
        } else if b == 0x19 {
            Some((Action::Execute, State::CsiIntermediate))
        } else if 0x1c <= b && b <= 0x1f {
            Some((Action::Execute, State::CsiIntermediate))
        } else if 0x20 <= b && b <= 0x2f {
            Some((Action::Collect, State::CsiIntermediate))
        } else if b == 0x7f {
            Some((Action::Ignore, State::CsiIntermediate))
        } else if 0x30 <= b && b <= 0x3f {
            Some((Action::Nop, State::CsiIgnore))
        } else if 0x40 <= b && b <= 0x7e {
            Some((Action::CsiDispatch, State::Ground))
        } else {
            None
        },
        State::CsiIgnore => if 0x00 <= b && b <= 0x17 {
            Some((Action::Execute, State::CsiIgnore))
        } else if b == 0x19 {
            Some((Action::Execute, State::CsiIgnore))
        } else if 0x1c <= b && b <= 0x1f {
            Some((Action::Execute, State::CsiIgnore))
        } else if 0x20 <= b && b <= 0x3f {
            Some((Action::Ignore, State::CsiIgnore))
        } else if b == 0x7f {
            Some((Action::Ignore, State::CsiIgnore))
        } else if 0x40 <= b && b <= 0x7e {
            Some((Action::Nop, State::Ground))
        } else {
            None
        },
        State::DcsEntry => if 0x00 <= b && b <= 0x17 {
            Some((Action::Ignore, State::DcsEntry))
        } else if b == 0x19 {
            Some((Action::Ignore, State::DcsEntry))
        } else if 0x1c <= b && b <= 0x1f {
            Some((Action::Ignore, State::DcsEntry))
        } else if b == 0x7f {
            Some((Action::Ignore, State::DcsEntry))
        } else if b == 0x3a {
            Some((Action::Nop, State::DcsIgnore))
        } else if 0x20 <= b && b <= 0x2f {
            Some((Action::Collect, State::DcsIntermediate))
        } else if 0x30 <= b && b <= 0x39 {
            Some((Action::Param, State::DcsParam))
        } else if b == 0x3b {
            Some((Action::Param, State::DcsParam))
        } else if 0x3c <= b && b <= 0x3f {
            Some((Action::Collect, State::DcsParam))
        } else if 0x40 <= b && b <= 0x7e {
            Some((Action::Nop, State::DcsString))
        } else {
            None
        },
        State::DcsParam => if 0x00 <= b && b <= 0x17 {
            Some((Action::Ignore, State::DcsParam))
        } else if b == 0x19 {
            Some((Action::Ignore, State::DcsParam))
        } else if 0x1c <= b && b <= 0x1f {
            Some((Action::Ignore, State::DcsParam))
        } else if 0x30 <= b && b <= 0x39 {
            Some((Action::Param, State::DcsParam))
        } else if b == 0x3b {
            Some((Action::Param, State::DcsParam))
        } else if b == 0x7f {
            Some((Action::Ignore, State::DcsParam))
        } else if b == 0x3a {
            Some((Action::Nop, State::DcsIgnore))
        } else if 0x3c <= b && b <= 0x3f {
            Some((Action::Nop, State::DcsIgnore))
        } else if 0x20 <= b && b <= 0x2f {
            Some((Action::Collect, State::DcsIntermediate))
        } else if 0x40 <= b && b <= 0x7e {
            Some((Action::Nop, State::DcsString))
        } else {
            None
        },
        State::DcsIntermediate => if 0x00 <= b && b <= 0x17 {
            Some((Action::Ignore, State::DcsIntermediate))
        } else if b == 0x19 {
            Some((Action::Ignore, State::DcsIntermediate))
        } else if 0x1c <= b && b <= 0x1f {
            Some((Action::Ignore, State::DcsIntermediate))
        } else if 0x20 <= b && b <= 0x2f {
            Some((Action::Collect, State::DcsIntermediate))
        } else if b == 0x7f {
            Some((Action::Ignore, State::DcsIntermediate))
        } else if 0x30 <= b && b <= 0x3f {
            Some((Action::Nop, State::DcsIgnore))
        } else if 0x40 <= b && b <= 0x7e {
            Some((Action::Nop, State::DcsString))
        } else {
            None
        },
        State::DcsString => if 0x00 <= b && b <= 0x17 {
            Some((Action::DcsByte, State::DcsString))
        } else if b == 0x19 {
            Some((Action::DcsByte, State::DcsString))
        } else if 0x1c <= b && b <= 0x1f {
            Some((Action::DcsByte, State::DcsString))
        } else if 0x20 <= b && b <= 0x7e {
            Some((Action::DcsByte, State::DcsString))
        } else if b == 0x7f {
            Some((Action::Ignore, State::DcsString))
        } else {
            None
        },
        State::DcsIgnore => if 0x00 <= b && b <= 0x17 {
            Some((Action::Ignore, State::DcsIgnore))
        } else if b == 0x19 {
            Some((Action::Ignore, State::DcsIgnore))
        } else if 0x1c <= b && b <= 0x1f {
            Some((Action::Ignore, State::DcsIgnore))
        } else if 0x20 <= b && b <= 0x7f {
            Some((Action::Ignore, State::DcsIgnore))
        } else {
            None
        },
        State::OscString => if 0x00 <= b && b <= 0x17 {
            Some((Action::Ignore, State::OscString))
        } else if b == 0x19 {
            Some((Action::Ignore, State::OscString))
        } else if 0x1c <= b && b <= 0x1f {
            Some((Action::Ignore, State::OscString))
        } else if 0x20 <= b && b <= 0x7f {
            Some((Action::OscByte, State::OscString))
        } else {
            None
        },
        State::SosPmApcString => if 0x00 <= b && b <= 0x17 {
            Some((Action::Ignore, State::SosPmApcString))
        } else if b == 0x19 {
            Some((Action::Ignore, State::SosPmApcString))
        } else if 0x1c <= b && b <= 0x1f {
            Some((Action::Ignore, State::SosPmApcString))
        } else if 0x20 <= b && b <= 0x7f {
            Some((Action::Ignore, State::SosPmApcString))
        } else {
            None
        },
        State::Escape => if 0x00 <= b && b <= 0x17 {
            Some((Action::Execute, State::Escape))
        } else if b == 0x19 {
            Some((Action::Execute, State::Escape))
        } else if 0x1c <= b && b <= 0x1f {
            Some((Action::Execute, State::Escape))
        } else if b == 0x7f {
            Some((Action::Ignore, State::Escape))
        } else if 0x20 <= b && b <= 0x2f {
            Some((Action::Collect, State::EscapeIntermediate))
        } else if 0x30 <= b && b <= 0x4f {
            Some((Action::EscDispatch, State::Ground))
        } else if 0x51 <= b && b <= 0x57 {
            Some((Action::EscDispatch, State::Ground))
        } else if b == 0x59 {
            Some((Action::EscDispatch, State::Ground))
        } else if b == 0x5a {
            Some((Action::EscDispatch, State::Ground))
        } else if b == 0x5c {
            Some((Action::EscDispatch, State::Ground))
        } else if 0x60 <= b && b <= 0x7e {
            Some((Action::EscDispatch, State::Ground))
        } else if b == 0x5b {
            Some((Action::Nop, State::CsiEntry))
        } else if b == 0x5d {
            Some((Action::Nop, State::OscString))
        } else if b == 0x50 {
            Some((Action::Nop, State::DcsEntry))
        } else if b == 0x58 {
            Some((Action::Nop, State::SosPmApcString))
        } else if b == 0x5e {
            Some((Action::Nop, State::SosPmApcString))
        } else if b == 0x5f {
            Some((Action::Nop, State::SosPmApcString))
        } else {
            None
        },
        State::EscapeIntermediate => if 0x00 <= b && b <= 0x17 {
            Some((Action::Execute, State::EscapeIntermediate))
        } else if b == 0x19 {
            Some((Action::Execute, State::EscapeIntermediate))
        } else if 0x1c <= b && b <= 0x1f {
            Some((Action::Execute, State::EscapeIntermediate))
        } else if 0x20 <= b && b <= 0x2f {
            Some((Action::Collect, State::EscapeIntermediate))
        } else if b == 0x7f {
            Some((Action::Ignore, State::EscapeIntermediate))
        } else if 0x30 <= b && b <= 0x7e {
            Some((Action::EscDispatch, State::Ground))
        } else {
            None
        },
        State::Utf8 => if 0x80 <= b && b <= 0xbf {
            Some((Action::Collect, State::Utf8))
        } else {
            None
        },
        State::Ground => if 0x00 <= b && b <= 0x17 {
            Some((Action::Execute, State::Ground))
        } else if b == 0x19 {
            Some((Action::Execute, State::Ground))
        } else if 0x1c <= b && b <= 0x1f {
            Some((Action::Execute, State::Ground))
        } else if 0x20 <= b && b <= 0x7f {
            Some((Action::Collect, State::Utf8))
        } else if 0xc2 <= b && b <= 0xdf {
            Some((Action::Collect, State::Utf8))
        } else if 0xe0 <= b && b <= 0xef {
            Some((Action::Collect, State::Utf8))
        } else if 0xf0 <= b && b <= 0xf4 {
            Some((Action::Collect, State::Utf8))
        } else {
            None
        },
        State::Unset => None,
    }
}

/// The rule every state shares for byte `b`, if any.
pub open spec fn anywhere_rule(b: u8) -> Option<(Action, State)> {
    if b == 0x18 {
        Some((Action::Execute, State::Ground))
    } else if b == 0x1a {
        Some((Action::Execute, State::Ground))
    } else if 0x80 <= b && b <= 0x8f {
        Some((Action::Execute, State::Ground))
    } else if 0x91 <= b && b <= 0x97 {
        Some((Action::Execute, State::Ground))
    } else if b == 0x99 {
        Some((Action::Execute, State::Ground))
    } else if b == 0x9a {
        Some((Action::Execute, State::Ground))
    } else if b == 0x9c {
        Some((Action::Nop, State::Ground))
    } else if b == 0x1b {
        Some((Action::Nop, State::Escape))
    } else if b == 0x98 {
        Some((Action::Nop, State::SosPmApcString))
    } else if b == 0x9e {
        Some((Action::Nop, State::SosPmApcString))
    } else if b == 0x9f {
        Some((Action::Nop, State::SosPmApcString))
    } else if b == 0x90 {
        Some((Action::Nop, State::DcsEntry))
    } else if b == 0x9d {
        Some((Action::Nop, State::OscString))
    } else if b == 0x9b {
        Some((Action::Nop, State::OscString))
    } else {
        None
    }
}

/// The action and next state for byte `b` in state `s`: the state's own
/// rule, else the shared rule, else no action and no next state.
pub open spec fn transition_spec(s: State, b: u8) -> (Action, State) {
    match own_rule(s, b) {
        Some(r) => r,
        None => match anywhere_rule(b) {
            Some(r) => r,
            None => (Action::Nop, State::Unset),
        },
    }
}

/// The action on entering a state.
pub open spec fn entry_spec(s: State) -> Action {
    match s {
        State::Escape => Action::Clear,
        State::CsiEntry => Action::Clear,
        State::DcsEntry => Action::Clear,
        State::DcsString => Action::DcsDispatch,
        State::OscString => Action::OscDispatch,
        _ => Action::Nop,
    }
}

/// The action on leaving a state.
pub open spec fn exit_spec(s: State) -> Action {
    match s {
        State::DcsString => Action::DcsTermination,
        State::OscString => Action::OscTermination,
        _ => Action::Nop,
    }
}

/// The packed form of an action and a state: the action in the high four
/// bits, the state in the low four.
pub open spec fn pack_spec(action: Action, state: State) -> u8 {
    (action_number(action) * 16 + state_number(state)) as u8
}

fn own_rule_exec(s: State, b: u8) -> (r: Option<(Action, State)>)
    ensures
        r == own_rule(s, b),
{
    match s {
        State::CsiEntry => if 0x00 <= b && b <= 0x17 {
            Some((Action::Execute, State::CsiEntry))
        } else if b == 0x19 {
            Some((Action::Execute, State::CsiEntry))
        } else if 0x1c <= b && b <= 0x1f {
            Some((Action::Execute, State::CsiEntry))
        } else if b == 0x7f {
            Some((Action::Ignore, State::CsiEntry))
        } else if 0x20 <= b && b <= 0x2f {
            Some((Action::Collect, State::CsiIntermediate))
        } else if b == 0x3a {
            Some((Action::Nop, State::CsiIgnore))
        } else if 0x30 <= b && b <= 0x39 {
            Some((Action::Param, State::CsiParam))
        } else if b == 0x3b {
            Some((Action::Param, State::CsiParam))
        } else if 0x3c <= b && b <= 0x3f {
            Some((Action::Collect, State::CsiParam))
        } else if 0x40 <= b && b <= 0x7e {
            Some((Action::CsiDispatch, State::Ground))
        } else {
            None
        },
        State::CsiParam => if 0x00 <= b && b <= 0x17 {
            Some((Action::Execute, State::CsiParam))
        } else if b == 0x19 {
            Some((Action::Execute, State::CsiParam))
        } else if 0x1c <= b && b <= 0x1f {
            Some((Action::Execute, State::CsiParam))
        } else if 0x30 <= b && b <= 0x39 {
            Some((Action::Param, State::CsiParam))
        } else if b == 0x3b {
            Some((Action::Param, State::CsiParam))
        } else if b == 0x7f {
            Some((Action::Ignore, State::CsiParam))
        } else if 0x3c <= b && b <= 0x3f {
            Some((Action::Nop, State::CsiIgnore))
        } else if b == 0x3a {
            Some((Action::Param, State::CsiParam))
        } else if 0x20 <= b && b <= 0x2f {
            Some((Action::Collect, State::CsiIntermediate))
        } else if 0x40 <= b && b <= 0x7e {
            Some((Action::CsiDispatch, State::Ground))
        } else {
            None
        },
        State::CsiIntermediate => if 0x00 <= b && b <= 0x17 {
            Some((Action::Execute, State::CsiIntermediate))
        } else if b == 0x19 {
            Some((Action::Execute, State::CsiIntermediate))
        } else if 0x1c <= b && b <= 0x1f {
            Some((Action::Execute, State::CsiIntermediate))
        } else if 0x20 <= b && b <= 0x2f {
            Some((Action::Collect, State::CsiIntermediate))
        } else if b == 0x7f {
            Some((Action::Ignore, State::CsiIntermediate))
        } else if 0x30 <= b && b <= 0x3f {
            Some((Action::Nop, State::CsiIgnore))
        } else if 0x40 <= b && b <= 0x7e {
            Some((Action::CsiDispatch, State::Ground))
        } else {
            None
        },
        State::CsiIgnore => if 0x00 <= b && b <= 0x17 {
            Some((Action::Execute, State::CsiIgnore))
        } else if b == 0x19 {
            Some((Action::Execute, State::CsiIgnore))
        } else if 0x1c <= b && b <= 0x1f {
            Some((Action::Execute, State::CsiIgnore))
        } else if 0x20 <= b && b <= 0x3f {
            Some((Action::Ignore, State::CsiIgnore))
        } else if b == 0x7f {
            Some((Action::Ignore, State::CsiIgnore))
        } else if 0x40 <= b && b <= 0x7e {
            Some((Action::Nop, State::Ground))
        } else {
            None
        },
        State::DcsEntry => if 0x00 <= b && b <= 0x17 {
            Some((Action::Ignore, State::DcsEntry))
        } else if b == 0x19 {
            Some((Action::Ignore, State::DcsEntry))
        } else if 0x1c <= b && b <= 0x1f {
            Some((Action::Ignore, State::DcsEntry))
        } else if b == 0x7f {
            Some((Action::Ignore, State::DcsEntry))
        } else if b == 0x3a {
            Some((Action::Nop, State::DcsIgnore))
        } else if 0x20 <= b && b <= 0x2f {
            Some((Action::Collect, State::DcsIntermediate))
        } else if 0x30 <= b && b <= 0x39 {
            Some((Action::Param, State::DcsParam))
        } else if b == 0x3b {
            Some((Action::Param, State::DcsParam))
        } else if 0x3c <= b && b <= 0x3f {
            Some((Action::Collect, State::DcsParam))
        } else if 0x40 <= b && b <= 0x7e {
            Some((Action::Nop, State::DcsString))
        } else {
            None
        },
        State::DcsParam => if 0x00 <= b && b <= 0x17 {
            Some((Action::Ignore, State::DcsParam))
        } else if b == 0x19 {
            Some((Action::Ignore, State::DcsParam))
        } else if 0x1c <= b && b <= 0x1f {
            Some((Action::Ignore, State::DcsParam))
        } else if 0x30 <= b && b <= 0x39 {
            Some((Action::Param, State::DcsParam))
        } else if b == 0x3b {
            Some((Action::Param, State::DcsParam))
        } else if b == 0x7f {
            Some((Action::Ignore, State::DcsParam))
        } else if b == 0x3a {
            Some((Action::Nop, State::DcsIgnore))
        } else if 0x3c <= b && b <= 0x3f {
            Some((Action::Nop, State::DcsIgnore))
        } else if 0x20 <= b && b <= 0x2f {
            Some((Action::Collect, State::DcsIntermediate))
        } else if 0x40 <= b && b <= 0x7e {
            Some((Action::Nop, State::DcsString))
        } else {
            None
        },
        State::DcsIntermediate => if 0x00 <= b && b <= 0x17 {
            Some((Action::Ignore, State::DcsIntermediate))
        } else if b == 0x19 {
            Some((Action::Ignore, State::DcsIntermediate))
        } else if 0x1c <= b && b <= 0x1f {
            Some((Action::Ignore, State::DcsIntermediate))
        } else if 0x20 <= b && b <= 0x2f {
            Some((Action::Collect, State::DcsIntermediate))
        } else if b == 0x7f {
            Some((Action::Ignore, State::DcsIntermediate))
        } else if 0x30 <= b && b <= 0x3f {
            Some((Action::Nop, State::DcsIgnore))
        } else if 0x40 <= b && b <= 0x7e {
            Some((Action::Nop, State::DcsString))
        } else {
            None
        },
        State::DcsString => if 0x00 <= b && b <= 0x17 {
            Some((Action::DcsByte, State::DcsString))
        } else if b == 0x19 {
            Some((Action::DcsByte, State::DcsString))
        } else if 0x1c <= b && b <= 0x1f {
            Some((Action::DcsByte, State::DcsString))
        } else if 0x20 <= b && b <= 0x7e {
            Some((Action::DcsByte, State::DcsString))
        } else if b == 0x7f {
            Some((Action::Ignore, State::DcsString))
        } else {
            None
        },
        State::DcsIgnore => if 0x00 <= b && b <= 0x17 {
            Some((Action::Ignore, State::DcsIgnore))
        } else if b == 0x19 {
            Some((Action::Ignore, State::DcsIgnore))
        } else if 0x1c <= b && b <= 0x1f {
            Some((Action::Ignore, State::DcsIgnore))
        } else if 0x20 <= b && b <= 0x7f {
            Some((Action::Ignore, State::DcsIgnore))
        } else {
            None
        },
        State::OscString => if 0x00 <= b && b <= 0x17 {
            Some((Action::Ignore, State::OscString))
        } else if b == 0x19 {
            Some((Action::Ignore, State::OscString))
        } else if 0x1c <= b && b <= 0x1f {
            Some((Action::Ignore, State::OscString))
        } else if 0x20 <= b && b <= 0x7f {
            Some((Action::OscByte, State::OscString))
        } else {
            None
        },
        State::SosPmApcString => if 0x00 <= b && b <= 0x17 {
            Some((Action::Ignore, State::SosPmApcString))
        } else if b == 0x19 {
            Some((Action::Ignore, State::SosPmApcString))
        } else if 0x1c <= b && b <= 0x1f {
            Some((Action::Ignore, State::SosPmApcString))
        } else if 0x20 <= b && b <= 0x7f {
            Some((Action::Ignore, State::SosPmApcString))
        } else {
            None
        },
        State::Escape => if 0x00 <= b && b <= 0x17 {
            Some((Action::Execute, State::Escape))
        } else if b == 0x19 {
            Some((Action::Execute, State::Escape))
        } else if 0x1c <= b && b <= 0x1f {
            Some((Action::Execute, State::Escape))
        } else if b == 0x7f {
            Some((Action::Ignore, State::Escape))
        } else if 0x20 <= b && b <= 0x2f {
            Some((Action::Collect, State::EscapeIntermediate))
        } else if 0x30 <= b && b <= 0x4f {
            Some((Action::EscDispatch, State::Ground))
        } else if 0x51 <= b && b <= 0x57 {
            Some((Action::EscDispatch, State::Ground))
        } else if b == 0x59 {
            Some((Action::EscDispatch, State::Ground))
        } else if b == 0x5a {
            Some((Action::EscDispatch, State::Ground))
        } else if b == 0x5c {
            Some((Action::EscDispatch, State::Ground))
        } else if 0x60 <= b && b <= 0x7e {
            Some((Action::EscDispatch, State::Ground))
        } else if b == 0x5b {
            Some((Action::Nop, State::CsiEntry))
        } else if b == 0x5d {
            Some((Action::Nop, State::OscString))
        } else if b == 0x50 {
            Some((Action::Nop, State::DcsEntry))
        } else if b == 0x58 {
            Some((Action::Nop, State::SosPmApcString))
        } else if b == 0x5e {
            Some((Action::Nop, State::SosPmApcString))
        } else if b == 0x5f {
            Some((Action::Nop, State::SosPmApcString))
        } else {
            None
        },
        State::EscapeIntermediate => if 0x00 <= b && b <= 0x17 {
            Some((Action::Execute, State::EscapeIntermediate))
        } else if b == 0x19 {
            Some((Action::Execute, State::EscapeIntermediate))
        } else if 0x1c <= b && b <= 0x1f {
            Some((Action::Execute, State::EscapeIntermediate))
        } else if 0x20 <= b && b <= 0x2f {
            Some((Action::Collect, State::EscapeIntermediate))
        } else if b == 0x7f {
            Some((Action::Ignore, State::EscapeIntermediate))
        } else if 0x30 <= b && b <= 0x7e {
            Some((Action::EscDispatch, State::Ground))
        } else {
            None
        },
        State::Utf8 => if 0x80 <= b && b <= 0xbf {
            Some((Action::Collect, State::Utf8))
        } else {
            None
        },
        State::Ground => if 0x00 <= b && b <= 0x17 {
            Some((Action::Execute, State::Ground))
        } else if b == 0x19 {
            Some((Action::Execute, State::Ground))
        } else if 0x1c <= b && b <= 0x1f {
            Some((Action::Execute, State::Ground))
        } else if 0x20 <= b && b <= 0x7f {
            Some((Action::Collect, State::Utf8))
        } else if 0xc2 <= b && b <= 0xdf {
            Some((Action::Collect, State::Utf8))
        } else if 0xe0 <= b && b <= 0xef {
            Some((Action::Collect, State::Utf8))
        } else if 0xf0 <= b && b <= 0xf4 {
            Some((Action::Collect, State::Utf8))
        } else {
            None
        },
        State::Unset => None,
    }
}

fn anywhere_rule_exec(b: u8) -> (r: Option<(Action, State)>)
    ensures
        r == anywhere_rule(b),
{
    if b == 0x18 {
        Some((Action::Execute, State::Ground))
    } else if b == 0x1a {
        Some((Action::Execute, State::Ground))
    } else if 0x80 <= b && b <= 0x8f {
        Some((Action::Execute, State::Ground))
    } else if 0x91 <= b && b <= 0x97 {
        Some((Action::Execute, State::Ground))
    } else if b == 0x99 {
        Some((Action::Execute, State::Ground))
    } else if b == 0x9a {
        Some((Action::Execute, State::Ground))
    } else if b == 0x9c {
        Some((Action::Nop, State::Ground))
    } else if b == 0x1b {
        Some((Action::Nop, State::Escape))
    } else if b == 0x98 {
        Some((Action::Nop, State::SosPmApcString))
    } else if b == 0x9e {
        Some((Action::Nop, State::SosPmApcString))
    } else if b == 0x9f {
        Some((Action::Nop, State::SosPmApcString))
    } else if b == 0x90 {
        Some((Action::Nop, State::DcsEntry))
    } else if b == 0x9d {
        Some((Action::Nop, State::OscString))
    } else if b == 0x9b {
        Some((Action::Nop, State::OscString))
    } else {
        None
    }
}

/// The action and the next state for `byte` in `state`.
pub fn transition(state: State, byte: u8) -> (r: (Action, State))
    ensures
        r == transition_spec(state, byte),
{
    match own_rule_exec(state, byte) {
        Some(r) => r,
        None => match anywhere_rule_exec(byte) {
            Some(r) => r,
            None => (Action::Nop, State::Unset),
        },
    }
}

/// The action on entering `state`.
pub fn entry(state: State) -> (a: Action)
    ensures
        a == entry_spec(state),
{
    match state {
        State::Escape => Action::Clear,
        State::CsiEntry => Action::Clear,
        State::DcsEntry => Action::Clear,
        State::DcsString => Action::DcsDispatch,
        State::OscString => Action::OscDispatch,
        _ => Action::Nop,
    }
}

/// The action on leaving `state`.
pub fn exit(state: State) -> (a: Action)
    ensures
        a == exit_spec(state),
{
    match state {
        State::DcsString => Action::DcsTermination,
        State::OscString => Action::OscTermination,
        _ => Action::Nop,
    }
}

impl Action {
    /// The number of the action.
    pub fn number(self) -> (n: u8)
        ensures
            n == action_number(self),
            n < 16,
    {
        match self {
            Action::Nop => 0,
            Action::Ignore => 1,
            Action::Clear => 2,
            Action::Print => 3,
            Action::Execute => 4,
            Action::Collect => 5,
            Action::Param => 6,
            Action::EscDispatch => 7,
            Action::CsiDispatch => 8,
            Action::DcsDispatch => 9,
            Action::DcsByte => 10,
            Action::DcsTermination => 11,
            Action::OscDispatch => 12,
            Action::OscByte => 13,
            Action::OscTermination => 14,
            Action::Unused => 15,
        }
    }

    /// The action with number `n`; every number below 16 names one.
    pub fn from_number(n: u8) -> (a: Action)
        requires
            n < 16,
        ensures
            a == action_from(n),
            action_number(a) == n,
    {
        if n == 0 {
            Action::Nop
        } else if n == 1 {
            Action::Ignore
        } else if n == 2 {
            Action::Clear
        } else if n == 3 {
            Action::Print
        } else if n == 4 {
            Action::Execute
        } else if n == 5 {
            Action::Collect
        } else if n == 6 {
            Action::Param
        } else if n == 7 {
            Action::EscDispatch
        } else if n == 8 {
            Action::CsiDispatch
        } else if n == 9 {
            Action::DcsDispatch
        } else if n == 10 {
            Action::DcsByte
        } else if n == 11 {
            Action::DcsTermination
        } else if n == 12 {
            Action::OscDispatch
        } else if n == 13 {
            Action::OscByte
        } else if n == 14 {
            Action::OscTermination
        } else {
            Action::Unused
        }
    }

    /// Whether the action prints the byte.
    pub fn is_print(self) -> (r: bool)
        ensures
            r == (self is Print),
    {
        match self {
            Action::Print => true,
            _ => false,
        }
    }

    /// The default action, `Nop`.
    pub fn default() -> (a: Action)
        ensures
            a == Action::Nop,
    {
        Action::Nop
    }
}

impl State {
    /// The number of the state.
    pub fn number(self) -> (n: u8)
        ensures
            n == state_number(self),
            n < 16,
    {
        match self {
            State::CsiEntry => 0,
            State::CsiParam => 1,
            State::CsiIntermediate => 2,
            State::CsiIgnore => 3,
            State::DcsEntry => 4,
            State::DcsParam => 5,
            State::DcsIntermediate => 6,
            State::DcsString => 7,
            State::DcsIgnore => 8,
            State::OscString => 9,
            State::SosPmApcString => 10,
            State::Escape => 11,
            State::EscapeIntermediate => 12,
            State::Utf8 => 13,
            State::Ground => 14,
            State::Unset => 15,
        }
    }

    /// The state with number `n`; every number below 16 names one.
    pub fn from_number(n: u8) -> (s: State)
        requires
            n < 16,
        ensures
            s == state_from(n),
            state_number(s) == n,
    {
        if n == 0 {
            State::CsiEntry
        } else if n == 1 {
            State::CsiParam
        } else if n == 2 {
            State::CsiIntermediate
        } else if n == 3 {
            State::CsiIgnore
        } else if n == 4 {
            State::DcsEntry
        } else if n == 5 {
            State::DcsParam
        } else if n == 6 {
            State::DcsIntermediate
        } else if n == 7 {
            State::DcsString
        } else if n == 8 {
            State::DcsIgnore
        } else if n == 9 {
            State::OscString
        } else if n == 10 {
            State::SosPmApcString
        } else if n == 11 {
            State::Escape
        } else if n == 12 {
            State::EscapeIntermediate
        } else if n == 13 {
            State::Utf8
        } else if n == 14 {
            State::Ground
        } else {
            State::Unset
        }
    }

    /// The default state, `Ground`.
    pub fn default() -> (s: State)
        ensures
            s == State::Ground,
    {
        State::Ground
    }
}

/// Packs `action` into the high four bits and `state` into the low four.
pub fn pack(action: Action, state: State) -> (p: u8)
    ensures
        p == pack_spec(action, state),
{
    let a = action.number();
    let s = state.number();
    assert((a << 4u8) | s == a * 16 + s) by (bit_vector)
        requires
            a < 16,
            s < 16,
    ;
    (a << 4) | s
}

/// Unpacks a byte: the action from the high four bits, the state from the
/// low four. Every byte unpacks, and unpacking undoes [`pack`].
pub fn unpack(byte: u8) -> (r: (Action, State))
    ensures
        r == (action_from(byte / 16), state_from(byte % 16)),
        pack_spec(r.0, r.1) == byte,
{
    assert(byte >> 4u8 == byte / 16 && byte & 0x0f == byte % 16) by (bit_vector);
    let a = Action::from_number(byte >> 4);
    let s = State::from_number(byte & 0x0F);
    (a, s)
}

/// Unpacking a packed pair gives the pair back.
pub proof fn lemma_unpack_pack(action: Action, state: State)
    ensures
        action_from(pack_spec(action, state) / 16) == action,
        state_from(pack_spec(action, state) % 16) == state,
{
    let a = action_number(action);
    let s = state_number(state);
    assert(a < 16 && s < 16);
    assert((a * 16 + s) / 16 == a && (a * 16 + s) % 16 == s) by (nonlinear_arith)
        requires
            a < 16,
            s < 16,
    ;
}

} // verus!
