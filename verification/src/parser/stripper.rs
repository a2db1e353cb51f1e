//! A state machine that tells escape sequences from text, and stripping
//! escape sequences from bytes.
use vstd::prelude::*;
use crate::parser2::transitions::Action;
use vstd::slice::slice_subrange;

verus! {

/// The states of the stripping parser. `Unset` is where it starts and
/// where a byte without a rule leads; it treats every byte but ESC as text.
#[derive(Clone, Copy, PartialEq, Eq, Structural, Debug, Hash)]
pub enum State {
    Unset,
    Ground,
    Utf8,
    Escape,
    EscapeIntermediate,
    CsiEntry,
    CsiParam,
    CsiIntermediate,
    CsiIgnore,
    DcsEntry,
    DcsParam,
    DcsIntermediate,
    DcsData,
    DcsIgnore,
    OscData,
    SosPmApcData,
}

/// The rule a state lists for byte `b`, if any. A rule that names only an
/// action keeps the state.
pub open spec fn strip_own_rule(s: State, b: u8) -> Option<(Action, State)> {
    match s {
        State::Unset => None,
        State::Ground => if 0x00 <= b && b <= 0x17 {
            Some((Action::Ignore, State::Ground))
        } else if b == 0x19 {
            Some((Action::Ignore, State::Ground))
        } else if 0x1c <= b && b <= 0x1f {
            Some((Action::Ignore, State::Ground))
        } else if 0x20 <= b && b <= 0x7f {
            Some((Action::Print, State::Utf8))
        } else if 0xc2 <= b && b <= 0xdf {
            Some((Action::Print, State::Utf8))
        } else if 0xe0 <= b && b <= 0xef {
            Some((Action::Print, State::Utf8))
        } else if 0xf0 <= b && b <= 0xf4 {
            Some((Action::Print, State::Utf8))
        } else {
            None
        },
        State::Utf8 => if 0x80 <= b && b <= 0xbf {
            Some((Action::Print, State::Utf8))
        } else {
            None
        },
        State::Escape => if 0x00 <= b && b <= 0x17 {
            Some((Action::Ignore, State::Escape))
        } else if b == 0x19 {
            Some((Action::Ignore, State::Escape))
        } else if 0x1c <= b && b <= 0x1f {
            Some((Action::Ignore, State::Escape))
        } else if b == 0x7f {
            Some((Action::Ignore, State::Escape))
        } else if 0x20 <= b && b <= 0x2f {
            Some((Action::Ignore, State::EscapeIntermediate))
        } else if 0x30 <= b && b <= 0x4f {
            Some((Action::Ignore, State::Ground))
        } else if 0x51 <= b && b <= 0x57 {
            Some((Action::Ignore, State::Ground))
        } else if b == 0x59 {
            Some((Action::Ignore, State::Ground))
        } else if b == 0x5a {
            Some((Action::Ignore, State::Ground))
        } else if b == 0x5c {
            Some((Action::Ignore, State::Ground))
        } else if 0x60 <= b && b <= 0x7e {
            Some((Action::Ignore, State::Ground))
        } else if b == 0x5b {
            Some((Action::Ignore, State::CsiEntry))
        } else if b == 0x5d {
            Some((Action::Ignore, State::OscData))
        } else if b == 0x50 {
            Some((Action::Ignore, State::DcsEntry))
        } else if b == 0x58 {
            Some((Action::Ignore, State::SosPmApcData))
        } else if b == 0x5e {
            Some((Action::Ignore, State::SosPmApcData))
        } else if b == 0x5f {
            Some((Action::Ignore, State::SosPmApcData))
        } else {
            None
        },
        State::EscapeIntermediate => if 0x00 <= b && b <= 0x17 {
            Some((Action::Ignore, State::EscapeIntermediate))
        } else if b == 0x19 {
            Some((Action::Ignore, State::EscapeIntermediate))
        } else if 0x1c <= b && b <= 0x1f {
            Some((Action::Ignore, State::EscapeIntermediate))
        } else if 0x20 <= b && b <= 0x2f {
            Some((Action::Ignore, State::EscapeIntermediate))
        } else if b == 0x7f {
            Some((Action::Ignore, State::EscapeIntermediate))
        } else if 0x30 <= b && b <= 0x7e {
            Some((Action::Ignore, State::Ground))
        } else {
            None
        },
        State::CsiEntry => if 0x00 <= b && b <= 0x17 {
            Some((Action::Ignore, State::CsiEntry))
        } else if b == 0x19 {
            Some((Action::Ignore, State::CsiEntry))
        } else if 0x1c <= b && b <= 0x1f {
            Some((Action::Ignore, State::CsiEntry))
        } else if b == 0x7f {
            Some((Action::Ignore, State::CsiEntry))
        } else if 0x20 <= b && b <= 0x2f {
            Some((Action::Ignore, State::CsiIntermediate))
        } else if b == 0x3a {
            Some((Action::Ignore, State::CsiIgnore))
        } else if 0x30 <= b && b <= 0x39 {
            Some((Action::Ignore, State::CsiParam))
        } else if b == 0x3b {
            Some((Action::Ignore, State::CsiParam))
        } else if 0x3c <= b && b <= 0x3f {
            Some((Action::Ignore, State::CsiParam))
        } else if 0x40 <= b && b <= 0x7e {
            Some((Action::Ignore, State::Ground))
        } else {
            None
        },
        State::CsiParam => if 0x00 <= b && b <= 0x17 {
            Some((Action::Ignore, State::CsiParam))
        } else if b == 0x19 {
            Some((Action::Ignore, State::CsiParam))
        } else if 0x1c <= b && b <= 0x1f {
            Some((Action::Ignore, State::CsiParam))
        } else if 0x30 <= b && b <= 0x39 {
            Some((Action::Ignore, State::CsiParam))
        } else if b == 0x3b {
            Some((Action::Ignore, State::CsiParam))
        } else if b == 0x7f {
            Some((Action::Ignore, State::CsiParam))
        } else if 0x3c <= b && b <= 0x3f {
            Some((Action::Ignore, State::CsiIgnore))
        } else if b == 0x3a {
            Some((Action::Ignore, State::CsiParam))
        } else if 0x20 <= b && b <= 0x2f {
            Some((Action::Ignore, State::CsiIntermediate))
        } else if 0x40 <= b && b <= 0x7e {
            Some((Action::Ignore, State::Ground))
        } else {
            None
        },
        State::CsiIntermediate => if 0x00 <= b && b <= 0x17 {
            Some((Action::Ignore, State::CsiIntermediate))
        } else if b == 0x19 {
            Some((Action::Ignore, State::CsiIntermediate))
        } else if 0x1c <= b && b <= 0x1f {
            Some((Action::Ignore, State::CsiIntermediate))
        } else if 0x20 <= b && b <= 0x2f {
            Some((Action::Ignore, State::CsiIntermediate))
        } else if b == 0x7f {
            Some((Action::Ignore, State::CsiIntermediate))
        } else if 0x30 <= b && b <= 0x3f {
            Some((Action::Ignore, State::CsiIgnore))
        } else if 0x40 <= b && b <= 0x7e {
            Some((Action::Ignore, State::Ground))
        } else {
            None
        },
        State::CsiIgnore => if 0x00 <= b && b <= 0x17 {
            Some((Action::Ignore, State::CsiIgnore))
        } else if b == 0x19 {
            Some((Action::Ignore, State::CsiIgnore))
        } else if 0x1c <= b && b <= 0x1f {
            Some((Action::Ignore, State::CsiIgnore))
        } else if 0x20 <= b && b <= 0x3f {
            Some((Action::Ignore, State::CsiIgnore))
        } else if b == 0x7f {
            Some((Action::Ignore, State::CsiIgnore))
        } else if 0x40 <= b && b <= 0x7e {
            Some((Action::Ignore, State::Ground))
        } else {
            None
        },
        State::DcsEntry => if 0x00 <= b && b <= 0x17 {
            Some((Action::Ignore, State::DcsEntry))
        } else if b == 0x19 {
            Some((Action::Ignore, State::DcsEntry))
        } else if 0x1c <= b && b <= 0x1f {
            Some((Action::Ignore, State::DcsEntry))
        } else if b == 0x7f {
            Some((Action::Ignore, State::DcsEntry))
        } else if b == 0x3a {
            Some((Action::Ignore, State::DcsIgnore))
        } else if 0x20 <= b && b <= 0x2f {
            Some((Action::Ignore, State::DcsIntermediate))
        } else if 0x30 <= b && b <= 0x39 {
            Some((Action::Ignore, State::DcsParam))
        } else if b == 0x3b {
            Some((Action::Ignore, State::DcsParam))
        } else if 0x3c <= b && b <= 0x3f {
            Some((Action::Ignore, State::DcsParam))
        } else if 0x40 <= b && b <= 0x7e {
            Some((Action::Ignore, State::DcsData))
        } else {
            None
        },
        State::DcsParam => if 0x00 <= b && b <= 0x17 {
            Some((Action::Ignore, State::DcsParam))
        } else if b == 0x19 {
            Some((Action::Ignore, State::DcsParam))
        } else if 0x1c <= b && b <= 0x1f {
            Some((Action::Ignore, State::DcsParam))
        } else if 0x30 <= b && b <= 0x39 {
            Some((Action::Ignore, State::DcsParam))
        } else if b == 0x3b {
            Some((Action::Ignore, State::DcsParam))
        } else if b == 0x7f {
            Some((Action::Ignore, State::DcsParam))
        } else if b == 0x3a {
            Some((Action::Ignore, State::DcsIgnore))
        } else if 0x3c <= b && b <= 0x3f {
            Some((Action::Ignore, State::DcsIgnore))
        } else if 0x20 <= b && b <= 0x2f {
            Some((Action::Ignore, State::DcsIntermediate))
        } else if 0x40 <= b && b <= 0x7e {
            Some((Action::Ignore, State::DcsData))
        } else {
            None
        },
        State::DcsIntermediate => if 0x00 <= b && b <= 0x17 {
            Some((Action::Ignore, State::DcsIntermediate))
        } else if b == 0x19 {
            Some((Action::Ignore, State::DcsIntermediate))
        } else if 0x1c <= b && b <= 0x1f {
            Some((Action::Ignore, State::DcsIntermediate))
        } else if 0x20 <= b && b <= 0x2f {
            Some((Action::Ignore, State::DcsIntermediate))
        } else if b == 0x7f {
            Some((Action::Ignore, State::DcsIntermediate))
        } else if 0x30 <= b && b <= 0x3f {
            Some((Action::Ignore, State::DcsIgnore))
        } else if 0x40 <= b && b <= 0x7e {
            Some((Action::Ignore, State::DcsData))
        } else {
            None
        },
        State::DcsData => if 0x00 <= b && b <= 0x17 {
            Some((Action::Ignore, State::DcsData))
        } else if b == 0x19 {
            Some((Action::Ignore, State::DcsData))
        } else if 0x1c <= b && b <= 0x1f {
            Some((Action::Ignore, State::DcsData))
        } else if 0x20 <= b && b <= 0x7e {
            Some((Action::Ignore, State::DcsData))
        } else if b == 0x7f {
            Some((Action::Ignore, State::DcsData))
        } else {
            None
        },
        State::DcsIgnore => if 0x00 <= b && b <= 0x17 {
            Some((Action::Ignore, State::DcsIgnore))
        } else if b == 0x19 {
            Some((Action::Ignore, State::DcsIgnore))
        } else if 0x1c <= b && b <= 0x1f {
            Some((Action::Ignore, State::DcsIgnore))
        } else if 0x20 <= b && b <= 0x7f {
            Some((Action::Ignore, State::DcsIgnore))
        } else {
            None
        },
        State::OscData => if 0x00 <= b && b <= 0x17 {
            Some((Action::Ignore, State::OscData))
        } else if b == 0x19 {
            Some((Action::Ignore, State::OscData))
        } else if 0x1c <= b && b <= 0x1f {
            Some((Action::Ignore, State::OscData))
        } else if 0x20 <= b && b <= 0x7f {
            Some((Action::Ignore, State::OscData))
        } else {
            None
        },
        State::SosPmApcData => if 0x00 <= b && b <= 0x17 {
            Some((Action::Ignore, State::SosPmApcData))
        } else if b == 0x19 {
            Some((Action::Ignore, State::SosPmApcData))
        } else if 0x1c <= b && b <= 0x1f {
            Some((Action::Ignore, State::SosPmApcData))
        } else if 0x20 <= b && b <= 0x7f {
            Some((Action::Ignore, State::SosPmApcData))
        } else {
            None
        },
    }
}

/// The rule every state shares for byte `b`, if any.
pub open spec fn strip_anywhere_rule(b: u8) -> Option<(Action, State)> {
    if b == 0x18 {
        Some((Action::Ignore, State::Ground))
    } else if b == 0x1a {
        Some((Action::Ignore, State::Ground))
    } else if 0x80 <= b && b <= 0x8f {
        Some((Action::Ignore, State::Ground))
    } else if 0x91 <= b && b <= 0x97 {
        Some((Action::Ignore, State::Ground))
    } else if b == 0x99 {
        Some((Action::Ignore, State::Ground))
    } else if b == 0x9a {
        Some((Action::Ignore, State::Ground))
    } else if b == 0x9c {
        Some((Action::Ignore, State::Ground))
    } else if b == 0x1b {
        Some((Action::Ignore, State::Escape))
    } else if b == 0x98 {
        Some((Action::Ignore, State::SosPmApcData))
    } else if b == 0x9e {
        Some((Action::Ignore, State::SosPmApcData))
    } else if b == 0x9f {
        Some((Action::Ignore, State::SosPmApcData))
    } else if b == 0x90 {
        Some((Action::Ignore, State::DcsEntry))
    } else if b == 0x9d {
        Some((Action::Ignore, State::OscData))
    } else if b == 0x9b {
        Some((Action::Ignore, State::OscData))
    } else {
        None
    }
}

/// The action and next state for byte `b` in state `s` (other than
/// `Unset`): the state's own rule, else the shared rule, else no action and
/// `Unset`.
pub open spec fn strip_transition(s: State, b: u8) -> (Action, State) {
    match strip_own_rule(s, b) {
        Some(r) => r,
        None => match strip_anywhere_rule(b) {
            Some(r) => r,
            None => (Action::Nop, State::Unset),
        },
    }
}

/// One byte through the stripping parser: in `Unset`, ESC starts an escape
/// sequence and every other byte is text; elsewhere the table decides.
pub open spec fn strip_step(s: State, b: u8) -> (Action, State) {
    if s == State::Unset {
        if b == 0x1b {
            (Action::Ignore, State::Escape)
        } else {
            (Action::Print, State::Unset)
        }
    } else {
        strip_transition(s, b)
    }
}

fn strip_own_rule_exec(s: State, b: u8) -> (r: Option<(Action, State)>)
    ensures
        r == strip_own_rule(s, b),
{
    match s {
        State::Unset => None,
        State::Ground => if 0x00 <= b && b <= 0x17 {
            Some((Action::Ignore, State::Ground))
        } else if b == 0x19 {
            Some((Action::Ignore, State::Ground))
        } else if 0x1c <= b && b <= 0x1f {
            Some((Action::Ignore, State::Ground))
        } else if 0x20 <= b && b <= 0x7f {
            Some((Action::Print, State::Utf8))
        } else if 0xc2 <= b && b <= 0xdf {
            Some((Action::Print, State::Utf8))
        } else if 0xe0 <= b && b <= 0xef {
            Some((Action::Print, State::Utf8))
        } else if 0xf0 <= b && b <= 0xf4 {
            Some((Action::Print, State::Utf8))
        } else {
            None
        },
        State::Utf8 => if 0x80 <= b && b <= 0xbf {
            Some((Action::Print, State::Utf8))
        } else {
            None
        },
        State::Escape => if 0x00 <= b && b <= 0x17 {
            Some((Action::Ignore, State::Escape))
        } else if b == 0x19 {
            Some((Action::Ignore, State::Escape))
        } else if 0x1c <= b && b <= 0x1f {
            Some((Action::Ignore, State::Escape))
        } else if b == 0x7f {
            Some((Action::Ignore, State::Escape))
        } else if 0x20 <= b && b <= 0x2f {
            Some((Action::Ignore, State::EscapeIntermediate))
        } else if 0x30 <= b && b <= 0x4f {
            Some((Action::Ignore, State::Ground))
        } else if 0x51 <= b && b <= 0x57 {
            Some((Action::Ignore, State::Ground))
        } else if b == 0x59 {
            Some((Action::Ignore, State::Ground))
        } else if b == 0x5a {
            Some((Action::Ignore, State::Ground))
        } else if b == 0x5c {
            Some((Action::Ignore, State::Ground))
        } else if 0x60 <= b && b <= 0x7e {
            Some((Action::Ignore, State::Ground))
        } else if b == 0x5b {
            Some((Action::Ignore, State::CsiEntry))
        } else if b == 0x5d {
            Some((Action::Ignore, State::OscData))
        } else if b == 0x50 {
            Some((Action::Ignore, State::DcsEntry))
        } else if b == 0x58 {
            Some((Action::Ignore, State::SosPmApcData))
        } else if b == 0x5e {
            Some((Action::Ignore, State::SosPmApcData))
        } else if b == 0x5f {
            Some((Action::Ignore, State::SosPmApcData))
        } else {
            None
        },
        State::EscapeIntermediate => if 0x00 <= b && b <= 0x17 {
            Some((Action::Ignore, State::EscapeIntermediate))
        } else if b == 0x19 {
            Some((Action::Ignore, State::EscapeIntermediate))
        } else if 0x1c <= b && b <= 0x1f {
            Some((Action::Ignore, State::EscapeIntermediate))
        } else if 0x20 <= b && b <= 0x2f {
            Some((Action::Ignore, State::EscapeIntermediate))
        } else if b == 0x7f {
            Some((Action::Ignore, State::EscapeIntermediate))
        } else if 0x30 <= b && b <= 0x7e {
            Some((Action::Ignore, State::Ground))
        } else {
            None
        },
        State::CsiEntry => if 0x00 <= b && b <= 0x17 {
            Some((Action::Ignore, State::CsiEntry))
        } else if b == 0x19 {
            Some((Action::Ignore, State::CsiEntry))
        } else if 0x1c <= b && b <= 0x1f {
            Some((Action::Ignore, State::CsiEntry))
        } else if b == 0x7f {
            Some((Action::Ignore, State::CsiEntry))
        } else if 0x20 <= b && b <= 0x2f {
            Some((Action::Ignore, State::CsiIntermediate))
        } else if b == 0x3a {
            Some((Action::Ignore, State::CsiIgnore))
        } else if 0x30 <= b && b <= 0x39 {
            Some((Action::Ignore, State::CsiParam))
        } else if b == 0x3b {
            Some((Action::Ignore, State::CsiParam))
        } else if 0x3c <= b && b <= 0x3f {
            Some((Action::Ignore, State::CsiParam))
        } else if 0x40 <= b && b <= 0x7e {
            Some((Action::Ignore, State::Ground))
        } else {
            None
        },
        State::CsiParam => if 0x00 <= b && b <= 0x17 {
            Some((Action::Ignore, State::CsiParam))
        } else if b == 0x19 {
            Some((Action::Ignore, State::CsiParam))
        } else if 0x1c <= b && b <= 0x1f {
            Some((Action::Ignore, State::CsiParam))
        } else if 0x30 <= b && b <= 0x39 {
            Some((Action::Ignore, State::CsiParam))
        } else if b == 0x3b {
            Some((Action::Ignore, State::CsiParam))
        } else if b == 0x7f {
            Some((Action::Ignore, State::CsiParam))
        } else if 0x3c <= b && b <= 0x3f {
            Some((Action::Ignore, State::CsiIgnore))
        } else if b == 0x3a {
            Some((Action::Ignore, State::CsiParam))
        } else if 0x20 <= b && b <= 0x2f {
            Some((Action::Ignore, State::CsiIntermediate))
        } else if 0x40 <= b && b <= 0x7e {
            Some((Action::Ignore, State::Ground))
        } else {
            None
        },
        State::CsiIntermediate => if 0x00 <= b && b <= 0x17 {
            Some((Action::Ignore, State::CsiIntermediate))
        } else if b == 0x19 {
            Some((Action::Ignore, State::CsiIntermediate))
        } else if 0x1c <= b && b <= 0x1f {
            Some((Action::Ignore, State::CsiIntermediate))
        } else if 0x20 <= b && b <= 0x2f {
            Some((Action::Ignore, State::CsiIntermediate))
        } else if b == 0x7f {
            Some((Action::Ignore, State::CsiIntermediate))
        } else if 0x30 <= b && b <= 0x3f {
            Some((Action::Ignore, State::CsiIgnore))
        } else if 0x40 <= b && b <= 0x7e {
            Some((Action::Ignore, State::Ground))
        } else {
            None
        },
        State::CsiIgnore => if 0x00 <= b && b <= 0x17 {
            Some((Action::Ignore, State::CsiIgnore))
        } else if b == 0x19 {
            Some((Action::Ignore, State::CsiIgnore))
        } else if 0x1c <= b && b <= 0x1f {
            Some((Action::Ignore, State::CsiIgnore))
        } else if 0x20 <= b && b <= 0x3f {
            Some((Action::Ignore, State::CsiIgnore))
        } else if b == 0x7f {
            Some((Action::Ignore, State::CsiIgnore))
        } else if 0x40 <= b && b <= 0x7e {
            Some((Action::Ignore, State::Ground))
        } else {
            None
        },
        State::DcsEntry => if 0x00 <= b && b <= 0x17 {
            Some((Action::Ignore, State::DcsEntry))
        } else if b == 0x19 {
            Some((Action::Ignore, State::DcsEntry))
        } else if 0x1c <= b && b <= 0x1f {
            Some((Action::Ignore, State::DcsEntry))
        } else if b == 0x7f {
            Some((Action::Ignore, State::DcsEntry))
        } else if b == 0x3a {
            Some((Action::Ignore, State::DcsIgnore))
        } else if 0x20 <= b && b <= 0x2f {
            Some((Action::Ignore, State::DcsIntermediate))
        } else if 0x30 <= b && b <= 0x39 {
            Some((Action::Ignore, State::DcsParam))
        } else if b == 0x3b {
            Some((Action::Ignore, State::DcsParam))
        } else if 0x3c <= b && b <= 0x3f {
            Some((Action::Ignore, State::DcsParam))
        } else if 0x40 <= b && b <= 0x7e {
            Some((Action::Ignore, State::DcsData))
        } else {
            None
        },
        State::DcsParam => if 0x00 <= b && b <= 0x17 {
            Some((Action::Ignore, State::DcsParam))
        } else if b == 0x19 {
            Some((Action::Ignore, State::DcsParam))
        } else if 0x1c <= b && b <= 0x1f {
            Some((Action::Ignore, State::DcsParam))
        } else if 0x30 <= b && b <= 0x39 {
            Some((Action::Ignore, State::DcsParam))
        } else if b == 0x3b {
            Some((Action::Ignore, State::DcsParam))
        } else if b == 0x7f {
            Some((Action::Ignore, State::DcsParam))
        } else if b == 0x3a {
            Some((Action::Ignore, State::DcsIgnore))
        } else if 0x3c <= b && b <= 0x3f {
            Some((Action::Ignore, State::DcsIgnore))
        } else if 0x20 <= b && b <= 0x2f {
            Some((Action::Ignore, State::DcsIntermediate))
        } else if 0x40 <= b && b <= 0x7e {
            Some((Action::Ignore, State::DcsData))
        } else {
            None
        },
        State::DcsIntermediate => if 0x00 <= b && b <= 0x17 {
            Some((Action::Ignore, State::DcsIntermediate))
        } else if b == 0x19 {
            Some((Action::Ignore, State::DcsIntermediate))
        } else if 0x1c <= b && b <= 0x1f {
            Some((Action::Ignore, State::DcsIntermediate))
        } else if 0x20 <= b && b <= 0x2f {
            Some((Action::Ignore, State::DcsIntermediate))
        } else if b == 0x7f {
            Some((Action::Ignore, State::DcsIntermediate))
        } else if 0x30 <= b && b <= 0x3f {
            Some((Action::Ignore, State::DcsIgnore))
        } else if 0x40 <= b && b <= 0x7e {
            Some((Action::Ignore, State::DcsData))
        } else {
            None
        },
        State::DcsData => if 0x00 <= b && b <= 0x17 {
            Some((Action::Ignore, State::DcsData))
        } else if b == 0x19 {
            Some((Action::Ignore, State::DcsData))
        } else if 0x1c <= b && b <= 0x1f {
            Some((Action::Ignore, State::DcsData))
        } else if 0x20 <= b && b <= 0x7e {
            Some((Action::Ignore, State::DcsData))
        } else if b == 0x7f {
            Some((Action::Ignore, State::DcsData))
        } else {
            None
        },
        State::DcsIgnore => if 0x00 <= b && b <= 0x17 {
            Some((Action::Ignore, State::DcsIgnore))
        } else if b == 0x19 {
            Some((Action::Ignore, State::DcsIgnore))
        } else if 0x1c <= b && b <= 0x1f {
            Some((Action::Ignore, State::DcsIgnore))
        } else if 0x20 <= b && b <= 0x7f {
            Some((Action::Ignore, State::DcsIgnore))
        } else {
            None
        },
        State::OscData => if 0x00 <= b && b <= 0x17 {
            Some((Action::Ignore, State::OscData))
        } else if b == 0x19 {
            Some((Action::Ignore, State::OscData))
        } else if 0x1c <= b && b <= 0x1f {
            Some((Action::Ignore, State::OscData))
        } else if 0x20 <= b && b <= 0x7f {
            Some((Action::Ignore, State::OscData))
        } else {
            None
        },
        State::SosPmApcData => if 0x00 <= b && b <= 0x17 {
            Some((Action::Ignore, State::SosPmApcData))
        } else if b == 0x19 {
            Some((Action::Ignore, State::SosPmApcData))
        } else if 0x1c <= b && b <= 0x1f {
            Some((Action::Ignore, State::SosPmApcData))
        } else if 0x20 <= b && b <= 0x7f {
            Some((Action::Ignore, State::SosPmApcData))
        } else {
            None
        },
    }
}

fn strip_anywhere_rule_exec(b: u8) -> (r: Option<(Action, State)>)
    ensures
        r == strip_anywhere_rule(b),
{
    if b == 0x18 {
        Some((Action::Ignore, State::Ground))
    } else if b == 0x1a {
        Some((Action::Ignore, State::Ground))
    } else if 0x80 <= b && b <= 0x8f {
        Some((Action::Ignore, State::Ground))
    } else if 0x91 <= b && b <= 0x97 {
        Some((Action::Ignore, State::Ground))
    } else if b == 0x99 {
        Some((Action::Ignore, State::Ground))
    } else if b == 0x9a {
        Some((Action::Ignore, State::Ground))
    } else if b == 0x9c {
        Some((Action::Ignore, State::Ground))
    } else if b == 0x1b {
        Some((Action::Ignore, State::Escape))
    } else if b == 0x98 {
        Some((Action::Ignore, State::SosPmApcData))
    } else if b == 0x9e {
        Some((Action::Ignore, State::SosPmApcData))
    } else if b == 0x9f {
        Some((Action::Ignore, State::SosPmApcData))
    } else if b == 0x90 {
        Some((Action::Ignore, State::DcsEntry))
    } else if b == 0x9d {
        Some((Action::Ignore, State::OscData))
    } else if b == 0x9b {
        Some((Action::Ignore, State::OscData))
    } else {
        None
    }
}

/// A parser that only tells escape sequences from text.
pub struct StrippingParser(pub State);

impl StrippingParser {
    /// A new parser in the ground state.
    pub fn new() -> (p: StrippingParser)
        ensures
            p.0 == State::Ground,
    {
        StrippingParser(State::Ground)
    }

    /// A new parser in the ground state.
    pub fn default() -> (p: StrippingParser)
        ensures
            p.0 == State::Ground,
    {
        StrippingParser::new()
    }

    /// Returns to the ground state.
    pub fn reset(&mut self)
        ensures
            final(self).0 == State::Ground,
    {
        self.0 = State::Ground;
    }

    /// The current state.
    pub fn state(&self) -> (s: State)
        ensures
            s == self.0,
    {
        self.0
    }

    /// Whether the parser is in the `Ground` state that ends a sequence.
    pub fn is_ground(&self) -> (r: bool)
        ensures
            r == (self.0 == State::Ground),
    {
        self.0 == State::Ground
    }

    /// Whether the parser is inside the body of an OSC, DCS or SOS/PM/APC
    /// string, which runs to a terminator.
    pub fn is_passthrough(&self) -> (r: bool)
        ensures
            r == (self.0 == State::OscData || self.0 == State::DcsData || self.0 == State::SosPmApcData),
    {
        match self.0 {
            State::OscData | State::DcsData | State::SosPmApcData => true,
            _ => false,
        }
    }

    /// Feeds one byte: `Print` for text, `Ignore` (or `Nop`) for a byte of
    /// an escape sequence.
    pub fn advance(&mut self, byte: u8) -> (a: Action)
        ensures
            (a, final(self).0) == strip_step(old(self).0, byte),
    {
        if self.0 == State::Unset {
            if byte == 0x1B {
                self.0 = State::Escape;
                return Action::Ignore;
            }
            return Action::Print;
        }
        let (action, state) = match strip_own_rule_exec(self.0, byte) {
            Some(r) => r,
            None => match strip_anywhere_rule_exec(byte) {
                Some(r) => r,
                None => (Action::Nop, State::Unset),
            },
        };
        self.0 = state;
        action
    }
}

/// `memchr::memchr`: the index of the first `needle` in `haystack`, or
/// `None` when there is none.
#[verifier::external_body]
fn find_byte(needle: u8, haystack: &[u8]) -> (r: Option<usize>)
    ensures
        match r {
            Some(i) => i < haystack@.len() && haystack@[i as int] == needle && forall|j: int|
                0 <= j < i ==> haystack@[j] != needle,
            None => forall|j: int| 0 <= j < haystack@.len() ==> haystack@[j] != needle,
        },
{
    memchr::memchr(needle, haystack)
}

/// `memchr::memchr3`: the index of the first byte of `haystack` that is
/// `a`, `b` or `c`, or `None` when there is none.
#[verifier::external_body]
fn find_byte3(a: u8, b: u8, c: u8, haystack: &[u8]) -> (r: Option<usize>)
    ensures
        match r {
            Some(i) => i < haystack@.len() && (haystack@[i as int] == a || haystack@[i as int] == b
                || haystack@[i as int] == c) && forall|j: int| 0 <= j < i ==> haystack@[j] != a && haystack@[j] != b
                && haystack@[j] != c,
            None => forall|j: int| 0 <= j < haystack@.len() ==> haystack@[j] != a && haystack@[j] != b && haystack@[j] != c,
        },
{
    memchr::memchr3(a, b, c, haystack)
}

/// Whether `b` ends the body of a string: ESC, CAN or SUB, and for an OSC
/// also BEL.
pub open spec fn is_terminator(osc: bool, b: u8) -> bool {
    b == 0x1b || b == 0x18 || b == 0x1a || (osc && b == 0x07)
}

/// The index of the first terminator in `s` from `k`, or the length.
pub open spec fn first_terminator(s: Seq<u8>, osc: bool, k: int) -> int
    decreases s.len() - k,
{
    if k < 0 || k >= s.len() {
        s.len() as int
    } else if is_terminator(osc, s[k]) {
        k
    } else {
        first_terminator(s, osc, k + 1)
    }
}

/// The index of the first `b` in `s` from `k`, or the length.
pub open spec fn first_byte(s: Seq<u8>, b: u8, k: int) -> int
    decreases s.len() - k,
{
    if k < 0 || k >= s.len() {
        s.len() as int
    } else if s[k] == b {
        k
    } else {
        first_byte(s, b, k + 1)
    }
}

pub proof fn lemma_first_terminator(s: Seq<u8>, osc: bool, k: int)
    requires
        0 <= k <= s.len(),
    ensures
        k <= first_terminator(s, osc, k) <= s.len(),
        forall|j: int| k <= j < first_terminator(s, osc, k) ==> !is_terminator(osc, #[trigger] s[j]),
        first_terminator(s, osc, k) < s.len() ==> is_terminator(osc, s[first_terminator(s, osc, k)]),
    decreases s.len() - k,
{
    if k < s.len() && !is_terminator(osc, s[k]) {
        lemma_first_terminator(s, osc, k + 1);
    }
}

pub proof fn lemma_first_byte(s: Seq<u8>, b: u8, k: int)
    requires
        0 <= k <= s.len(),
    ensures
        k <= first_byte(s, b, k) <= s.len(),
        forall|j: int| k <= j < first_byte(s, b, k) ==> #[trigger] s[j] != b,
        first_byte(s, b, k) < s.len() ==> s[first_byte(s, b, k)] == b,
    decreases s.len() - k,
{
    if k < s.len() && s[k] != b {
        lemma_first_byte(s, b, k + 1);
    }
}

/// Whether state `s` is the body of an OSC, DCS or SOS/PM/APC string.
pub open spec fn is_passthrough_state(s: State) -> bool {
    s == State::OscData || s == State::DcsData || s == State::SosPmApcData
}

/// How far to jump in the body of a string: to its first terminator, or
/// nowhere when it has none.
pub open spec fn skip_spec(s: State, rest: Seq<u8>) -> int {
    if is_passthrough_state(s) {
        let t = first_terminator(rest, s == State::OscData, 0);
        if t < rest.len() { t } else { 0 }
    } else {
        0
    }
}

/// How far to jump from the start of `remaining` in the body of a string
/// (OSC, DCS or SOS/PM/APC): to its first terminator, or nowhere when it has
/// none.
fn passthrough_skip(state: State, remaining: &[u8]) -> (n: usize)
    ensures
        n == skip_spec(state, remaining@),
        n <= remaining@.len(),
{
    proof {
        lemma_first_terminator(remaining@, true, 0);
        lemma_first_terminator(remaining@, false, 0);
    }
    match state {
        State::OscData => {
            let a = find_byte3(0x07, 0x1B, 0x18, remaining);
            let b = find_byte(0x1A, remaining);
            match (a, b) {
                (Some(x), Some(y)) => if x < y { x } else { y },
                (Some(x), None) => x,
                (None, Some(y)) => y,
                (None, None) => 0,
            }
        },
        State::DcsData | State::SosPmApcData => {
            match find_byte3(0x1B, 0x18, 0x1A, remaining) {
                Some(x) => x,
                None => 0,
            }
        },
        _ => 0,
    }
}

/// The index of the first byte a fresh scan prints, starting in state `s`
/// at `i`, and the state after it.
pub open spec fn first_print(s: State, input: Seq<u8>, i: int) -> Option<(int, State)>
    decreases input.len() - i,
{
    if i < 0 || i >= input.len() {
        None
    } else {
        let (a, t) = strip_step(s, input[i]);
        if a is Print {
            Some((i, t))
        } else {
            first_print(t, input, i + 1)
        }
    }
}

pub proof fn lemma_first_print(s: State, input: Seq<u8>, i: int)
    requires
        0 <= i,
    ensures
        first_print(s, input, i) matches Some((e, _)) ==> i <= e < input.len(),
    decreases input.len() - i,
{
    if i < input.len() {
        lemma_first_print(strip_step(s, input[i]).1, input, i + 1);
    }
}

/// One escape sequence read from `i` in state `s`: the bytes it prints and
/// where it ends. A string body is jumped over to its terminator; the
/// sequence ends when the parser reaches `Ground` or the input ends.
pub open spec fn sequence_from(s: State, input: Seq<u8>, i: int) -> (Seq<u8>, int)
    decreases input.len() - i,
{
    if i < 0 || i >= input.len() {
        (seq![], i)
    } else {
        let (a, t) = strip_step(s, input[i]);
        let printed = if a is Print { seq![input[i]] } else { Seq::<u8>::empty() };
        let skip = skip_spec(t, input.subrange(i + 1, input.len() as int));
        let j = i + 1 + skip;
        proof { lemma_skip_bound(t, input.subrange(i + 1, input.len() as int)); }
        if t == State::Ground {
            (printed, j)
        } else {
            let (rest, k) = sequence_from(t, input, j);
            (printed + rest, k)
        }
    }
}

pub proof fn lemma_skip_bound(t: State, rest: Seq<u8>)
    ensures
        0 <= skip_spec(t, rest) <= rest.len(),
{
    lemma_first_terminator(rest, true, 0);
    lemma_first_terminator(rest, false, 0);
}

pub proof fn lemma_sequence_from(s: State, input: Seq<u8>, i: int)
    requires
        0 <= i < input.len(),
    ensures
        i < sequence_from(s, input, i).1 <= input.len(),
    decreases input.len() - i,
{
    let (a, t) = strip_step(s, input[i]);
    let rest = input.subrange(i + 1, input.len() as int);
    lemma_skip_bound(t, rest);
    let j = i + 1 + skip_spec(t, rest);
    if t != State::Ground {
        if j < input.len() {
            lemma_sequence_from(t, input, j);
        } else {
            assert(sequence_from(t, input, j).1 == j);
        }
    }
}

/// The input from `i` with its escape sequences removed: text runs up to
/// the next ESC are kept, then one escape sequence is read from there.
pub open spec fn strip_from(input: Seq<u8>, i: int) -> Seq<u8>
    decreases input.len() - i,
{
    if i < 0 || i >= input.len() {
        seq![]
    } else {
        let e = first_byte(input, 0x1b, i);
        proof { lemma_first_byte(input, 0x1b, i); }
        if e >= input.len() {
            input.subrange(i, input.len() as int)
        } else {
            let (printed, k) = sequence_from(State::Ground, input, e);
            proof { lemma_sequence_from(State::Ground, input, e); }
            input.subrange(i, e) + printed + strip_from(input, k)
        }
    }
}

/// `input` with its escape sequences removed, in four cases:
/// - without ESC, the input is kept whole;
/// - when a byte-by-byte run of the stripping parser from the first ESC
///   prints nothing, the text before that ESC is the result (so control
///   bytes after the escapes go too);
/// - when the input starts with escapes, after which the parser is back in
///   the ground state at the first printed byte and no ESC follows, the
///   input from that byte is the result;
/// - otherwise text runs between escape sequences are kept as they are, and
///   of each escape sequence the bytes the parser prints (`strip_from`).
pub open spec fn strip_spec(input: Seq<u8>) -> Seq<u8> {
    let fe = first_byte(input, 0x1b, 0);
    if fe >= input.len() {
        input
    } else {
        match first_print(State::Ground, input, fe) {
            None => input.take(fe),
            Some((e, t)) => if fe == 0 && t == State::Ground && first_byte(input, 0x1b, e) >= input.len() {
                input.skip(e)
            } else {
                input.take(fe) + strip_from(input, fe)
            },
        }
    }
}

fn extend_from(out: &mut Vec<u8>, input: &[u8], i: usize, j: usize)
    requires
        i <= j <= input@.len(),
    ensures
        final(out)@ == old(out)@ + input@.subrange(i as int, j as int),
{
    let mut k: usize = i;
    while k < j
        invariant
            i <= k <= j,
            j <= input@.len(),
            out@ == old(out)@ + input@.subrange(i as int, k as int),
        decreases j - k,
    {
        out.push(input[k]);
        k = k + 1;
        assert(out@ =~= old(out)@ + input@.subrange(i as int, k as int));
    }
}

/// The index of the first `needle` at or after `i`, or the length.
fn find_from(needle: u8, input: &[u8], i: usize) -> (r: usize)
    requires
        i <= input@.len(),
    ensures
        r == first_byte(input@, needle, i as int),
{
    proof { lemma_first_byte(input@, needle, i as int); }
    let rest = slice_subrange(input, i, input.len());
    match find_byte(needle, rest) {
        Some(k) => {
            proof {
                assert(input@[i + k] == needle);
                assert forall|j: int| i <= j < i + k implies input@[j] != needle by {
                    assert(rest@[j - i] == input@[j]);
                }
                let f = first_byte(input@, needle, i as int);
                if f < i + k {
                    assert(rest@[f - i] == input@[f]);
                }
            }
            i + k
        },
        None => {
            proof {
                let f = first_byte(input@, needle, i as int);
                if f < input@.len() {
                    assert(rest@[f - i] == input@[f]);
                }
            }
            input.len()
        },
    }
}

/// Strips ANSI escape sequences from `input`: text runs are copied, and an
/// escape sequence from its ESC on is read by a fresh [`StrippingParser`],
/// keeping only the bytes it prints.
pub fn strip(input: &[u8]) -> (out: Vec<u8>)
    ensures
        out@ == strip_spec(input@),
{
    let fe = find_from(0x1b, input, 0);
    if fe >= input.len() {
        let mut all: Vec<u8> = Vec::new();
        extend_from(&mut all, input, 0, input.len());
        assert(all@ =~= input@);
        return all;
    }
    // Speculative scan: does anything after the first ESC print?
    let mut parser = StrippingParser::new();
    let mut i: usize = fe;
    let mut emit: Option<usize> = None;
    while i < input.len()
        invariant_except_break
            fe <= i <= input@.len(),
            emit is None,
            first_print(State::Ground, input@, fe as int) == first_print(parser.0, input@, i as int),
        ensures
            match emit {
                Some(e) => first_print(State::Ground, input@, fe as int) == Some((e as int, parser.0)),
                None => first_print(State::Ground, input@, fe as int) is None,
            },
        decreases input@.len() - i,
    {
        let a = parser.advance(input[i]);
        if a.is_print() {
            emit = Some(i);
            break;
        }
        i = i + 1;
    }
    let mut out: Vec<u8> = Vec::new();
    match emit {
        None => {
            extend_from(&mut out, input, 0, fe);
            assert(out@ =~= input@.take(fe as int));
            return out;
        },
        Some(e) => {
            proof { lemma_first_print(State::Ground, input@, fe as int); }
            if fe == 0 && parser.is_ground() && find_from(0x1b, input, e) >= input.len() {
                extend_from(&mut out, input, e, input.len());
                assert(out@ =~= input@.skip(e as int));
                return out;
            }
        },
    }
    extend_from(&mut out, input, 0, fe);
    assert(out@ =~= input@.take(fe as int));
    let mut pos: usize = fe;
    while pos < input.len()
        invariant
            fe <= pos <= input@.len(),
            strip_spec(input@) == out@ + strip_from(input@, pos as int),
        decreases input@.len() - pos,
    {
        let ghost start = pos as int;
        let ghost before = out@;
        let esc = find_from(0x1b, input, pos);
        proof { lemma_first_byte(input@, 0x1b, pos as int); }
        extend_from(&mut out, input, pos, esc);
        if esc >= input.len() {
            pos = esc;
            proof {
                assert(strip_from(input@, start) == input@.subrange(start, input@.len() as int));
                assert(strip_from(input@, pos as int) =~= Seq::<u8>::empty());
                assert(out@ + strip_from(input@, pos as int) =~= out@);
            }
        } else {
            proof { lemma_sequence_from(State::Ground, input@, esc as int); }
            let mut p = StrippingParser::new();
            let mut k: usize = esc;
            let ghost seq_total = sequence_from(State::Ground, input@, esc as int);
            let ghost printed_before = out@;
            while k < input.len()
                invariant_except_break
                    esc <= k <= input@.len(),
                    esc < input@.len(),
                    (p.0 == State::Ground && k == esc) || k > esc,
                    seq_total.1 == sequence_from(p.0, input@, k as int).1,
                    seq_total.0 == out@.skip(printed_before.len() as int) + sequence_from(p.0, input@, k as int).0,
                    printed_before.len() <= out@.len(),
                    out@.take(printed_before.len() as int) == printed_before,
                ensures
                    seq_total.1 == k,
                    seq_total.0 == out@.skip(printed_before.len() as int),
                    printed_before.len() <= out@.len(),
                    out@.take(printed_before.len() as int) == printed_before,
                    k > esc,
                decreases input@.len() - k,
            {
                let ghost kk = k as int;
                let ghost s0 = p.0;
                let ghost out0 = out@;
                let b = input[k];
                let action = p.advance(b);
                k = k + 1;
                if action.is_print() {
                    out.push(b);
                }
                let rest = slice_subrange(input, k, input.len());
                if p.is_passthrough() {
                    let n = passthrough_skip(p.0, rest);
                    k = k + n;
                } else {
                    assert(skip_spec(p.0, rest@) == 0);
                }
                proof {
                    let printed = if action is Print { seq![b] } else { Seq::<u8>::empty() };
                    assert(out@ =~= out0 + printed);
                    assert(out@.skip(printed_before.len() as int) =~= out0.skip(printed_before.len() as int) + printed);
                    assert(out@.take(printed_before.len() as int) =~= out0.take(printed_before.len() as int));
                    lemma_skip_bound(p.0, rest@);
                }
                if p.is_ground() {
                    proof {
                        assert(sequence_from(State::Ground, input@, k as int).0 =~= sequence_from(State::Ground, input@, k as int).0);
                    }
                    break;
                }
                proof {
                    let s1 = sequence_from(s0, input@, kk);
                    assert(s1.0 == (if action is Print { seq![b] } else { Seq::<u8>::empty() }) + sequence_from(p.0, input@, k as int).0);
                    assert(out0.skip(printed_before.len() as int) + s1.0 =~= out@.skip(printed_before.len() as int) + sequence_from(p.0, input@, k as int).0);
                }
            }
            proof {
                assert(out@ =~= printed_before + seq_total.0);
                assert(strip_from(input@, start) == input@.subrange(start, esc as int) + seq_total.0 + strip_from(input@, k as int));
                assert(before + input@.subrange(start, esc as int) == printed_before);
            }
            pos = k;
        }
    }
    proof {
        assert(strip_from(input@, pos as int) =~= Seq::<u8>::empty());
        assert(out@ + Seq::<u8>::empty() =~= out@);
    }
    out
}

} // verus!
