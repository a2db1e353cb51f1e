//! The DEC ANSI transition table that the parser is defined by.
use vstd::prelude::*;
use crate::parser::action::Action;
use crate::parser::table::{State, Table, state_index};

verus! {

/// Whether `b` is a 7-bit byte other than CAN, SUB and ESC, which every
/// state handles alike.
pub open spec fn seven_bit(b: u8) -> bool {
    b < 0x80 && b != 0x18 && b != 0x1a && b != 0x1b
}

/// The C1 controls (`0x80..=0x9F`): string and sequence introducers lead
/// to their states, ST leads to `Ground`, the rest execute.
pub open spec fn c1_rule(b: u8) -> (State, Action) {
    if b == 0x90 {
        (State::DcsEntry, Action::Nop)
    } else if b == 0x98 {
        (State::SosData, Action::Nop)
    } else if b == 0x9b {
        (State::CsiEntry, Action::Nop)
    } else if b == 0x9c {
        (State::Ground, Action::Nop)
    } else if b == 0x9d {
        (State::OscData, Action::Nop)
    } else if b == 0x9e {
        (State::PmData, Action::Nop)
    } else if b == 0x9f {
        (State::ApcData, Action::Nop)
    } else {
        (State::Ground, Action::Execute)
    }
}

/// The transitions every state shares: CAN and SUB execute, ESC starts an
/// escape sequence, and the C1 controls.
pub open spec fn anywhere_rule(b: u8) -> (State, Action) {
    if b == 0x18 || b == 0x1a {
        (State::Ground, Action::Execute)
    } else if b == 0x1b {
        (State::Escape, Action::Nop)
    } else {
        c1_rule(b)
    }
}

/// Whether every state handles `b` by [`anywhere_rule`].
pub open spec fn is_anywhere(b: u8) -> bool {
    b == 0x18 || b == 0x1a || b == 0x1b || (0x80 <= b && b <= 0x9f)
}

/// The transition for a byte [`seven_bit`] accepts, state by state.
pub open spec fn seven_bit_rule(s: State, b: u8) -> (State, Action) {
    let c0 = b < 0x20;
    match s {
        State::Ground => if c0 { (State::Ground, Action::Execute) } else { (State::Ground, Action::Print) },
        State::Escape => if c0 {
            (State::Escape, Action::Execute)
        } else if 0x20 <= b && b <= 0x2f {
            (State::EscapeIntermediate, Action::Collect)
        } else if b == 0x50 {
            (State::DcsEntry, Action::Nop)
        } else if b == 0x58 {
            (State::SosData, Action::Nop)
        } else if b == 0x5b {
            (State::CsiEntry, Action::Nop)
        } else if b == 0x5d {
            (State::OscData, Action::Nop)
        } else if b == 0x5e {
            (State::PmData, Action::Nop)
        } else if b == 0x5f {
            (State::ApcData, Action::Nop)
        } else if b == 0x7f {
            (State::Escape, Action::Ignore)
        } else {
            (State::Ground, Action::Dispatch)
        },
        State::EscapeIntermediate => if c0 {
            (State::EscapeIntermediate, Action::Execute)
        } else if 0x20 <= b && b <= 0x2f {
            (State::EscapeIntermediate, Action::Collect)
        } else if b == 0x7f {
            (State::EscapeIntermediate, Action::Ignore)
        } else {
            (State::Ground, Action::Dispatch)
        },
        State::CsiEntry => if c0 {
            (State::CsiEntry, Action::Execute)
        } else if 0x20 <= b && b <= 0x2f {
            (State::CsiIntermediate, Action::Collect)
        } else if (0x30 <= b && b <= 0x39) || b == 0x3b {
            (State::CsiParam, Action::Param)
        } else if b == 0x3a {
            (State::CsiIgnore, Action::Nop)
        } else if 0x3c <= b && b <= 0x3f {
            (State::CsiParam, Action::Collect)
        } else if b == 0x7f {
            (State::CsiEntry, Action::Ignore)
        } else {
            (State::Ground, Action::Dispatch)
        },
        State::CsiIgnore => if c0 {
            (State::CsiIgnore, Action::Execute)
        } else if (0x20 <= b && b <= 0x3f) || b == 0x7f {
            (State::CsiIgnore, Action::Ignore)
        } else {
            (State::Ground, Action::Nop)
        },
        State::CsiParam => if c0 {
            (State::CsiParam, Action::Execute)
        } else if 0x20 <= b && b <= 0x2f {
            (State::CsiIntermediate, Action::Collect)
        } else if 0x30 <= b && b <= 0x3b {
            (State::CsiParam, Action::Param)
        } else if 0x3c <= b && b <= 0x3f {
            (State::CsiIgnore, Action::Nop)
        } else if b == 0x7f {
            (State::CsiParam, Action::Ignore)
        } else {
            (State::Ground, Action::Dispatch)
        },
        State::CsiIntermediate => if c0 {
            (State::CsiIntermediate, Action::Execute)
        } else if 0x20 <= b && b <= 0x2f {
            (State::CsiIntermediate, Action::Collect)
        } else if 0x30 <= b && b <= 0x3f {
            (State::CsiIgnore, Action::Nop)
        } else if b == 0x7f {
            (State::CsiIntermediate, Action::Ignore)
        } else {
            (State::Ground, Action::Dispatch)
        },
        State::DcsEntry => if c0 {
            (State::DcsEntry, Action::Ignore)
        } else if 0x20 <= b && b <= 0x2f {
            (State::DcsIntermediate, Action::Collect)
        } else if (0x30 <= b && b <= 0x39) || b == 0x3b {
            (State::DcsParam, Action::Param)
        } else if b == 0x3a {
            (State::DcsIgnore, Action::Nop)
        } else if 0x3c <= b && b <= 0x3f {
            (State::DcsParam, Action::Collect)
        } else if b == 0x7f {
            (State::DcsEntry, Action::Ignore)
        } else {
            (State::DcsData, Action::Nop)
        },
        State::DcsIgnore => (State::DcsIgnore, Action::Ignore),
        State::DcsIntermediate => if c0 {
            (State::DcsIntermediate, Action::Ignore)
        } else if 0x20 <= b && b <= 0x2f {
            (State::DcsIntermediate, Action::Collect)
        } else if 0x30 <= b && b <= 0x3f {
            (State::DcsIgnore, Action::Ignore)
        } else if b == 0x7f {
            (State::DcsIntermediate, Action::Ignore)
        } else {
            (State::DcsData, Action::Collect)
        },
        State::DcsParam => if c0 {
            (State::DcsParam, Action::Ignore)
        } else if 0x20 <= b && b <= 0x2f {
            (State::DcsIntermediate, Action::Collect)
        } else if (0x30 <= b && b <= 0x39) || b == 0x3b {
            (State::DcsParam, Action::Param)
        } else if b == 0x3a || (0x3c <= b && b <= 0x3f) {
            (State::DcsIgnore, Action::Nop)
        } else if b == 0x7f {
            (State::DcsParam, Action::Ignore)
        } else {
            (State::DcsData, Action::Nop)
        },
        State::DcsData => (State::DcsData, Action::Collect),
        State::OscData => (State::OscData, Action::Collect),
        State::SosData => (State::SosData, Action::Collect),
        State::PmData => (State::PmData, Action::Collect),
        State::ApcData => (State::ApcData, Action::Collect),
        State::Utf8 => (State::Ground, Action::Nop),
    }
}

/// Whether `s` holds string data (DCS, OSC, SOS, PM, APC).
pub open spec fn is_string_state(s: State) -> bool {
    s == State::DcsData || s == State::OscData || s == State::SosData || s == State::PmData || s == State::ApcData
}

/// The default DEC table: the next state and the action for byte `b` in
/// state `s`. Text from `0xA0` up leads to `Ground` with no action, except
/// that the lead bytes `0xC2..=0xF4` of UTF-8 text collect in `Utf8`, whose
/// continuation bytes `0x80..=0xBF` collect too.
pub open spec fn dec_transition(s: State, b: u8) -> (State, Action) {
    if b == 0x18 || b == 0x1a || b == 0x1b {
        anywhere_rule(b)
    } else if s == State::Utf8 && 0x80 <= b && b <= 0xbf {
        (State::Utf8, Action::Collect)
    } else if 0x80 <= b && b <= 0x9f {
        c1_rule(b)
    } else if b >= 0xa0 {
        if s == State::Ground && 0xc2 <= b && b <= 0xf4 {
            (State::Utf8, Action::Collect)
        } else {
            (State::Ground, Action::Nop)
        }
    } else {
        seven_bit_rule(s, b)
    }
}

/// The default entry actions: entering an escape, a control sequence, a
/// device control string or string data clears what was collected.
pub open spec fn dec_entry(s: State) -> Action {
    if s == State::Escape || s == State::CsiEntry || s == State::DcsEntry || is_string_state(s) {
        Action::Clear
    } else {
        Action::Nop
    }
}

/// The default exit actions: leaving string data dispatches it.
pub open spec fn dec_exit(s: State) -> Action {
    if is_string_state(s) {
        Action::Dispatch
    } else {
        Action::Nop
    }
}

impl Table {
    /// The shared transitions, for every state.
    fn rules_anywhere(&mut self)
        requires
            old(self).wf(),
            forall|s: State, b: u8| #[trigger] old(self).lookup(s, b) == (State::Ground, Action::Nop),
        ensures
            final(self).wf(),
            forall|s: State, b: u8| #[trigger] final(self).lookup(s, b) == if is_anywhere(b) {
                anywhere_rule(b)
            } else {
                (State::Ground, Action::Nop)
            },
            forall|s: State| #[trigger] final(self).entry_action(s) == old(self).entry_action(s),
            forall|s: State| #[trigger] final(self).exit_action(s) == old(self).exit_action(s),
    {
        let ghost t0 = *self;
        let mut k: u8 = 0;
        while k < 17
            invariant
                k <= 17,
                self.wf(),
                forall|s: State, b: u8| #[trigger] self.lookup(s, b) == if state_index(s) < k && is_anywhere(b) {
                    anywhere_rule(b)
                } else {
                    (State::Ground, Action::Nop)
                },
                forall|s: State| #[trigger] self.entry_action(s) == t0.entry_action(s),
                forall|s: State| #[trigger] self.exit_action(s) == t0.exit_action(s),
            decreases 17 - k,
        {
            let state = State::from_u8(k);
            self.add(0x18, 0x18, state, Action::Execute, State::Ground);
            self.add(0x1A, 0x1A, state, Action::Execute, State::Ground);
            self.add(0x9C, 0x9C, state, Action::Nop, State::Ground);

            self.add(0x80, 0x8F, state, Action::Execute, State::Ground);
            self.add(0x91, 0x97, state, Action::Execute, State::Ground);
            self.add(0x99, 0x99, state, Action::Execute, State::Ground);
            self.add(0x9A, 0x9A, state, Action::Execute, State::Ground);

            self.add(0x1B, 0x1B, state, Action::Nop, State::Escape);
            self.add(0x90, 0x90, state, Action::Nop, State::DcsEntry);
            self.add(0x9B, 0x9B, state, Action::Nop, State::CsiEntry);

            self.add(0x98, 0x98, state, Action::Nop, State::SosData);
            self.add(0x9E, 0x9E, state, Action::Nop, State::PmData);
            self.add(0x9F, 0x9F, state, Action::Nop, State::ApcData);
            self.add(0x9D, 0x9D, state, Action::Nop, State::OscData);
            k = k + 1;
        }
    }

    /// The rules of `Ground`, and of the UTF-8 continuation bytes.
    fn rules_ground(&mut self)
        requires
            old(self).wf(),
        ensures
            final(self).wf(),
            forall|s: State, b: u8| #[trigger] final(self).lookup(s, b) == if (s == State::Ground && (seven_bit(b) || (0xc2 <= b && b <= 0xf4))) || (s == State::Utf8 && 0x80 <= b && b <= 0xbf) {
                dec_transition(s, b)
            } else {
                old(self).lookup(s, b)
            },
            forall|s: State| #[trigger] final(self).entry_action(s) == old(self).entry_action(s),
            forall|s: State| #[trigger] final(self).exit_action(s) == old(self).exit_action(s),
    {
        self.action(0x00, 0x17, State::Ground, Action::Execute);
        self.action(0x19, 0x19, State::Ground, Action::Execute);
        self.action(0x1C, 0x1F, State::Ground, Action::Execute);
        self.action(0x20, 0x7F, State::Ground, Action::Print);
        self.add(0xC2, 0xDF, State::Ground, Action::Collect, State::Utf8);
        self.add(0xE0, 0xEF, State::Ground, Action::Collect, State::Utf8);
        self.add(0xF0, 0xF4, State::Ground, Action::Collect, State::Utf8);
        self.add(0x80, 0xBF, State::Utf8, Action::Collect, State::Utf8);
    }

    /// The rules of `Escape`.
    fn rules_escape(&mut self)
        requires
            old(self).wf(),
        ensures
            final(self).wf(),
            forall|s: State, b: u8| #[trigger] final(self).lookup(s, b) == if s == State::Escape && seven_bit(b) {
                dec_transition(s, b)
            } else {
                old(self).lookup(s, b)
            },
            forall|s: State| #[trigger] final(self).entry_action(s) == if s == State::Escape {
                Action::Clear
            } else {
                old(self).entry_action(s)
            },
            forall|s: State| #[trigger] final(self).exit_action(s) == old(self).exit_action(s),
    {
        self.enter(State::Escape, Action::Clear);
        self.action(0x00, 0x17, State::Escape, Action::Execute);
        self.action(0x19, 0x19, State::Escape, Action::Execute);
        self.action(0x1C, 0x1F, State::Escape, Action::Execute);
        self.action(0x7F, 0x7F, State::Escape, Action::Ignore);
        self.add(0x20, 0x2F, State::Escape, Action::Collect, State::EscapeIntermediate);
        self.add(0x30, 0x4F, State::Escape, Action::Dispatch, State::Ground);
        self.add(0x51, 0x57, State::Escape, Action::Dispatch, State::Ground);
        self.add(0x59, 0x59, State::Escape, Action::Dispatch, State::Ground);
        self.add(0x5A, 0x5A, State::Escape, Action::Dispatch, State::Ground);
        self.add(0x5C, 0x5C, State::Escape, Action::Dispatch, State::Ground);
        self.add(0x60, 0x7E, State::Escape, Action::Dispatch, State::Ground);
        self.add(0x5B, 0x5B, State::Escape, Action::Nop, State::CsiEntry);
        self.add(0x5D, 0x5D, State::Escape, Action::Nop, State::OscData);
        self.add(0x50, 0x50, State::Escape, Action::Nop, State::DcsEntry);
        self.add(0x58, 0x58, State::Escape, Action::Nop, State::SosData);
        self.add(0x5E, 0x5E, State::Escape, Action::Nop, State::PmData);
        self.add(0x5F, 0x5F, State::Escape, Action::Nop, State::ApcData);
    }

    /// The rules of `EscapeIntermediate`.
    fn rules_escape_intermediate(&mut self)
        requires
            old(self).wf(),
        ensures
            final(self).wf(),
            forall|s: State, b: u8| #[trigger] final(self).lookup(s, b) == if s == State::EscapeIntermediate && seven_bit(b) {
                dec_transition(s, b)
            } else {
                old(self).lookup(s, b)
            },
            forall|s: State| #[trigger] final(self).entry_action(s) == old(self).entry_action(s),
            forall|s: State| #[trigger] final(self).exit_action(s) == old(self).exit_action(s),
    {
        self.action(0x00, 0x17, State::EscapeIntermediate, Action::Execute);
        self.action(0x19, 0x19, State::EscapeIntermediate, Action::Execute);
        self.action(0x1C, 0x1F, State::EscapeIntermediate, Action::Execute);
        self.action(0x20, 0x2F, State::EscapeIntermediate, Action::Collect);
        self.action(0x7F, 0x7F, State::EscapeIntermediate, Action::Ignore);
        self.add(0x30, 0x7E, State::EscapeIntermediate, Action::Dispatch, State::Ground);
    }

    /// The rules of `CsiEntry`.
    fn rules_csi_entry(&mut self)
        requires
            old(self).wf(),
        ensures
            final(self).wf(),
            forall|s: State, b: u8| #[trigger] final(self).lookup(s, b) == if s == State::CsiEntry && seven_bit(b) {
                dec_transition(s, b)
            } else {
                old(self).lookup(s, b)
            },
            forall|s: State| #[trigger] final(self).entry_action(s) == if s == State::CsiEntry {
                Action::Clear
            } else {
                old(self).entry_action(s)
            },
            forall|s: State| #[trigger] final(self).exit_action(s) == old(self).exit_action(s),
    {
        self.enter(State::CsiEntry, Action::Clear);
        self.action(0x00, 0x17, State::CsiEntry, Action::Execute);
        self.add(0x19, 0x19, State::CsiEntry, Action::Execute, State::CsiEntry);
        self.action(0x1C, 0x1F, State::CsiEntry, Action::Execute);
        self.add(0x7F, 0x7F, State::CsiEntry, Action::Ignore, State::CsiEntry);
        self.add(0x20, 0x2F, State::CsiEntry, Action::Collect, State::CsiIntermediate);
        self.add(0x3A, 0x3A, State::CsiEntry, Action::Nop, State::CsiIgnore);
        self.add(0x30, 0x39, State::CsiEntry, Action::Param, State::CsiParam);
        self.add(0x3B, 0x3B, State::CsiEntry, Action::Param, State::CsiParam);
        self.add(0x3C, 0x3F, State::CsiEntry, Action::Collect, State::CsiParam);
        self.add(0x40, 0x7E, State::CsiEntry, Action::Dispatch, State::Ground);
    }

    /// The rules of `CsiIgnore`.
    fn rules_csi_ignore(&mut self)
        requires
            old(self).wf(),
        ensures
            final(self).wf(),
            forall|s: State, b: u8| #[trigger] final(self).lookup(s, b) == if s == State::CsiIgnore && seven_bit(b) {
                dec_transition(s, b)
            } else {
                old(self).lookup(s, b)
            },
            forall|s: State| #[trigger] final(self).entry_action(s) == old(self).entry_action(s),
            forall|s: State| #[trigger] final(self).exit_action(s) == old(self).exit_action(s),
    {
        self.add(0x00, 0x17, State::CsiIgnore, Action::Execute, State::CsiIgnore);
        self.add(0x19, 0x19, State::CsiIgnore, Action::Execute, State::CsiIgnore);
        self.add(0x1C, 0x1F, State::CsiIgnore, Action::Execute, State::CsiIgnore);
        self.add(0x20, 0x3F, State::CsiIgnore, Action::Ignore, State::CsiIgnore);
        self.add(0x7F, 0x7F, State::CsiIgnore, Action::Ignore, State::CsiIgnore);
        self.add(0x40, 0x7E, State::CsiIgnore, Action::Nop, State::Ground);
    }

    /// The rules of `CsiParam`.
    fn rules_csi_param(&mut self)
        requires
            old(self).wf(),
        ensures
            final(self).wf(),
            forall|s: State, b: u8| #[trigger] final(self).lookup(s, b) == if s == State::CsiParam && seven_bit(b) {
                dec_transition(s, b)
            } else {
                old(self).lookup(s, b)
            },
            forall|s: State| #[trigger] final(self).entry_action(s) == old(self).entry_action(s),
            forall|s: State| #[trigger] final(self).exit_action(s) == old(self).exit_action(s),
    {
        self.add(0x00, 0x17, State::CsiParam, Action::Execute, State::CsiParam);
        self.add(0x19, 0x19, State::CsiParam, Action::Execute, State::CsiParam);
        self.add(0x1C, 0x1F, State::CsiParam, Action::Execute, State::CsiParam);
        self.add(0x30, 0x39, State::CsiParam, Action::Param, State::CsiParam);
        self.add(0x3A, 0x3A, State::CsiParam, Action::Param, State::CsiParam);
        self.add(0x3B, 0x3B, State::CsiParam, Action::Param, State::CsiParam);
        self.add(0x7F, 0x7F, State::CsiParam, Action::Ignore, State::CsiParam);
        self.add(0x3C, 0x3F, State::CsiParam, Action::Nop, State::CsiIgnore);
        self.add(0x20, 0x2F, State::CsiParam, Action::Collect, State::CsiIntermediate);
        self.add(0x40, 0x7E, State::CsiParam, Action::Dispatch, State::Ground);
    }

    /// The rules of `CsiIntermediate`.
    fn rules_csi_intermediate(&mut self)
        requires
            old(self).wf(),
        ensures
            final(self).wf(),
            forall|s: State, b: u8| #[trigger] final(self).lookup(s, b) == if s == State::CsiIntermediate && seven_bit(b) {
                dec_transition(s, b)
            } else {
                old(self).lookup(s, b)
            },
            forall|s: State| #[trigger] final(self).entry_action(s) == old(self).entry_action(s),
            forall|s: State| #[trigger] final(self).exit_action(s) == old(self).exit_action(s),
    {
        self.add(0x00, 0x17, State::CsiIntermediate, Action::Execute, State::CsiIntermediate);
        self.add(0x19, 0x19, State::CsiIntermediate, Action::Execute, State::CsiIntermediate);
        self.add(0x1C, 0x1F, State::CsiIntermediate, Action::Execute, State::CsiIntermediate);
        self.add(0x20, 0x2F, State::CsiIntermediate, Action::Collect, State::CsiIntermediate);
        self.ignore(0x7F, 0x7F, State::CsiIntermediate);
        self.add(0x30, 0x3F, State::CsiIntermediate, Action::Nop, State::CsiIgnore);
        self.add(0x40, 0x7E, State::CsiIntermediate, Action::Dispatch, State::Ground);
    }

    /// The rules of `DcsEntry`.
    fn rules_dcs_entry(&mut self)
        requires
            old(self).wf(),
        ensures
            final(self).wf(),
            forall|s: State, b: u8| #[trigger] final(self).lookup(s, b) == if s == State::DcsEntry && seven_bit(b) {
                dec_transition(s, b)
            } else {
                old(self).lookup(s, b)
            },
            forall|s: State| #[trigger] final(self).entry_action(s) == if s == State::DcsEntry {
                Action::Clear
            } else {
                old(self).entry_action(s)
            },
            forall|s: State| #[trigger] final(self).exit_action(s) == old(self).exit_action(s),
    {
        self.enter(State::DcsEntry, Action::Clear);
        self.action(0x00, 0x17, State::DcsEntry, Action::Ignore);
        self.action(0x19, 0x19, State::DcsEntry, Action::Ignore);
        self.action(0x1C, 0x1F, State::DcsEntry, Action::Ignore);
        self.action(0x7F, 0x7F, State::DcsEntry, Action::Ignore);
        self.add(0x3A, 0x3A, State::DcsEntry, Action::Nop, State::DcsIgnore);
        self.add(0x20, 0x2F, State::DcsEntry, Action::Collect, State::DcsIntermediate);
        self.add(0x30, 0x39, State::DcsEntry, Action::Param, State::DcsParam);
        self.add(0x3B, 0x3B, State::DcsEntry, Action::Param, State::DcsParam);
        self.add(0x3C, 0x3F, State::DcsEntry, Action::Collect, State::DcsParam);
        self.add(0x40, 0x7E, State::DcsEntry, Action::Nop, State::DcsData);
    }

    /// The rules of `DcsIntermediate`.
    fn rules_dcs_intermediate(&mut self)
        requires
            old(self).wf(),
        ensures
            final(self).wf(),
            forall|s: State, b: u8| #[trigger] final(self).lookup(s, b) == if s == State::DcsIntermediate && seven_bit(b) {
                dec_transition(s, b)
            } else {
                old(self).lookup(s, b)
            },
            forall|s: State| #[trigger] final(self).entry_action(s) == old(self).entry_action(s),
            forall|s: State| #[trigger] final(self).exit_action(s) == old(self).exit_action(s),
    {
        self.action(0x00, 0x17, State::DcsIntermediate, Action::Ignore);
        self.action(0x19, 0x19, State::DcsIntermediate, Action::Ignore);
        self.action(0x1C, 0x1F, State::DcsIntermediate, Action::Ignore);
        self.action(0x20, 0x2F, State::DcsIntermediate, Action::Collect);
        self.action(0x7F, 0x7F, State::DcsIntermediate, Action::Ignore);
        self.add(0x30, 0x3F, State::DcsIntermediate, Action::Ignore, State::DcsIgnore);
        self.add(0x40, 0x7E, State::DcsIntermediate, Action::Collect, State::DcsData);
    }

    /// The rules of `DcsIgnore`.
    fn rules_dcs_ignore(&mut self)
        requires
            old(self).wf(),
        ensures
            final(self).wf(),
            forall|s: State, b: u8| #[trigger] final(self).lookup(s, b) == if s == State::DcsIgnore && seven_bit(b) {
                dec_transition(s, b)
            } else {
                old(self).lookup(s, b)
            },
            forall|s: State| #[trigger] final(self).entry_action(s) == old(self).entry_action(s),
            forall|s: State| #[trigger] final(self).exit_action(s) == old(self).exit_action(s),
    {
        self.action(0x00, 0x17, State::DcsIgnore, Action::Ignore);
        self.action(0x19, 0x19, State::DcsIgnore, Action::Ignore);
        self.action(0x1C, 0x1F, State::DcsIgnore, Action::Ignore);
        self.action(0x1C, 0x1F, State::DcsIgnore, Action::Ignore);
        self.action(0x20, 0x7F, State::DcsIgnore, Action::Ignore);
    }

    /// The rules of `DcsParam`.
    fn rules_dcs_param(&mut self)
        requires
            old(self).wf(),
        ensures
            final(self).wf(),
            forall|s: State, b: u8| #[trigger] final(self).lookup(s, b) == if s == State::DcsParam && seven_bit(b) {
                dec_transition(s, b)
            } else {
                old(self).lookup(s, b)
            },
            forall|s: State| #[trigger] final(self).entry_action(s) == old(self).entry_action(s),
            forall|s: State| #[trigger] final(self).exit_action(s) == old(self).exit_action(s),
    {
        self.action(0x00, 0x17, State::DcsParam, Action::Ignore);
        self.action(0x19, 0x19, State::DcsParam, Action::Ignore);
        self.action(0x1C, 0x1F, State::DcsParam, Action::Ignore);
        self.action(0x30, 0x39, State::DcsParam, Action::Param);
        self.action(0x3B, 0x3B, State::DcsParam, Action::Param);
        self.action(0x7F, 0x7F, State::DcsParam, Action::Ignore);
        self.next(0x3A, 0x3A, State::DcsParam, State::DcsIgnore);
        self.next(0x3C, 0x3F, State::DcsParam, State::DcsIgnore);
        self.add(0x20, 0x2F, State::DcsParam, Action::Collect, State::DcsIntermediate);
        self.next(0x40, 0x7E, State::DcsParam, State::DcsData);
    }

    /// The entry, exit and ST rules of a string-data state.
    fn rules_string_bounds(&mut self, state: State)
        requires
            old(self).wf(),
        ensures
            final(self).wf(),
            forall|s: State, b: u8| #[trigger] final(self).lookup(s, b) == if s == state && b == 0x7f {
                (state, Action::Ignore)
            } else if s == state && b == 0x9c {
                (State::Ground, Action::Nop)
            } else {
                old(self).lookup(s, b)
            },
            forall|s: State| #[trigger] final(self).entry_action(s) == if s == state {
                Action::Clear
            } else {
                old(self).entry_action(s)
            },
            forall|s: State| #[trigger] final(self).exit_action(s) == if s == state {
                Action::Dispatch
            } else {
                old(self).exit_action(s)
            },
    {
        self.enter(state, Action::Clear);
        self.action(0x7F, 0x7F, state, Action::Ignore);
        self.next(0x9C, 0x9C, state, State::Ground);
        self.next(0x9C, 0x9C, state, State::Ground);
        self.exit(state, Action::Dispatch);
    }

    /// The data bytes of a string-data state: collected.
    fn rules_string_data(&mut self, state: State)
        requires
            old(self).wf(),
        ensures
            final(self).wf(),
            forall|s: State, b: u8| #[trigger] final(self).lookup(s, b) == if s == state && seven_bit(b) {
                (state, Action::Collect)
            } else {
                old(self).lookup(s, b)
            },
            forall|s: State| #[trigger] final(self).entry_action(s) == old(self).entry_action(s),
            forall|s: State| #[trigger] final(self).exit_action(s) == old(self).exit_action(s),
    {
        self.add(0x00, 0x17, state, Action::Collect, state);
        self.add(0x19, 0x19, state, Action::Collect, state);
        self.add(0x1C, 0x1F, state, Action::Collect, state);
        self.add(0x20, 0x7F, state, Action::Collect, state);
    }

    /// The default DEC table (<https://vt100.net/emu/dec_ansi_parser>),
    /// with UTF-8 text collected through the `Utf8` state.
    pub fn default() -> (t: Table)
        ensures
            t.wf(),
            forall|s: State, b: u8| #[trigger] t.lookup(s, b) == dec_transition(s, b),
            forall|s: State| #[trigger] t.entry_action(s) == dec_entry(s),
            forall|s: State| #[trigger] t.exit_action(s) == dec_exit(s),
    {
        let mut table = Table::empty();

        table.rules_anywhere();
        table.rules_ground();
        table.rules_escape();
        table.rules_escape_intermediate();
        table.rules_csi_entry();
        table.rules_csi_ignore();
        table.rules_csi_param();
        table.rules_csi_intermediate();
        table.rules_dcs_entry();
        table.rules_dcs_intermediate();
        table.rules_dcs_ignore();
        table.rules_dcs_param();

        table.rules_string_bounds(State::DcsData);
        table.rules_string_bounds(State::OscData);
        table.rules_string_bounds(State::SosData);
        table.rules_string_bounds(State::PmData);
        table.rules_string_bounds(State::ApcData);

        table.rules_string_data(State::DcsData);
        table.rules_string_data(State::OscData);
        table.rules_string_data(State::SosData);
        table.rules_string_data(State::PmData);
        table.rules_string_data(State::ApcData);

        table
    }
}

} // verus!
