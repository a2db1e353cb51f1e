//! The DEC ANSI transition table, stored as packed 16-bit entries.
use vstd::prelude::*;
use crate::parser::action::{Action, action_index, action_of};

verus! {

/// The states of the DEC ANSI parser (<https://vt100.net/emu/dec_ansi_parser>),
/// with a state of its own for the continuation bytes of UTF-8 text.
#[derive(Clone, Copy, PartialEq, Eq, Structural, Debug, Hash)]
pub enum State {
    Ground,
    Escape,
    EscapeIntermediate,
    CsiEntry,
    CsiIgnore,
    CsiParam,
    CsiIntermediate,
    DcsEntry,
    DcsIgnore,
    DcsIntermediate,
    DcsParam,
    DcsData,
    OscData,
    SosData,
    PmData,
    ApcData,
    Utf8,
}

/// The number of a state, in declaration order.
pub open spec fn state_index(s: State) -> nat {
    match s {
        State::Ground => 0,
        State::Escape => 1,
        State::EscapeIntermediate => 2,
        State::CsiEntry => 3,
        State::CsiIgnore => 4,
        State::CsiParam => 5,
        State::CsiIntermediate => 6,
        State::DcsEntry => 7,
        State::DcsIgnore => 8,
        State::DcsIntermediate => 9,
        State::DcsParam => 10,
        State::DcsData => 11,
        State::OscData => 12,
        State::SosData => 13,
        State::PmData => 14,
        State::ApcData => 15,
        State::Utf8 => 16,
    }
}

/// The state with number `n`.
pub open spec fn state_of(n: nat) -> State {
    if n == 0 {
        State::Ground
    } else if n == 1 {
        State::Escape
    } else if n == 2 {
        State::EscapeIntermediate
    } else if n == 3 {
        State::CsiEntry
    } else if n == 4 {
        State::CsiIgnore
    } else if n == 5 {
        State::CsiParam
    } else if n == 6 {
        State::CsiIntermediate
    } else if n == 7 {
        State::DcsEntry
    } else if n == 8 {
        State::DcsIgnore
    } else if n == 9 {
        State::DcsIntermediate
    } else if n == 10 {
        State::DcsParam
    } else if n == 11 {
        State::DcsData
    } else if n == 12 {
        State::OscData
    } else if n == 13 {
        State::SosData
    } else if n == 14 {
        State::PmData
    } else if n == 15 {
        State::ApcData
    } else {
        State::Utf8
    }
}

impl State {
    /// The number of the state, in declaration order.
    pub fn number(self) -> (n: u8)
        ensures
            n == state_index(self),
            state_of(n as nat) == self,
    {
        match self {
            State::Ground => 0,
            State::Escape => 1,
            State::EscapeIntermediate => 2,
            State::CsiEntry => 3,
            State::CsiIgnore => 4,
            State::CsiParam => 5,
            State::CsiIntermediate => 6,
            State::DcsEntry => 7,
            State::DcsIgnore => 8,
            State::DcsIntermediate => 9,
            State::DcsParam => 10,
            State::DcsData => 11,
            State::OscData => 12,
            State::SosData => 13,
            State::PmData => 14,
            State::ApcData => 15,
            State::Utf8 => 16,
        }
    }

    /// The state with number `value`; there are seventeen.
    pub fn from_u8(value: u8) -> (s: State)
        requires
            value < 17,
        ensures
            s == state_of(value as nat),
            state_index(s) == value,
    {
        if value == 0 {
                State::Ground
        } else if value == 1 {
                State::Escape
        } else if value == 2 {
                State::EscapeIntermediate
        } else if value == 3 {
                State::CsiEntry
        } else if value == 4 {
                State::CsiIgnore
        } else if value == 5 {
                State::CsiParam
        } else if value == 6 {
                State::CsiIntermediate
        } else if value == 7 {
                State::DcsEntry
        } else if value == 8 {
                State::DcsIgnore
        } else if value == 9 {
                State::DcsIntermediate
        } else if value == 10 {
                State::DcsParam
        } else if value == 11 {
                State::DcsData
        } else if value == 12 {
                State::OscData
        } else if value == 13 {
                State::SosData
        } else if value == 14 {
                State::PmData
        } else if value == 15 {
                State::ApcData
        } else {
                State::Utf8
        }
    }

    /// The default state, `Ground`.
    pub fn default() -> (s: State)
        ensures
            s == State::Ground,
    {
        State::Ground
    }
}

/// The packed form of a table entry: the action's number times 32 plus the
/// next state's number.
pub open spec fn encode(a: Action, next: State) -> nat {
    action_index(a) * 32 + state_index(next)
}

/// Whether `v` packs an action and a state.
pub open spec fn valid_code(v: u16) -> bool {
    v / 32 < 8 && v % 32 < 17
}

/// The next state and action packed in `v`.
pub open spec fn decode(v: u16) -> (State, Action) {
    (state_of((v % 32) as nat), action_of((v / 32) as nat))
}

/// Where the entry for byte `b` in state `s` is kept.
pub open spec fn slot(s: State, b: u8) -> int {
    state_index(s) * 256 + b
}

/// Packing and unpacking agree.
pub proof fn lemma_codec(a: Action, next: State)
    ensures
        encode(a, next) < 256,
        valid_code(encode(a, next) as u16),
        decode(encode(a, next) as u16) == (next, a),
{
    let x = action_index(a);
    let y = state_index(next);
    assert((x * 32 + y) / 32 == x && (x * 32 + y) % 32 == y) by (nonlinear_arith)
        requires
            x < 8,
            y < 17,
    ;
}

proof fn lemma_state_index_injective(s: State, t: State)
    ensures
        state_index(s) < 17,
        state_of(state_index(s)) == s,
        state_index(s) == state_index(t) ==> s == t,
{
    assert(state_of(state_index(t)) == t);
}

/// Different (state, byte) pairs are kept in different slots.
proof fn lemma_slot_injective(s: State, b: u8, t: State, c: u8)
    ensures
        0 <= slot(s, b) < 4352,
        slot(s, b) == slot(t, c) ==> s == t && b == c,
{
    lemma_state_index_injective(s, t);
    lemma_state_index_injective(t, s);
}

/// The DEC ANSI transition table: for each state and byte, the next state
/// and the action, and for each state the actions on entering and leaving
/// it. A byte without an entry leads to `Ground` with no action.
pub struct Table {
    inner: Vec<u16>,
    enter: Vec<Action>,
    exit: Vec<Action>,
}

/// The bytes a table entry for the range `start..=end` covers: every byte
/// of the range below `0xFF`.
pub open spec fn covers(start: u8, end: u8, b: u8) -> bool {
    start <= b && b <= end && b < 255
}

impl Table {
    /// The table holds an entry for every state and byte, and an entry and
    /// exit action for every state.
    pub closed spec fn wf(&self) -> bool {
        &&& self.inner@.len() == 4352
        &&& self.enter@.len() == 17
        &&& self.exit@.len() == 17
        &&& forall|i: int| 0 <= i < 4352 ==> valid_code(#[trigger] self.inner@[i])
    }

    /// The next state and the action for byte `b` in state `s`.
    pub closed spec fn lookup(&self, s: State, b: u8) -> (State, Action) {
        decode(self.inner@[slot(s, b)])
    }

    /// The action on entering state `s`.
    pub closed spec fn entry_action(&self, s: State) -> Action {
        self.enter@[state_index(s) as int]
    }

    /// The action on leaving state `s`.
    pub closed spec fn exit_action(&self, s: State) -> Action {
        self.exit@[state_index(s) as int]
    }

    /// A table without entries: every byte leads to `Ground` with no
    /// action, and no state has an entry or exit action.
    pub fn empty() -> (t: Table)
        ensures
            t.wf(),
            forall|s: State, b: u8| #[trigger] t.lookup(s, b) == (State::Ground, Action::Nop),
            forall|s: State| #[trigger] t.entry_action(s) == Action::Nop,
            forall|s: State| #[trigger] t.exit_action(s) == Action::Nop,
    {
        let mut inner: Vec<u16> = Vec::new();
        while inner.len() < 4352
            invariant
                inner@.len() <= 4352,
                forall|i: int| 0 <= i < inner@.len() ==> #[trigger] inner@[i] == 0,
            decreases 4352 - inner@.len(),
        {
            inner.push(0);
        }
        let mut enter: Vec<Action> = Vec::new();
        let mut exit: Vec<Action> = Vec::new();
        while enter.len() < 17
            invariant
                enter@.len() <= 17,
                exit@.len() == enter@.len(),
                forall|i: int| 0 <= i < enter@.len() ==> #[trigger] enter@[i] == Action::Nop,
                forall|i: int| 0 <= i < exit@.len() ==> #[trigger] exit@[i] == Action::Nop,
            decreases 17 - enter@.len(),
        {
            enter.push(Action::Nop);
            exit.push(Action::Nop);
        }
        let t = Table { inner, enter, exit };
        assert forall|s: State, b: u8| #[trigger] t.lookup(s, b) == (State::Ground, Action::Nop) by {
            lemma_slot_injective(s, b, s, b);
        }
        assert forall|s: State| #[trigger] t.entry_action(s) == Action::Nop by {
            lemma_state_index_injective(s, s);
        }
        assert forall|s: State| #[trigger] t.exit_action(s) == Action::Nop by {
            lemma_state_index_injective(s, s);
        }
        t
    }

    /// Where the entry for `byte` in `state` is kept: `(state << 8) | byte`.
    pub fn index(byte: u8, state: State) -> (i: usize)
        ensures
            i == slot(state, byte),
    {
        let n = state.number() as usize;
        let b = byte as usize;
        assert((n << 8usize) | b == n * 256 + b) by (bit_vector)
            requires
                n < 32,
                b < 256,
        ;
        (n << 8) | b
    }

    /// The packed entry for `action` and `next`: `(action << 5) | next`.
    pub fn value(action: Action, next: State) -> (v: u16)
        ensures
            v == encode(action, next),
    {
        let a = action.number() as u16;
        let n = next.number() as u16;
        assert((a << 5u16) | n == a * 32 + n) by (bit_vector)
            requires
                a < 8,
                n < 32,
        ;
        (a << 5) | n
    }

    /// Makes `byte`, whatever its value, lead from `state` to `next` with
    /// `action`.
    pub fn add_byte(&mut self, byte: u8, state: State, action: Action, next: State)
        requires
            old(self).wf(),
        ensures
            final(self).wf(),
            forall|s: State, b: u8| #[trigger] final(self).lookup(s, b) == if s == state && b == byte {
                (next, action)
            } else {
                old(self).lookup(s, b)
            },
            forall|s: State| #[trigger] final(self).entry_action(s) == old(self).entry_action(s),
            forall|s: State| #[trigger] final(self).exit_action(s) == old(self).exit_action(s),
    {
        let ghost t0 = *self;
        let v = Table::value(action, next);
        proof { lemma_codec(action, next); }
        let i = Table::index(byte, state);
        proof { lemma_slot_injective(state, byte, state, byte); }
        self.inner.set(i, v);
        proof {
            assert forall|s: State, b: u8| #[trigger] self.lookup(s, b) == if s == state && b == byte {
                (next, action)
            } else {
                t0.lookup(s, b)
            } by {
                lemma_slot_injective(s, b, state, byte);
            }
            assert forall|k: int| 0 <= k < 4352 implies valid_code(#[trigger] self.inner@[k]) by {
                if k != i {
                    assert(t0.inner@[k] == self.inner@[k]);
                }
            }
        }
    }

    /// Makes every byte of `start..=end` below `0xFF` lead from `state` to
    /// `next` with `action`.
    pub fn add(&mut self, start: u8, end: u8, state: State, action: Action, next: State)
        requires
            old(self).wf(),
        ensures
            final(self).wf(),
            forall|s: State, b: u8| #[trigger] final(self).lookup(s, b) == if s == state && covers(start, end, b) {
                (next, action)
            } else {
                old(self).lookup(s, b)
            },
            forall|s: State| #[trigger] final(self).entry_action(s) == old(self).entry_action(s),
            forall|s: State| #[trigger] final(self).exit_action(s) == old(self).exit_action(s),
    {
        let ghost t0 = *self;
        let v = Table::value(action, next);
        proof { lemma_codec(action, next); }
        let mut byte: u8 = start;
        while byte <= end && byte < 255
            invariant
                self.wf(),
                start <= byte,
                byte <= 255,
                byte == start || byte <= end + 1,
                self.enter@ == t0.enter@,
                self.exit@ == t0.exit@,
                v == encode(action, next),
                forall|s: State, b: u8| #[trigger] self.lookup(s, b) == if s == state && start <= b
                    && b < byte {
                    (next, action)
                } else {
                    t0.lookup(s, b)
                },
            decreases 255 - byte,
        {
            let i = Table::index(byte, state);
            proof {
                lemma_slot_injective(state, byte, state, byte);
                lemma_codec(action, next);
            }
            let ghost before = *self;
            self.inner.set(i, v);
            proof {
                assert forall|s: State, b: u8| #[trigger] self.lookup(s, b) == if s == state && start <= b
                    && b < byte + 1 {
                    (next, action)
                } else {
                    t0.lookup(s, b)
                } by {
                    lemma_slot_injective(s, b, state, byte);
                    assert(before.lookup(s, b) == if s == state && start <= b && b < byte {
                        (next, action)
                    } else {
                        t0.lookup(s, b)
                    });
                }
                assert forall|k: int| 0 <= k < 4352 implies valid_code(#[trigger] self.inner@[k]) by {
                    if k != i {
                        assert(before.inner@[k] == self.inner@[k]);
                    }
                }
            }
            byte = byte + 1;
        }
        proof {
            assert forall|s: State, b: u8| #[trigger] self.lookup(s, b) == if s == state && covers(start, end, b) {
                (next, action)
            } else {
                t0.lookup(s, b)
            } by {
                assert(self.lookup(s, b) == if s == state && start <= b && b < byte {
                    (next, action)
                } else {
                    t0.lookup(s, b)
                });
            }
        }
    }

    /// Makes the bytes `add` covers do `action` in `state` and stay there.
    pub fn action(&mut self, start: u8, end: u8, state: State, action: Action)
        requires
            old(self).wf(),
        ensures
            final(self).wf(),
            forall|s: State, b: u8| #[trigger] final(self).lookup(s, b) == if s == state && covers(start, end, b) {
                (state, action)
            } else {
                old(self).lookup(s, b)
            },
            forall|s: State| #[trigger] final(self).entry_action(s) == old(self).entry_action(s),
            forall|s: State| #[trigger] final(self).exit_action(s) == old(self).exit_action(s),
    {
        self.add(start, end, state, action, state);
    }

    /// Makes the bytes `add` covers lead from `state` to `next` with no
    /// action.
    pub fn next(&mut self, start: u8, end: u8, state: State, next: State)
        requires
            old(self).wf(),
        ensures
            final(self).wf(),
            forall|s: State, b: u8| #[trigger] final(self).lookup(s, b) == if s == state && covers(start, end, b) {
                (next, Action::Nop)
            } else {
                old(self).lookup(s, b)
            },
            forall|s: State| #[trigger] final(self).entry_action(s) == old(self).entry_action(s),
            forall|s: State| #[trigger] final(self).exit_action(s) == old(self).exit_action(s),
    {
        self.add(start, end, state, Action::Nop, next);
    }

    /// Makes the bytes `add` covers be ignored in `state`.
    pub fn ignore(&mut self, start: u8, end: u8, state: State)
        requires
            old(self).wf(),
        ensures
            final(self).wf(),
            forall|s: State, b: u8| #[trigger] final(self).lookup(s, b) == if s == state && covers(start, end, b) {
                (state, Action::Ignore)
            } else {
                old(self).lookup(s, b)
            },
            forall|s: State| #[trigger] final(self).entry_action(s) == old(self).entry_action(s),
            forall|s: State| #[trigger] final(self).exit_action(s) == old(self).exit_action(s),
    {
        self.add(start, end, state, Action::Ignore, state);
    }

    /// Sets the action on entering `state`.
    pub fn enter(&mut self, state: State, action: Action)
        requires
            old(self).wf(),
        ensures
            final(self).wf(),
            forall|s: State, b: u8| #[trigger] final(self).lookup(s, b) == old(self).lookup(s, b),
            forall|s: State| #[trigger] final(self).entry_action(s) == if s == state {
                action
            } else {
                old(self).entry_action(s)
            },
            forall|s: State| #[trigger] final(self).exit_action(s) == old(self).exit_action(s),
    {
        let i = state.number() as usize;
        self.enter.set(i, action);
        proof {
            assert forall|s: State| #[trigger] self.entry_action(s) == if s == state {
                action
            } else {
                old(self).entry_action(s)
            } by {
                lemma_state_index_injective(s, state);
            }
        }
    }

    /// Sets the action on leaving `state`.
    pub fn exit(&mut self, state: State, action: Action)
        requires
            old(self).wf(),
        ensures
            final(self).wf(),
            forall|s: State, b: u8| #[trigger] final(self).lookup(s, b) == old(self).lookup(s, b),
            forall|s: State| #[trigger] final(self).entry_action(s) == old(self).entry_action(s),
            forall|s: State| #[trigger] final(self).exit_action(s) == if s == state {
                action
            } else {
                old(self).exit_action(s)
            },
    {
        let i = state.number() as usize;
        self.exit.set(i, action);
        proof {
            assert forall|s: State| #[trigger] self.exit_action(s) == if s == state {
                action
            } else {
                old(self).exit_action(s)
            } by {
                lemma_state_index_injective(s, state);
            }
        }
    }

    /// The next state and the action for `byte` in `state`.
    pub fn transition(&self, state: State, byte: u8) -> (r: (State, Action))
        requires
            self.wf(),
        ensures
            r == self.lookup(state, byte),
    {
        let i = Table::index(byte, state);
        proof { lemma_slot_injective(state, byte, state, byte); }
        let v = self.inner[i];
        assert(v & 0x1f == v % 32 && v >> 5u16 == v / 32) by (bit_vector);
        (State::from_u8((v & 0x1f) as u8), Action::from_u8((v >> 5) as u8))
    }

    /// The action on entering `state`.
    pub fn on_enter(&self, state: State) -> (a: Action)
        requires
            self.wf(),
        ensures
            a == self.entry_action(state),
    {
        proof { lemma_state_index_injective(state, state); }
        self.enter[state.number() as usize]
    }

    /// The action on leaving `state`.
    pub fn on_exit(&self, state: State) -> (a: Action)
        requires
            self.wf(),
        ensures
            a == self.exit_action(state),
    {
        proof { lemma_state_index_injective(state, state); }
        self.exit[state.number() as usize]
    }
}

} // verus!
