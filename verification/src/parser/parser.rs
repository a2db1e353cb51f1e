//! The byte-level state machine that turns a stream into [`Record`]s.
use vstd::prelude::*;
use vstd::slice::slice_to_vec;
use arrayvec::ArrayVec;
use crate::params::Parameters;
use crate::parser::accumulator::{
    AccumulatorModel, ParametersAccumulator, acc_empty, acc_feed, acc_flush, acc_push_digit, acc_push_main,
    acc_push_sub, intermediate_slots, intermediate_slots_as_slice, intermediate_slots_clear,
    intermediate_slots_new, intermediate_slots_push,
};
use crate::parser::handler::{
    Handler, Record, RecordView, Recorder, Utf8Handler, dispatch, lemma_records_view_push, records_view,
};
use crate::parser::internals::Utf8;
use crate::parser::state::{Action, State, entry_spec, exit_spec, transition_spec};

verus! {

/// The state of a [`Parser`].
pub ghost struct ParserModel {
    pub state: State,
    pub params: AccumulatorModel,
    pub intermediates: Seq<u8>,
}

/// A parser that has seen nothing.
pub open spec fn parser_initial() -> ParserModel {
    ParserModel { state: State::Ground, params: acc_empty(), intermediates: Seq::empty() }
}

/// Performs action `a` for byte `b`: the new parser state and what is
/// reported.
pub open spec fn parser_perform(p: ParserModel, a: Action, b: u8) -> (ParserModel, Seq<RecordView>) {
    match a {
        Action::Clear => (ParserModel { params: acc_empty(), intermediates: Seq::empty(), ..p }, seq![]),
        Action::Print => (p, seq![RecordView::Print(seq![b])]),
        Action::Execute => (p, seq![RecordView::Execute(b)]),
        Action::Collect => (ParserModel { intermediates: p.intermediates.push(b), ..p }, seq![]),
        Action::Param => if 0x30 <= b && b <= 0x39 {
            (ParserModel { params: acc_push_digit(p.params, b), ..p }, seq![])
        } else if b == 0x3a {
            (ParserModel { params: acc_push_sub(p.params), ..p }, seq![])
        } else if b == 0x3b {
            (ParserModel { params: acc_push_main(p.params), ..p }, seq![])
        } else {
            (p, seq![])
        },
        Action::EscDispatch => (p, seq![RecordView::Esc(p.intermediates, b)]),
        Action::CsiDispatch => {
            let q = acc_flush(p.params);
            (ParserModel { params: q, ..p }, seq![RecordView::Csi(q.items, p.intermediates, b as char)])
        },
        Action::Dcs => {
            let q = acc_flush(p.params);
            (ParserModel { params: q, ..p }, seq![RecordView::Dcs(q.items, p.intermediates, b as char)])
        },
        Action::DcsData => (p, seq![RecordView::DcsData(seq![b])]),
        Action::DcsEnd => (p, seq![RecordView::DcsEnd(b)]),
        Action::Osc => (p, seq![RecordView::Osc]),
        Action::OscData => (p, seq![RecordView::OscData(seq![b])]),
        Action::OscEnd => (p, seq![RecordView::OscEnd(b)]),
        _ => (p, seq![]),
    }
}

/// One byte through the state machine: on a change of state the exit
/// action of the old state, the transition's action and the entry action
/// of the new state, in that order; otherwise only the transition's action.
pub open spec fn parser_step(p: ParserModel, b: u8) -> (ParserModel, Seq<RecordView>) {
    let (next, a) = transition_spec(p.state, b);
    if next != p.state {
        let r1 = parser_perform(p, exit_spec(p.state), b);
        let r2 = parser_perform(r1.0, a, b);
        let r3 = parser_perform(r2.0, entry_spec(next), b);
        (ParserModel { state: next, ..r3.0 }, r1.1 + r2.1 + r3.1)
    } else {
        parser_perform(p, a, b)
    }
}

/// Whether `b` belongs to the run that state `s` reports in one piece:
/// printable text in `Ground`, string data in `OscData` and `DcsData`.
pub open spec fn in_batch(s: State, b: u8) -> bool {
    match s {
        State::Ground => 0x21 <= b,
        State::OscData => 0x20 <= b,
        State::DcsData => (0x20 <= b && b <= 0x7e) || 0x80 <= b,
        _ => false,
    }
}

/// The end of the longest run of batched bytes from `i`.
pub open spec fn batch_end(s: State, bytes: Seq<u8>, i: int) -> int
    decreases bytes.len() - i,
{
    if 0 <= i < bytes.len() && in_batch(s, bytes[i]) {
        batch_end(s, bytes, i + 1)
    } else {
        i
    }
}

/// The record for a batched run in state `s`.
pub open spec fn batch_record(s: State, run: Seq<u8>) -> RecordView {
    match s {
        State::Ground => RecordView::Print(run),
        State::OscData => RecordView::OscData(run),
        _ => RecordView::DcsData(run),
    }
}

/// A batched run ends within the input.
pub proof fn lemma_batch_end(s: State, bytes: Seq<u8>, i: int)
    requires
        0 <= i <= bytes.len(),
    ensures
        i <= batch_end(s, bytes, i) <= bytes.len(),
        forall|k: int| i <= k < batch_end(s, bytes, i) ==> in_batch(s, #[trigger] bytes[k]),
        batch_end(s, bytes, i) < bytes.len() ==> !in_batch(s, bytes[batch_end(s, bytes, i)]),
    decreases bytes.len() - i,
{
    if i < bytes.len() && in_batch(s, bytes[i]) {
        lemma_batch_end(s, bytes, i + 1);
    }
}

/// The parser's state after `bytes[i..]`, and what it reports, batching
/// runs of printable text and string data into single records.
pub open spec fn parser_run(p: ParserModel, bytes: Seq<u8>, i: int) -> (ParserModel, Seq<RecordView>)
    decreases bytes.len() - i,
{
    if i < 0 || i >= bytes.len() {
        (p, seq![])
    } else {
        let j = batch_end(p.state, bytes, i);
        proof { lemma_batch_end(p.state, bytes, i); }
        if j > i {
            let r = parser_run(p, bytes, j);
            (r.0, seq![batch_record(p.state, bytes.subrange(i, j))] + r.1)
        } else {
            let s = parser_step(p, bytes[i]);
            let r = parser_run(s.0, bytes, i + 1);
            (r.0, s.1 + r.1)
        }
    }
}

/// Whether byte `b` can be taken in state `p`: a third intermediate byte
/// does not fit.
pub open spec fn step_fits(p: ParserModel, b: u8) -> bool {
    transition_spec(p.state, b).1 is Collect ==> p.intermediates.len() < 2
}

/// Whether every byte of `bytes[i..]` can be taken, starting in `p`.
pub open spec fn run_fits(p: ParserModel, bytes: Seq<u8>, i: int) -> bool
    decreases bytes.len() - i,
{
    if i < 0 || i >= bytes.len() {
        true
    } else {
        let j = batch_end(p.state, bytes, i);
        proof { lemma_batch_end(p.state, bytes, i); }
        if j > i {
            run_fits(p, bytes, j)
        } else {
            step_fits(p, bytes[i]) && run_fits(parser_step(p, bytes[i]).0, bytes, i + 1)
        }
    }
}

/// The record in `r`, if any, as a sequence.
pub open spec fn opt_records(r: Option<Record>) -> Seq<RecordView> {
    match r {
        Some(x) => seq![x@],
        None => seq![],
    }
}

/// The one-byte vector `[b]`.
fn single(b: u8) -> (v: Vec<u8>)
    ensures
        v@ == seq![b],
{
    let mut v: Vec<u8> = Vec::new();
    v.push(b);
    v
}

/// Appends the record in `r`, if any.
fn push_record(out: &mut Vec<Record>, r: Option<Record>)
    ensures
        records_view(final(out)@) == records_view(old(out)@) + opt_records(r),
{
    let ghost before = out@;
    match r {
        Some(x) => {
            out.push(x);
            proof { lemma_records_view_push(before, x); }
        },
        None => {
            assert(records_view(out@) + Seq::<RecordView>::empty() =~= records_view(out@));
        },
    }
}

/// A DEC/ECMA-48 parser for a 7-bit byte stream; bytes from `0x80` up are
/// text.
pub struct Parser {
    pub state: State,
    pub params: ParametersAccumulator,
    pub intermediates: ArrayVec<u8, 2>,
}

impl View for Parser {
    type V = ParserModel;

    open spec fn view(&self) -> ParserModel {
        ParserModel {
            state: self.state,
            params: self.params@,
            intermediates: intermediate_slots(self.intermediates),
        }
    }
}

impl Parser {
    /// A parser in the ground state with nothing collected.
    pub fn new() -> (p: Parser)
        ensures
            p@ == parser_initial(),
    {
        Parser {
            state: State::Ground,
            params: ParametersAccumulator::new(),
            intermediates: intermediate_slots_new(),
        }
    }

    /// A parser in the ground state with nothing collected.
    pub fn default() -> (p: Parser)
        ensures
            p@ == parser_initial(),
    {
        Parser::new()
    }

    /// Forgets the collected parameters and intermediates.
    pub fn clear(&mut self)
        ensures
            final(self)@ == (ParserModel { params: acc_empty(), intermediates: Seq::empty(), ..old(self)@ }),
    {
        self.params.clear();
        intermediate_slots_clear(&mut self.intermediates);
    }

    /// Returns to the ground state and forgets what was collected.
    pub fn flush(&mut self)
        ensures
            final(self)@ == parser_initial(),
    {
        self.state = State::Ground;
        self.clear();
    }

    fn perform(&mut self, a: Action, b: u8) -> (r: Option<Record>)
        requires
            a is Collect ==> old(self)@.intermediates.len() < 2,
        ensures
            final(self)@ == parser_perform(old(self)@, a, b).0,
            opt_records(r) == parser_perform(old(self)@, a, b).1,
    {
        let ghost p0 = self@;
        let r = match a {
            Action::Clear => {
                self.clear();
                None
            },
            Action::Print => Some(Record::Print(single(b))),
            Action::Execute => Some(Record::Execute(b)),
            Action::Collect => {
                intermediate_slots_push(&mut self.intermediates, b);
                None
            },
            Action::Param => {
                if 0x30 <= b && b <= 0x39 {
                    self.params.push_digit(b);
                } else if b == 0x3a {
                    self.params.push_sub();
                } else if b == 0x3b {
                    self.params.push_main();
                }
                None
            },
            Action::EscDispatch => Some(
                Record::Esc(slice_to_vec(intermediate_slots_as_slice(&self.intermediates)), b),
            ),
            Action::CsiDispatch => {
                self.params.flush();
                Some(
                    Record::Csi(
                        Parameters::from_vec(slice_to_vec(self.params.as_slice())),
                        slice_to_vec(intermediate_slots_as_slice(&self.intermediates)),
                        b as char,
                    ),
                )
            },
            Action::Dcs => {
                self.params.flush();
                Some(
                    Record::Dcs(
                        Parameters::from_vec(slice_to_vec(self.params.as_slice())),
                        slice_to_vec(intermediate_slots_as_slice(&self.intermediates)),
                        b as char,
                    ),
                )
            },
            Action::DcsData => Some(Record::DcsData(single(b))),
            Action::DcsEnd => Some(Record::DcsEnd(b)),
            Action::Osc => Some(Record::Osc),
            Action::OscData => Some(Record::OscData(single(b))),
            Action::OscEnd => Some(Record::OscEnd(b)),
            _ => None,
        };
        r
    }

    fn step(&mut self, b: u8, out: &mut Vec<Record>)
        requires
            step_fits(old(self)@, b),
        ensures
            final(self)@ == parser_step(old(self)@, b).0,
            records_view(final(out)@) == records_view(old(out)@) + parser_step(old(self)@, b).1,
    {
        let ghost p0 = self@;
        let ghost out0 = records_view(out@);
        let (next, action) = self.state.transition(b);
        if self.state != next {
            let exit = self.state.exit();
            let r1 = self.perform(exit, b);
            push_record(out, r1);
            let r2 = self.perform(action, b);
            push_record(out, r2);
            let r3 = self.perform(next.entry(), b);
            push_record(out, r3);
            self.state = next;
            proof {
                assert(records_view(out@) == out0 + opt_records(r1) + opt_records(r2) + opt_records(r3));
                assert(out0 + opt_records(r1) + opt_records(r2) + opt_records(r3)
                    == out0 + (opt_records(r1) + opt_records(r2) + opt_records(r3)));
            }
        } else {
            let r = self.perform(action, b);
            push_record(out, r);
        }
    }

    /// Parses `bytes` and returns what was found, in order. A run of
    /// printable bytes in the ground state, and a run of string data in an
    /// OSC or DCS, is reported as one record.
    pub fn advance_records(&mut self, bytes: &[u8]) -> (records: Vec<Record>)
        requires
            run_fits(old(self)@, bytes@, 0),
        ensures
            final(self)@ == parser_run(old(self)@, bytes@, 0).0,
            records_view(records@) == parser_run(old(self)@, bytes@, 0).1,
    {
        let ghost p0 = self@;
        let mut out: Vec<Record> = Vec::new();
        let mut i: usize = 0;
        assert(records_view(out@) =~= Seq::<RecordView>::empty());
        while i < bytes.len()
            invariant
                i <= bytes@.len(),
                run_fits(self@, bytes@, i as int),
                parser_run(p0, bytes@, 0).0 == parser_run(self@, bytes@, i as int).0,
                parser_run(p0, bytes@, 0).1 == records_view(out@) + parser_run(self@, bytes@, i as int).1,
            decreases bytes@.len() - i,
        {
            let ghost before = self@;
            let ghost out_before = records_view(out@);
            let j = batch_end_exec(self.state, bytes, i);
            proof { lemma_batch_end(self.state, bytes@, i as int); }
            if j > i {
                let ghost i0 = i as int;
                let run = slice_to_vec(vstd::slice::slice_subrange(bytes, i, j));
                let r = match self.state {
                    State::Ground => Record::Print(run),
                    State::OscData => Record::OscData(run),
                    _ => Record::DcsData(run),
                };
                let ghost vec0 = out@;
                out.push(r);
                proof {
                    lemma_records_view_push(vec0, r);
                    let rec = batch_record(before.state, bytes@.subrange(i0, j as int));
                    assert(r@ == rec);
                    let rest = parser_run(before, bytes@, j as int).1;
                    assert(parser_run(before, bytes@, i0).1 == seq![rec] + rest);
                    assert(out_before + (seq![rec] + rest) == out_before.push(rec) + rest);
                }
                i = j;
            } else {
                self.step(bytes[i], &mut out);
                i = i + 1;
                proof {
                    let s = parser_step(before, bytes@[i - 1]);
                    assert(records_view(out@) == out_before + s.1);
                }
            }
        }
        out
    }

    /// Whether `bytes` can be parsed from this state: no sequence may collect
    /// more than two intermediate bytes.
    pub fn fits(&self, bytes: &[u8]) -> (r: bool)
        ensures
            r == run_fits(self@, bytes@, 0),
    {
        let mut state = self.state;
        let mut n: usize = intermediate_slots_as_slice(&self.intermediates).len();
        let ghost mut g = self@;
        let mut i: usize = 0;
        while i < bytes.len()
            invariant
                i <= bytes@.len(),
                state == g.state,
                n == g.intermediates.len(),
                run_fits(self@, bytes@, 0) == run_fits(g, bytes@, i as int),
            decreases bytes@.len() - i,
        {
            let j = batch_end_exec(state, bytes, i);
            proof { lemma_batch_end(state, bytes@, i as int); }
            if j > i {
                i = j;
            } else {
                let b = bytes[i];
                let (next, action) = state.transition(b);
                if n >= 2 && action.is_collect() {
                    return false;
                }
                if state != next {
                    let n1 = intermediates_after(state.exit(), n);
                    let n2 = intermediates_after(action, n1);
                    n = intermediates_after(next.entry(), n2);
                } else {
                    n = intermediates_after(action, n);
                }
                proof { g = parser_step(g, b).0; }
                state = next;
                i = i + 1;
            }
        }
        true
    }

    /// Parses `bytes` and hands what was found to `handler`, in order;
    /// returns the number of bytes taken, all of them.
    pub fn advance<H: Handler>(&mut self, handler: &mut H, bytes: &[u8]) -> (n: usize)
        requires
            run_fits(old(self)@, bytes@, 0),
        ensures
            n == bytes@.len(),
            final(self)@ == parser_run(old(self)@, bytes@, 0).0,
            final(handler).log() == old(handler).log() + parser_run(old(self)@, bytes@, 0).1,
    {
        let records = self.advance_records(bytes);
        dispatch(handler, records.as_slice());
        bytes.len()
    }
}

/// The end of the longest run of batched bytes from `i`, for state `s`.
fn batch_end_exec(s: State, bytes: &[u8], i: usize) -> (j: usize)
    requires
        i <= bytes@.len(),
    ensures
        j == batch_end(s, bytes@, i as int),
{
    proof { lemma_batch_end(s, bytes@, i as int); }
    let mut j: usize = i;
    while j < bytes.len()
        invariant
            i <= j <= bytes@.len(),
            batch_end(s, bytes@, i as int) == batch_end(s, bytes@, j as int),
        ensures
            batch_end(s, bytes@, i as int) == j,
        decreases bytes@.len() - j,
    {
        let b = bytes[j];
        let inside = match s {
            State::Ground => 0x21 <= b,
            State::OscData => 0x20 <= b,
            State::DcsData => (0x20 <= b && b <= 0x7e) || 0x80 <= b,
            _ => false,
        };
        if !inside {
            break;
        }
        j = j + 1;
    }
    j
}

/// The number of intermediates after action `a` on `n` of them.
fn intermediates_after(a: Action, n: usize) -> (m: usize)
    requires
        n < 2 || !(a is Collect),
    ensures
        forall|p: ParserModel, b: u8| p.intermediates.len() == n
            ==> (#[trigger] parser_perform(p, a, b)).0.intermediates.len() == m,
        forall|p: ParserModel, b: u8| (#[trigger] parser_perform(p, a, b)).0.state == p.state,
{
    match a {
        Action::Clear => 0,
        Action::Collect => n + 1,
        _ => n,
    }
}

/// The parser state after each byte of `bytes[i..]` in turn.
pub open spec fn parser_steps(p: ParserModel, bytes: Seq<u8>, i: int) -> ParserModel
    decreases bytes.len() - i,
{
    if i < 0 || i >= bytes.len() {
        p
    } else {
        parser_steps(parser_step(p, bytes[i]).0, bytes, i + 1)
    }
}

/// A byte that is part of a batched run leaves the parser as it was.
pub proof fn lemma_batch_byte_keeps_state(p: ParserModel, b: u8)
    requires
        in_batch(p.state, b),
    ensures
        parser_step(p, b).0 == p,
{
}

proof fn lemma_batch_steps(p: ParserModel, bytes: Seq<u8>, i: int, j: int)
    requires
        0 <= i <= j <= bytes.len(),
        forall|k: int| i <= k < j ==> in_batch(p.state, #[trigger] bytes[k]),
    ensures
        parser_steps(p, bytes, i) == parser_steps(p, bytes, j),
    decreases j - i,
{
    if i < j {
        lemma_batch_byte_keeps_state(p, bytes[i]);
        lemma_batch_steps(p, bytes, i + 1, j);
    }
}

/// Batching is invisible to the parser state: after `bytes[i..]` the
/// parser is where feeding the bytes one at a time leaves it.
pub proof fn lemma_run_state_is_stepwise(p: ParserModel, bytes: Seq<u8>, i: int)
    requires
        0 <= i <= bytes.len(),
    ensures
        parser_run(p, bytes, i).0 == parser_steps(p, bytes, i),
    decreases bytes.len() - i,
{
    if i < bytes.len() {
        let j = batch_end(p.state, bytes, i);
        lemma_batch_end(p.state, bytes, i);
        if j > i {
            lemma_run_state_is_stepwise(p, bytes, j);
            lemma_batch_steps(p, bytes, i, j);
        } else {
            lemma_run_state_is_stepwise(parser_step(p, bytes[i]).0, bytes, i + 1);
        }
    }
}

proof fn lemma_steps_shift(p: ParserModel, a: Seq<u8>, b: Seq<u8>, k: int)
    requires
        0 <= k <= b.len(),
    ensures
        parser_steps(p, a + b, a.len() + k) == parser_steps(p, b, k),
    decreases b.len() - k,
{
    if k < b.len() {
        assert((a + b)[a.len() + k] == b[k]);
        lemma_steps_shift(parser_step(p, b[k]).0, a, b, k + 1);
    }
}

proof fn lemma_steps_split(p: ParserModel, a: Seq<u8>, b: Seq<u8>, i: int)
    requires
        0 <= i <= a.len(),
    ensures
        parser_steps(p, a + b, i) == parser_steps(parser_steps(p, a, i), b, 0),
    decreases a.len() - i,
{
    if i < a.len() {
        assert((a + b)[i] == a[i]);
        lemma_steps_split(parser_step(p, a[i]).0, a, b, i + 1);
    } else {
        lemma_steps_shift(p, a, b, 0);
    }
}

/// How the input is split into chunks does not change where the parser
/// ends up: parsing `a` and then `b` leaves it as parsing `a + b` does.
pub proof fn lemma_split_input_same_state(p: ParserModel, a: Seq<u8>, b: Seq<u8>)
    ensures
        parser_run(parser_run(p, a, 0).0, b, 0).0 == parser_run(p, a + b, 0).0,
{
    lemma_run_state_is_stepwise(p, a, 0);
    lemma_run_state_is_stepwise(parser_run(p, a, 0).0, b, 0);
    lemma_run_state_is_stepwise(p, a + b, 0);
    lemma_steps_split(p, a, b, 0);
}

/// CAN and SUB execute from every state and return the parser to the
/// ground state.
pub proof fn lemma_cancel_executes_anywhere(p: ParserModel, b: u8)
    requires
        b == 0x18 || b == 0x1a,
    ensures
        parser_run(p, seq![b], 0) == parser_step(p, b),
        parser_step(p, b).0.state == State::Ground,
        parser_step(p, b).1.last() == RecordView::Execute(b),
{
    let s = seq![b];
    lemma_batch_end(p.state, s, 0);
    assert(parser_run(parser_step(p, b).0, s, 1) == (parser_step(p, b).0, Seq::<RecordView>::empty()));
    assert(parser_step(p, b).1 + Seq::<RecordView>::empty() =~= parser_step(p, b).1);
}

/// ESC abandons whatever sequence is in flight: from every state but
/// `Escape` it enters `Escape` with no parameters and no intermediates,
/// reporting only the end of an OSC or DCS string it interrupts.
pub proof fn lemma_escape_abandons_sequence(p: ParserModel)
    requires
        p.state != State::Escape,
    ensures
        parser_step(p, 0x1b).0 == (ParserModel {
            state: State::Escape,
            params: acc_empty(),
            intermediates: Seq::empty(),
        }),
        parser_step(p, 0x1b).1 == (if p.state == State::OscData {
            seq![RecordView::OscEnd(0x1b)]
        } else if p.state == State::DcsData {
            seq![RecordView::DcsEnd(0x1b)]
        } else {
            Seq::<RecordView>::empty()
        }),
{
    let r = parser_step(p, 0x1b);
    assert(r.1 =~= (if p.state == State::OscData {
        seq![RecordView::OscEnd(0x1b)]
    } else if p.state == State::DcsData {
        seq![RecordView::DcsEnd(0x1b)]
    } else {
        Seq::<RecordView>::empty()
    }));
}

/// In the ground state a run of printable bytes (`0x21` and up, raw C1
/// and UTF-8 bytes included) is reported as one `Print` and changes
/// nothing.
pub proof fn lemma_text_prints_as_one_run(p: ParserModel, bytes: Seq<u8>)
    requires
        p.state == State::Ground,
        bytes.len() > 0,
        forall|k: int| 0 <= k < bytes.len() ==> 0x21 <= #[trigger] bytes[k],
    ensures
        parser_run(p, bytes, 0) == (p, seq![RecordView::Print(bytes)]),
{
    lemma_batch_end(p.state, bytes, 0);
    assert forall|k: int| 0 <= k < bytes.len() implies in_batch(p.state, #[trigger] bytes[k]) by {}
    lemma_batch_end_full(p.state, bytes, 0);
    let n = bytes.len() as int;
    assert(parser_run(p, bytes, n) == (p, Seq::<RecordView>::empty()));
    assert(bytes.subrange(0, n) =~= bytes);
    assert(parser_run(p, bytes, 0).1 == seq![RecordView::Print(bytes.subrange(0, n))] + parser_run(p, bytes, n).1);
    assert(seq![RecordView::Print(bytes)] + Seq::<RecordView>::empty() =~= seq![RecordView::Print(bytes)]);
}

proof fn lemma_batch_end_full(s: State, bytes: Seq<u8>, i: int)
    requires
        0 <= i <= bytes.len(),
        forall|k: int| i <= k < bytes.len() ==> in_batch(s, #[trigger] bytes[k]),
    ensures
        batch_end(s, bytes, i) == bytes.len(),
    decreases bytes.len() - i,
{
    if i < bytes.len() {
        lemma_batch_end_full(s, bytes, i + 1);
    }
}

/// The parser inside the parameters of a control sequence, after `s[..k]`.
pub open spec fn csi_params_state(s: Seq<u8>, k: int) -> ParserModel {
    if k == 0 {
        ParserModel { state: State::CsiEntry, params: acc_empty(), intermediates: Seq::empty() }
    } else {
        ParserModel { state: State::CsiParam, params: acc_feed(acc_empty(), s.take(k)), intermediates: Seq::empty() }
    }
}

/// Whether `s` is a parameter string the parser reads as parameters:
/// digits, `:` and `;`, not starting with `:`.
pub open spec fn is_param_string(s: Seq<u8>) -> bool {
    &&& forall|k: int| 0 <= k < s.len() ==> 0x30 <= #[trigger] s[k] <= 0x3b
    &&& s.len() > 0 ==> s[0] != 0x3a
}

proof fn lemma_csi_params(s: Seq<u8>, f: u8, k: int)
    requires
        is_param_string(s),
        0 <= k <= s.len(),
    ensures
        parser_run(csi_params_state(s, k), seq![0x1bu8, 0x5bu8] + s + seq![f], 2 + k)
            == parser_run(csi_params_state(s, s.len() as int), seq![0x1bu8, 0x5bu8] + s + seq![f], 2 + s.len() as int),
    decreases s.len() - k,
{
    let bytes = seq![0x1bu8, 0x5bu8] + s + seq![f];
    if k < s.len() {
        let q = csi_params_state(s, k);
        let b = s[k];
        assert(bytes[2 + k] == b);
        lemma_batch_end(q.state, bytes, 2 + k);
        assert(s.take(k + 1).drop_last() =~= s.take(k));
        assert(s.take(k + 1).last() == b);
        assert(s.take(0) =~= Seq::<u8>::empty());
        let st = parser_step(q, b);
        assert(st.0 == csi_params_state(s, k + 1));
        assert(st.1 =~= Seq::<RecordView>::empty());
        lemma_csi_params(s, f, k + 1);
        assert(parser_run(q, bytes, 2 + k).1 =~= parser_run(st.0, bytes, 3 + k).1);
    }
}

/// A control sequence `ESC [ s f`, with parameter string `s` and final
/// byte `f`, read in the ground state is reported as exactly one `Csi`
/// whose parameters are what the accumulator makes of `s`, and leaves the
/// parser in the ground state.
pub proof fn lemma_csi_dispatch(p: ParserModel, s: Seq<u8>, f: u8)
    requires
        p.state == State::Ground,
        is_param_string(s),
        0x40 <= f <= 0x7e,
    ensures
        parser_run(p, seq![0x1bu8, 0x5bu8] + s + seq![f], 0) == ({
            let m = acc_flush(acc_feed(acc_empty(), s));
            (
                ParserModel { state: State::Ground, params: m, intermediates: Seq::empty() },
                seq![RecordView::Csi(m.items, Seq::empty(), f as char)],
            )
        }),
{
    let bytes = seq![0x1bu8, 0x5bu8] + s + seq![f];
    let n = s.len() as int;
    assert(bytes[0] == 0x1b);
    assert(bytes[1] == 0x5b);
    assert(bytes[2 + n] == f);
    assert(bytes.len() == 3 + n);
    lemma_batch_end(p.state, bytes, 0);
    let p1 = parser_step(p, 0x1b);
    assert(p1.0 == (ParserModel { state: State::Escape, params: acc_empty(), intermediates: Seq::empty() }));
    assert(p1.1 =~= Seq::<RecordView>::empty());
    lemma_batch_end(p1.0.state, bytes, 1);
    let p2 = parser_step(p1.0, 0x5b);
    assert(p2.0 == csi_params_state(s, 0));
    assert(p2.1 =~= Seq::<RecordView>::empty());
    lemma_csi_params(s, f, 0);
    let q = csi_params_state(s, n);
    assert(s.take(n) =~= s);
    lemma_batch_end(q.state, bytes, 2 + n);
    let last = parser_step(q, f);
    let m = acc_flush(acc_feed(acc_empty(), s));
    assert(last.0 == (ParserModel { state: State::Ground, params: m, intermediates: Seq::empty() }));
    assert(last.1 =~= seq![RecordView::Csi(m.items, Seq::empty(), f as char)]);
    assert(parser_run(last.0, bytes, 3 + n) == (last.0, Seq::<RecordView>::empty()));
    assert(parser_run(q, bytes, 2 + n).1 =~= last.1);
    assert(parser_run(p1.0, bytes, 1).1 =~= parser_run(p2.0, bytes, 2).1);
    assert(parser_run(p, bytes, 0).1 =~= parser_run(p1.0, bytes, 1).1);
}

/// An operating system command `ESC ] data BEL` read in the ground state,
/// with string data `data` (bytes from `0x20` up), is reported as `Osc`,
/// the data in one run, and `OscEnd`, and leaves the parser in the ground
/// state with nothing collected.
pub proof fn lemma_osc_dispatch(p: ParserModel, data: Seq<u8>)
    requires
        p.state == State::Ground,
        forall|k: int| 0 <= k < data.len() ==> 0x20 <= #[trigger] data[k],
    ensures
        parser_run(p, seq![0x1bu8, 0x5du8] + data + seq![0x07u8], 0) == (
            ParserModel { state: State::Ground, params: acc_empty(), intermediates: Seq::empty() },
            seq![RecordView::Osc] + (if data.len() > 0 {
                seq![RecordView::OscData(data)]
            } else {
                Seq::<RecordView>::empty()
            }) + seq![RecordView::OscEnd(0x07)],
        ),
{
    let bytes = seq![0x1bu8, 0x5du8] + data + seq![0x07u8];
    let n = data.len() as int;
    assert(bytes[0] == 0x1b);
    assert(bytes[1] == 0x5d);
    assert(bytes[2 + n] == 0x07);
    assert(bytes.len() == 3 + n);
    assert forall|k: int| 2 <= k < 2 + n implies in_batch(State::OscData, #[trigger] bytes[k]) by {
        assert(bytes[k] == data[k - 2]);
    }
    let cleared = ParserModel { state: State::Ground, params: acc_empty(), intermediates: Seq::empty() };
    lemma_batch_end(p.state, bytes, 0);
    let p1 = parser_step(p, 0x1b);
    assert(p1.0 == (ParserModel { state: State::Escape, ..cleared }));
    assert(p1.1 =~= Seq::<RecordView>::empty());
    lemma_batch_end(p1.0.state, bytes, 1);
    let p2 = parser_step(p1.0, 0x5d);
    let q = ParserModel { state: State::OscData, ..cleared };
    assert(p2.0 == q);
    assert(p2.1 =~= seq![RecordView::Osc]);
    lemma_osc_batch(bytes, 2, 2 + n);
    assert(batch_end(State::OscData, bytes, 2) == 2 + n);
    lemma_batch_end(State::OscData, bytes, 2 + n);
    let last = parser_step(q, 0x07);
    assert(last.0 == cleared);
    assert(last.1 =~= seq![RecordView::OscEnd(0x07)]);
    assert(parser_run(cleared, bytes, 3 + n) == (cleared, Seq::<RecordView>::empty()));
    assert(parser_run(q, bytes, 2 + n).1 =~= seq![RecordView::OscEnd(0x07)]);
    assert(bytes.subrange(2, 2 + n) =~= data);
    let expected = seq![RecordView::Osc] + (if data.len() > 0 {
        seq![RecordView::OscData(data)]
    } else {
        Seq::<RecordView>::empty()
    }) + seq![RecordView::OscEnd(0x07)];
    if n > 0 {
        assert(parser_run(q, bytes, 2).1 =~= seq![RecordView::OscData(data)] + seq![RecordView::OscEnd(0x07)]);
    } else {
        assert(parser_run(q, bytes, 2).1 =~= seq![RecordView::OscEnd(0x07)]);
    }
    assert(parser_run(p1.0, bytes, 1).1 =~= expected);
    assert(parser_run(p, bytes, 0).1 =~= expected);
}

proof fn lemma_osc_batch(bytes: Seq<u8>, i: int, j: int)
    requires
        0 <= i <= j < bytes.len(),
        forall|k: int| i <= k < j ==> in_batch(State::OscData, #[trigger] bytes[k]),
        !in_batch(State::OscData, bytes[j]),
    ensures
        batch_end(State::OscData, bytes, i) == j,
    decreases j - i,
{
    if i < j {
        lemma_osc_batch(bytes, i + 1, j);
    }
}

impl Recorder {
    /// Parses `bytes` with a fresh parser and keeps what it reports.
    pub fn record(bytes: &[u8]) -> (r: Recorder)
        requires
            run_fits(parser_initial(), bytes@, 0),
        ensures
            records_view(r.records@) == parser_run(parser_initial(), bytes@, 0).1,
    {
        let mut parser = Parser::new();
        Recorder { records: parser.advance_records(bytes) }
    }
}

/// A parser for terminal input: a lone ESC read on its own is the Escape
/// key, reported as an escape sequence with ESC as its final byte.
pub struct InputParser(pub Parser);

impl InputParser {
    /// An input parser in the ground state.
    pub fn new() -> (p: InputParser)
        ensures
            p.0@ == parser_initial(),
    {
        InputParser(Parser::new())
    }

    /// Parses `bytes`; the single byte ESC is the Escape key and leaves the
    /// parser as it was. Returns the number of bytes taken, all of them.
    pub fn advance<H: Handler>(&mut self, handler: &mut H, bytes: &[u8]) -> (n: usize)
        requires
            !(bytes@ == seq![0x1bu8]) ==> run_fits(old(self).0@, bytes@, 0),
        ensures
            n == bytes@.len(),
            bytes@ == seq![0x1bu8] ==> final(self).0@ == old(self).0@,
            bytes@ == seq![0x1bu8] ==> final(handler).log() == old(handler).log().push(
                RecordView::Esc(Seq::empty(), 0x1b),
            ),
            !(bytes@ == seq![0x1bu8]) ==> final(self).0@ == parser_run(old(self).0@, bytes@, 0).0,
            !(bytes@ == seq![0x1bu8]) ==> final(handler).log() == old(handler).log() + parser_run(
                old(self).0@,
                bytes@,
                0,
            ).1,
    {
        if bytes.len() == 1 && bytes[0] == 0x1b {
            assert(bytes@ =~= seq![0x1bu8]);
            let none: [u8; 0] = [];
            let empty: &[u8] = none.as_slice();
            assert(empty@ =~= Seq::<u8>::empty());
            handler.esc(empty, 0x1b);
            return 1;
        }
        proof {
            if bytes@ == seq![0x1bu8] {
                assert(bytes@.len() == 1 && bytes@[0] == 0x1b);
            }
        }
        self.0.advance(handler, bytes)
    }
}

/// A parser for handlers that also take decoded characters. It parses as
/// [`Parser`] does and keeps the bytes of a character being assembled.
pub struct Utf8Parser {
    pub inner: Parser,
    pub utf8: Utf8,
}

impl Utf8Parser {
    /// A parser in the ground state with no character pending.
    pub fn new() -> (p: Utf8Parser)
        ensures
            p.inner@ == parser_initial(),
            p.utf8.len == 0,
            p.utf8.codepoint == 0,
    {
        Utf8Parser { inner: Parser::new(), utf8: Utf8::new() }
    }

    /// Parses `bytes` as [`Parser::advance`] does.
    pub fn advance<H: Utf8Handler>(&mut self, handler: &mut H, bytes: &[u8]) -> (n: usize)
        requires
            run_fits(old(self).inner@, bytes@, 0),
        ensures
            n == bytes@.len(),
            final(self).inner@ == parser_run(old(self).inner@, bytes@, 0).0,
            final(self).utf8 == old(self).utf8,
            final(handler).log() == old(handler).log() + parser_run(old(self).inner@, bytes@, 0).1,
    {
        self.inner.advance(handler, bytes)
    }

    /// Forgets the collected parameters and intermediates, and the pending
    /// character.
    pub fn clear(&mut self)
        ensures
            final(self).inner@ == (ParserModel { params: acc_empty(), intermediates: Seq::empty(), ..old(self).inner@ }),
            final(self).utf8.len == 0,
            final(self).utf8.inner@ == seq![0u8, 0u8, 0u8, 0u8],
            final(self).utf8.codepoint == 0,
    {
        self.inner.clear();
        self.utf8.clear();
    }

    /// Ends the input: a character still waiting for bytes is reported as
    /// U+FFFD; the parser returns to the ground state.
    pub fn flush<H: Utf8Handler>(&mut self, handler: &mut H)
        requires
            old(self).utf8.len <= 4,
        ensures
            final(self).inner@ == parser_initial(),
            final(self).utf8 == old(self).utf8,
            final(handler).log() == if old(self).utf8.len >= 2 && old(self).utf8.inner@[old(self).utf8.len - 1] == 0 {
                old(handler).log().push(RecordView::Char('\u{FFFD}'))
            } else {
                old(handler).log()
            },
    {
        if self.utf8.is_partial() {
            handler.char('\u{FFFD}');
        }
        self.inner.flush();
    }
}

} // verus!
