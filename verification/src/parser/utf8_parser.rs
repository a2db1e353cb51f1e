//! An incremental UTF-8 decoder driven by Björn Höhrmann's DFA, with the
//! maximal-subpart error policy: every ill-formed maximal subpart is one
//! `Invalid`, as `String::from_utf8_lossy` replaces each with U+FFFD.
use vstd::prelude::*;
use vstd::utf8::is_scalar;
use crate::utf8::decoder::{Codepoint, as_scalars, char_from_u32, dec_ok, fold_cp, lemma_decode_valid_utf8, lemma_fold_cp};
use vstd::utf8::{decode_utf8, valid_utf8};
use crate::utf8::decoder;
use crate::utf8::lossy::lossy;
use crate::utf8::dfa::{dfa_next, payload_mask};

verus! {

/// A decoding status.
#[derive(Clone, Copy, Debug, PartialEq, Eq, Structural, Hash)]
pub enum Status {
    /// Byte was consumed, but scalar is not complete yet.
    Pending,
    /// A complete, well-formed Unicode scalar value.
    Char(char),
    /// A maximal subpart of an ill-formed sequence.
    Invalid,
    /// Byte was not consumed and should be re-fed to continue.
    Reprocess,
}

/// A decoding event.
#[derive(Clone, Copy, Debug, PartialEq, Eq, Structural, Hash)]
pub enum Event {
    /// A complete, well-formed Unicode scalar value.
    Char(char),
    /// A maximal subpart of an ill-formed sequence.
    Invalid,
}

/// The zero, one or two events produced by one byte, in order.
#[derive(Clone, Copy, Debug)]
pub struct Events(pub [Option<Event>; 2]);

/// The events in `e`, in order.
pub open spec fn events_seq(first: Option<Event>, second: Option<Event>) -> Seq<Event> {
    match (first, second) {
        (Some(a), Some(b)) => seq![a, b],
        (Some(a), None) => seq![a],
        (None, Some(b)) => seq![b],
        (None, None) => seq![],
    }
}

impl Events {
    /// The events held, in order.
    pub open spec fn spec_events(&self) -> Seq<Event> {
        events_seq(self.0@[0], self.0@[1])
    }

    /// Whether there is no event.
    pub fn is_none(&self) -> (r: bool)
        ensures
            r == (self.0@[0] is None && self.0@[1] is None),
    {
        self.0[0].is_none() && self.0[1].is_none()
    }

    /// Whether there is no event: the byte was absorbed.
    pub fn is_pending(&self) -> (r: bool)
        ensures
            r == (self.0@[0] is None && self.0@[1] is None),
    {
        self.is_none()
    }

    /// How many events are held: as many as `next` still hands out.
    pub fn len(&self) -> (n: usize)
        ensures
            n == (if self.0@[0] is Some { 1int } else { 0int }) + (if self.0@[1] is Some { 1int } else { 0int }),
    {
        let mut n: usize = 0;
        if self.0[0].is_some() {
            n = n + 1;
        }
        if self.0[1].is_some() {
            n = n + 1;
        }
        n
    }

    /// Takes the next event, if any.
    pub fn next(&mut self) -> (e: Option<Event>)
        ensures
            e == old(self).0@[0],
            final(self).0@ == seq![old(self).0@[1], None],
    {
        let head = self.0[0];
        let second = self.0[1];
        *self = Events([second, None]);
        proof { assert(self.0@ =~= seq![old(self).0@[1], None]); }
        head
    }
}

/// The start state, also reached after each complete scalar.
pub const ACCEPT: u8 = 0;

/// The state after an ill-formed byte.
pub const REJECT: u8 = 12;

/// The character class of a byte.
pub open spec fn class_of(b: u8) -> u8 {
    if 0x00 <= b && b <= 0x7f {
        0
    } else if 0x80 <= b && b <= 0x8f {
        1
    } else if 0x90 <= b && b <= 0x9f {
        9
    } else if 0xa0 <= b && b <= 0xbf {
        7
    } else if 0xc0 <= b && b <= 0xc1 {
        8
    } else if 0xc2 <= b && b <= 0xdf {
        2
    } else if b == 0xe0 {
        10
    } else if 0xe1 <= b && b <= 0xec {
        3
    } else if b == 0xed {
        4
    } else if 0xee <= b && b <= 0xef {
        3
    } else if b == 0xf0 {
        11
    } else if 0xf1 <= b && b <= 0xf3 {
        6
    } else if b == 0xf4 {
        5
    } else {
        8
    }
}

/// The next state from `s` on a byte of class `c`.
pub open spec fn next_state(s: u8, c: u8) -> u8 {
    if s == 0 {
        if c == 0 {
            0
        } else if c == 2 {
            24
        } else if c == 3 {
            36
        } else if c == 10 {
            48
        } else if c == 4 {
            60
        } else if c == 11 {
            72
        } else if c == 6 {
            84
        } else if c == 5 {
            96
        } else {
            12
        }
    } else if s == 12 {
        12
    } else if s == 24 {
        if c == 1 || c == 7 || c == 9 {
            0
        } else {
            12
        }
    } else if s == 36 {
        if c == 1 || c == 7 || c == 9 {
            24
        } else {
            12
        }
    } else if s == 48 {
        if c == 7 {
            24
        } else {
            12
        }
    } else if s == 60 {
        if c == 1 || c == 9 {
            24
        } else {
            12
        }
    } else if s == 72 {
        if c == 7 || c == 9 {
            36
        } else {
            12
        }
    } else if s == 84 {
        if c == 1 || c == 7 || c == 9 {
            36
        } else {
            12
        }
    } else if s == 96 {
        if c == 1 {
            36
        } else {
            12
        }
    } else {
        12
    }
}

/// The states the DFA can be in.
pub open spec fn valid_dfa_state(s: u8) -> bool {
    s == 0 || s == 12 || s == 24 || s == 36 || s == 48 || s == 60 || s == 72 || s == 84 || s == 96
}

/// The accumulated value after byte `b`: a lead byte's payload bits, or
/// the previous value shifted left by six with a continuation's low six
/// bits.
pub open spec fn fold_codepoint(s: u8, cp: u32, b: u8) -> u32 {
    if s == 0 {
        (0xffu32 >> class_of(b)) & (b as u32)
    } else {
        (cp << 6u32) | ((b & 0x3f) as u32)
    }
}

/// The character with scalar value `cp`, or U+FFFD if it is not one.
pub open spec fn char_of(cp: u32) -> char {
    if is_scalar(cp) {
        cp as char
    } else {
        '\u{FFFD}'
    }
}

/// One byte through the decoder: the events, then the new state and
/// value. A byte that ends an unfinished sequence reports it as `Invalid`
/// and is decoded again from the start state.
pub open spec fn advance_spec(s: u8, cp: u32, b: u8) -> (Seq<Event>, u8, u32) {
    let s1 = next_state(s, class_of(b));
    let cp1 = fold_codepoint(s, cp, b);
    if s1 == ACCEPT {
        (seq![Event::Char(char_of(cp1))], s1, cp1)
    } else if s1 == REJECT && s == ACCEPT {
        (seq![Event::Invalid], ACCEPT, 0)
    } else if s1 == REJECT {
        let s2 = next_state(ACCEPT, class_of(b));
        let cp2 = fold_codepoint(ACCEPT, 0, b);
        if s2 == ACCEPT {
            (seq![Event::Invalid, Event::Char(char_of(cp2))], s2, cp2)
        } else if s2 == REJECT {
            (seq![Event::Invalid, Event::Invalid], ACCEPT, 0)
        } else {
            (seq![Event::Invalid], s2, cp2)
        }
    } else {
        (seq![], s1, cp1)
    }
}

/// Incremental UTF-8 decoder: the DFA state and the value accumulated so
/// far.
#[derive(Clone, Copy, Debug)]
pub struct Parser {
    state: u8,
    codepoint: u32,
}

impl Parser {
    /// The state is one the DFA can be in.
    #[verifier::type_invariant]
    spec fn valid(self) -> bool {
        valid_dfa_state(self.state)
    }

    /// The DFA state.
    pub closed spec fn spec_state(&self) -> u8 {
        self.state
    }

    /// The value accumulated so far.
    pub closed spec fn spec_codepoint(&self) -> u32 {
        self.codepoint
    }

    /// A decoder in the start state.
    pub fn new() -> (p: Parser)
        ensures
            p.spec_state() == ACCEPT,
            p.spec_codepoint() == 0,
    {
        Parser { state: ACCEPT, codepoint: 0 }
    }

    /// A decoder in the start state.
    pub fn default() -> (p: Parser)
        ensures
            p.spec_state() == ACCEPT,
            p.spec_codepoint() == 0,
    {
        Parser::new()
    }

    /// Whether bytes of an unfinished sequence were absorbed.
    pub fn is_pending(&self) -> (r: bool)
        ensures
            r == (self.spec_state() != ACCEPT),
    {
        self.state != ACCEPT
    }

    /// Drops what is pending and returns to the start state.
    pub fn reset(&mut self)
        ensures
            final(self).spec_state() == ACCEPT,
            final(self).spec_codepoint() == 0,
    {
        *self = Parser::new();
    }

    /// Signals the end of input: an unfinished sequence is one `Invalid`.
    /// The decoder is back in the start state either way.
    pub fn flush(&mut self) -> (e: Option<Event>)
        ensures
            e == (if old(self).spec_state() != ACCEPT { Some(Event::Invalid) } else { None }),
            final(self).spec_state() == ACCEPT,
            final(self).spec_codepoint() == 0,
    {
        let pending = self.is_pending();
        self.reset();
        if pending {
            Some(Event::Invalid)
        } else {
            None
        }
    }

    fn class(b: u8) -> (c: u8)
        ensures
            c == class_of(b),
    {
        if 0x00 <= b && b <= 0x7f {
                0
        } else if 0x80 <= b && b <= 0x8f {
                1
        } else if 0x90 <= b && b <= 0x9f {
                9
        } else if 0xa0 <= b && b <= 0xbf {
                7
        } else if 0xc0 <= b && b <= 0xc1 {
                8
        } else if 0xc2 <= b && b <= 0xdf {
                2
        } else if b == 0xe0 {
                10
        } else if 0xe1 <= b && b <= 0xec {
                3
        } else if b == 0xed {
                4
        } else if 0xee <= b && b <= 0xef {
                3
        } else if b == 0xf0 {
                11
        } else if 0xf1 <= b && b <= 0xf3 {
                6
        } else if b == 0xf4 {
                5
        } else {
                8
        }
    }

    fn next(s: u8, c: u8) -> (t: u8)
        ensures
            t == next_state(s, c),
    {
        if s == 0 {
                if c == 0 {
                        0
                } else if c == 2 {
                        24
                } else if c == 3 {
                        36
                } else if c == 10 {
                        48
                } else if c == 4 {
                        60
                } else if c == 11 {
                        72
                } else if c == 6 {
                        84
                } else if c == 5 {
                        96
                } else {
                        12
                }
        } else if s == 12 {
                12
        } else if s == 24 {
                if c == 1 || c == 7 || c == 9 {
                        0
                } else {
                        12
                }
        } else if s == 36 {
                if c == 1 || c == 7 || c == 9 {
                        24
                } else {
                        12
                }
        } else if s == 48 {
                if c == 7 {
                        24
                } else {
                        12
                }
        } else if s == 60 {
                if c == 1 || c == 9 {
                        24
                } else {
                        12
                }
        } else if s == 72 {
                if c == 7 || c == 9 {
                        36
                } else {
                        12
                }
        } else if s == 84 {
                if c == 1 || c == 7 || c == 9 {
                        36
                } else {
                        12
                }
        } else if s == 96 {
                if c == 1 {
                        36
                } else {
                        12
                }
        } else {
                12
        }
    }

    fn transition(&mut self, byte: u8) -> (s: u8)
        ensures
            s == next_state(old(self).spec_state(), class_of(byte)),
            final(self).spec_state() == s,
            final(self).spec_codepoint() == fold_codepoint(old(self).spec_state(), old(self).spec_codepoint(), byte),
    {
        let class = Parser::class(byte);
        let cp = if self.state == ACCEPT {
            (0xffu32 >> class) & (byte as u32)
        } else {
            (self.codepoint << 6u32) | ((byte & 0x3f) as u32)
        };
        let s = Parser::next(self.state, class);
        *self = Parser { state: s, codepoint: cp };
        s
    }

    fn take(&self) -> (c: char)
        ensures
            c == char_of(self.spec_codepoint()),
    {
        match char_from_u32(self.codepoint) {
            Some(c) => c,
            None => '\u{FFFD}',
        }
    }

    /// Feeds one byte; the events it produces, in order.
    pub fn advance(&mut self, byte: u8) -> (e: Events)
        ensures
            ({
                let (events, s, cp) = advance_spec(old(self).spec_state(), old(self).spec_codepoint(), byte);
                &&& e.spec_events() == events
                &&& final(self).spec_state() == s
                &&& final(self).spec_codepoint() == cp
            }),
    {
        let was_pending = self.is_pending();
        let s = self.transition(byte);
        let e = if s == ACCEPT {
            Events([Some(Event::Char(self.take())), None])
        } else if s == REJECT && !was_pending {
            self.reset();
            Events([Some(Event::Invalid), None])
        } else if s == REJECT {
            self.reset();
            let s2 = self.transition(byte);
            if s2 == ACCEPT {
                Events([Some(Event::Invalid), Some(Event::Char(self.take()))])
            } else if s2 == REJECT {
                self.reset();
                Events([Some(Event::Invalid), Some(Event::Invalid)])
            } else {
                Events([Some(Event::Invalid), None])
            }
        } else {
            Events([None, None])
        };
        proof {
            assert(e.spec_events() == events_seq(e.0@[0], e.0@[1]));
        }
        e
    }

    /// Feeds one byte, yielding its status; after `Reprocess` the byte
    /// must be fed again.
    pub fn advance_one(&mut self, byte: u8) -> (st: Status)
        ensures
            ({
                let s1 = next_state(old(self).spec_state(), class_of(byte));
                let cp1 = fold_codepoint(old(self).spec_state(), old(self).spec_codepoint(), byte);
                if s1 == ACCEPT {
                    st == Status::Char(char_of(cp1)) && final(self).spec_state() == s1
                        && final(self).spec_codepoint() == cp1
                } else if s1 == REJECT {
                    &&& st == (if old(self).spec_state() == ACCEPT { Status::Invalid } else { Status::Reprocess })
                    &&& final(self).spec_state() == ACCEPT
                    &&& final(self).spec_codepoint() == 0
                } else {
                    st == Status::Pending && final(self).spec_state() == s1 && final(self).spec_codepoint() == cp1
                }
            }),
    {
        let was_pending = self.is_pending();
        let s = self.transition(byte);
        if s == ACCEPT {
            Status::Char(self.take())
        } else if s == REJECT {
            self.reset();
            if !was_pending {
                Status::Invalid
            } else {
                Status::Reprocess
            }
        } else {
            Status::Pending
        }
    }
}

/// The events a run of bytes produces from state `(s, cp)`, and the state
/// after it.
pub open spec fn decode_run(s: u8, cp: u32, bytes: Seq<u8>) -> (Seq<Event>, u8, u32)
    decreases bytes.len(),
{
    if bytes.len() == 0 {
        (Seq::empty(), s, cp)
    } else {
        let (out, s1, c1) = decode_run(s, cp, bytes.drop_last());
        let (more, s2, c2) = advance_spec(s1, c1, bytes.last());
        (out + more, s2, c2)
    }
}

/// An event as a codepoint of [`decoder::Decoder`].
pub open spec fn as_codepoint(e: Event) -> Codepoint {
    match e {
        Event::Char(c) => Codepoint::Scalar(c),
        Event::Invalid => Codepoint::Invalid,
    }
}

/// Events as codepoints.
pub open spec fn as_codepoints(es: Seq<Event>) -> Seq<Codepoint> {
    es.map_values(|e: Event| as_codepoint(e))
}

/// The state of [`decoder::Decoder`]'s DFA that a state of this DFA
/// corresponds to.
pub open spec fn decoder_state(s: u8) -> u64 {
    if s == 0 {
        6
    } else if s == 24 {
        12
    } else if s == 36 {
        18
    } else if s == 48 {
        30
    } else if s == 60 {
        36
    } else if s == 72 {
        42
    } else if s == 84 {
        24
    } else if s == 96 {
        48
    } else {
        0
    }
}

/// This decoder in `(s, cp)` and [`decoder::Decoder`] in `(ds, dcp)` are
/// at the same point of the same sequence.
pub open spec fn agrees(s: u8, cp: u32, ds: u64, dcp: u32) -> bool {
    &&& valid_dfa_state(s)
    &&& s != REJECT
    &&& ds == decoder_state(s)
    &&& dec_ok(ds, dcp)
    &&& s != ACCEPT ==> cp == dcp
    &&& s == ACCEPT ==> dcp == 0
}

proof fn lemma_next_state_agrees(s: u8, b: u8)
    requires
        valid_dfa_state(s),
        s != REJECT,
    ensures
        decoder_state(next_state(s, class_of(b))) == dfa_next(decoder_state(s), b),
        next_state(s, class_of(b)) != REJECT ==> valid_dfa_state(next_state(s, class_of(b))),
{
}

proof fn lemma_fold_agrees(s: u8, cp: u32, b: u8)
    requires
        valid_dfa_state(s),
        s != REJECT,
        next_state(s, class_of(b)) != REJECT,
    ensures
        s == ACCEPT ==> fold_codepoint(s, cp, b) == fold_cp(0, b),
        s != ACCEPT ==> fold_codepoint(s, cp, b) == fold_cp(cp, b),
{
    let c = class_of(b);
    if s == ACCEPT {
        assert(payload_mask(b) == (if b <= 0x7f { 0x7fu32 } else if b <= 0xdf { 0x1fu32 } else if b <= 0xef { 0x0fu32 } else { 0x07u32 }));
        let m = payload_mask(b);
        assert(
            (b <= 0x7f ==> (0xffu32 >> 0u8) & (b as u32) == (0u32 << 6u32) | ((b as u32) & 0x7fu32))
            && (0xc2 <= b && b <= 0xdf ==> (0xffu32 >> 2u8) & (b as u32) == (0u32 << 6u32) | ((b as u32) & 0x1fu32))
            && (0xe1 <= b && b <= 0xef && b != 0xed ==> (0xffu32 >> 3u8) & (b as u32) == (0u32 << 6u32) | ((b as u32) & 0x0fu32))
            && (b == 0xe0 ==> (0xffu32 >> 10u8) & (b as u32) == (0u32 << 6u32) | ((b as u32) & 0x0fu32))
            && (b == 0xed ==> (0xffu32 >> 4u8) & (b as u32) == (0u32 << 6u32) | ((b as u32) & 0x0fu32))
            && (b == 0xf0 ==> (0xffu32 >> 11u8) & (b as u32) == (0u32 << 6u32) | ((b as u32) & 0x07u32))
            && (0xf1 <= b && b <= 0xf3 ==> (0xffu32 >> 6u8) & (b as u32) == (0u32 << 6u32) | ((b as u32) & 0x07u32))
            && (b == 0xf4 ==> (0xffu32 >> 5u8) & (b as u32) == (0u32 << 6u32) | ((b as u32) & 0x07u32))
        ) by (bit_vector);
    } else {
        assert(0x80 <= b && b <= 0xbf);
        assert(payload_mask(b) == 0x3fu32);
        assert(0x80 <= b && b <= 0xbf ==> ((b & 0x3f) as u32) == (b as u32) & 0x3fu32) by (bit_vector);
    }
}

/// One byte: this decoder reports, codepoint for codepoint, what
/// [`decoder::Decoder::advance`] reports, and the two stay in step.
pub proof fn lemma_advance_agrees(s: u8, cp: u32, ds: u64, dcp: u32, b: u8)
    requires
        agrees(s, cp, ds, dcp),
    ensures
        ({
            let (ev, s1, cp1) = advance_spec(s, cp, b);
            let (cps, ds1, dcp1) = decoder::advance_spec(ds, dcp, b);
            as_codepoints(ev) == cps && agrees(s1, cp1, ds1, dcp1)
        }),
{
    lemma_next_state_agrees(s, b);
    let n = next_state(s, class_of(b));
    if n != REJECT {
        lemma_fold_agrees(s, cp, b);
    }
    lemma_fold_cp(ds, dcp, b);
    lemma_next_state_agrees(ACCEPT, b);
    let n2 = next_state(ACCEPT, class_of(b));
    if n2 != REJECT {
        lemma_fold_agrees(ACCEPT, 0, b);
    }
    lemma_fold_cp(6, 0, b);
    let (ev, s1, cp1) = advance_spec(s, cp, b);
    let (cps, ds1, dcp1) = decoder::advance_spec(ds, dcp, b);
    assert(as_codepoints(ev) =~= cps);
}

/// Over any byte string, this decoder and [`decoder::Decoder`] decode
/// alike: the same codepoints in the same order, and both end pending or
/// both not.
pub proof fn lemma_decode_agrees(bytes: Seq<u8>)
    ensures
        ({
            let (ev, s, cp) = decode_run(ACCEPT, 0, bytes);
            let (cps, ds, dcp) = decoder::decode_spec(6, 0, bytes);
            &&& as_codepoints(ev) == cps
            &&& agrees(s, cp, ds, dcp)
            &&& (s == ACCEPT <==> ds == 6)
        }),
    decreases bytes.len(),
{
    if bytes.len() == 0 {
        assert(as_codepoints(Seq::<Event>::empty()) =~= Seq::<Codepoint>::empty());
        assert(dec_ok(6, 0));
    } else {
        lemma_decode_agrees(bytes.drop_last());
        let (ev0, s0, cp0) = decode_run(ACCEPT, 0, bytes.drop_last());
        let (cps0, ds0, dcp0) = decoder::decode_spec(6, 0, bytes.drop_last());
        lemma_advance_agrees(s0, cp0, ds0, dcp0, bytes.last());
        let (more, s1, c1) = advance_spec(s0, cp0, bytes.last());
        assert(as_codepoints(ev0 + more) =~= as_codepoints(ev0) + as_codepoints(more));
    }
}

/// Well-formed UTF-8 decodes to exactly its scalar values, with nothing
/// left pending.
pub proof fn lemma_decode_valid_utf8_scalars(bytes: Seq<u8>)
    requires
        valid_utf8(bytes),
    ensures
        as_codepoints(decode_run(ACCEPT, 0, bytes).0) == as_scalars(decode_utf8(bytes)),
        decode_run(ACCEPT, 0, bytes).1 == ACCEPT,
{
    lemma_decode_agrees(bytes);
    lemma_decode_valid_utf8(bytes);
}

/// Feeding any byte string from the ground state and then flushing gives
/// exactly the maximal-subpart lossy decoding: the events of each byte, in
/// order, and one more `Invalid` when the flush finds a pending sequence.
pub proof fn lemma_decode_is_lossy(bytes: Seq<u8>)
    ensures
        ({
            let (ev, s, cp) = decode_run(ACCEPT, 0, bytes);
            as_codepoints(ev) + (if s == ACCEPT { Seq::<Codepoint>::empty() } else { seq![Codepoint::Invalid] })
                == lossy(bytes)
        }),
{
    lemma_decode_agrees(bytes);
    crate::utf8::lossy::lemma_decode_is_lossy(bytes);
}

} // verus!
