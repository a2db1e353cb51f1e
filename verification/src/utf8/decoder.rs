use vstd::prelude::*;
use vstd::utf8::*;
use super::dfa::{State, step_decode, dfa_next, payload_mask, valid_state, lemma_width_bits};

verus! {

/// One position in a lossy-decoded stream: a well-formed Unicode scalar, or an
/// ill-formed spot that a caller renders as `U+FFFD`.
#[derive(Clone, Copy, PartialEq, Eq, Structural, Debug)]
pub enum Codepoint {
    /// A complete, well-formed Unicode scalar value.
    Scalar(char),
    /// An ill-formed maximal subpart; render as `U+FFFD`.
    Invalid,
}

/// The outcome of feeding one byte to a [`Decoder`].
#[derive(Clone, Copy, PartialEq, Eq, Structural, Debug)]
pub enum Event {
    /// A complete, well-formed Unicode scalar value.
    Complete(char),
    /// The byte is invalid on its own (one maximal subpart).
    Invalid,
    /// The bytes before this one form an ill-formed maximal subpart; the byte
    /// itself was not consumed and must be fed again.
    Reprocess,
    /// The byte was absorbed into an unfinished sequence.
    Incomplete,
}

/// The partial code point the decoder holds in each in-sequence state: the
/// payload bits gathered so far, in the ranges that the remaining
/// continuation bytes can still complete into a scalar.
pub open spec fn cp_ok(s: u64, cp: u32) -> bool {
    &&& (s == 6 ==> cp == 0)
    &&& (s == 12 ==> ((2 <= cp && cp <= 0x35F) || (0x380 <= cp && cp <= 0x43FF)))
    &&& (s == 18 ==> ((1 <= cp && cp <= 0xC) || (0xE <= cp && cp <= 0x10F)))
    &&& (s == 24 ==> (1 <= cp && cp <= 3))
    &&& (s == 30 ==> cp == 0)
    &&& (s == 36 ==> cp == 0xD)
    &&& (s == 42 ==> cp == 0)
    &&& (s == 48 ==> cp == 4)
}

/// A decoder state: a DFA state other than the error trap, with a consistent
/// partial code point.
pub open spec fn dec_ok(s: u64, cp: u32) -> bool {
    valid_state(s) && s != 0 && cp_ok(s, cp)
}

/// The partial code point after folding in a byte.
pub open spec fn fold_cp(cp: u32, b: u8) -> u32 {
    (cp << 6u32) | (b as u32 & payload_mask(b))
}

pub proof fn lemma_fold_cp(s: u64, cp: u32, b: u8)
    requires
        dec_ok(s, cp),
    ensures
        dfa_next(s, b) != 0 && dfa_next(s, b) != 6 ==> cp_ok(dfa_next(s, b), fold_cp(cp, b)),
        dfa_next(s, b) == 6 ==> is_scalar(fold_cp(cp, b)),
{
    assert(dec_ok(s, cp) ==> {
        &&& (dfa_next(s, b) != 0 && dfa_next(s, b) != 6 ==> cp_ok(dfa_next(s, b), fold_cp(cp, b)))
        &&& (dfa_next(s, b) == 6 ==> is_scalar(fold_cp(cp, b)))
    }) by (bit_vector);
}

/// The decoder's response to one byte, from state `(s, cp)`: the event and
/// the state after it.
pub open spec fn next_spec(s: u64, cp: u32, b: u8) -> (Event, u64, u32) {
    let n = dfa_next(s, b);
    let c = fold_cp(cp, b);
    if n == 6 {
        (Event::Complete(c as char), 6, 0)
    } else if n == 0 {
        (if s != 6 { Event::Reprocess } else { Event::Invalid }, 6, 0)
    } else {
        (Event::Incomplete, n, c)
    }
}

/// The codepoints one byte produces from state `(s, cp)`, and the state after:
/// an ill-formed subpart ended by the byte gives `Invalid` and the byte is fed
/// again from the boundary.
pub open spec fn advance_spec(s: u64, cp: u32, b: u8) -> (Seq<Codepoint>, u64, u32) {
    let (e, s1, c1) = next_spec(s, cp, b);
    match e {
        Event::Complete(c) => (seq![Codepoint::Scalar(c)], s1, c1),
        Event::Invalid => (seq![Codepoint::Invalid], s1, c1),
        Event::Incomplete => (Seq::empty(), s1, c1),
        Event::Reprocess => {
            let (e2, s2, c2) = next_spec(s1, c1, b);
            match e2 {
                Event::Complete(c) => (seq![Codepoint::Invalid, Codepoint::Scalar(c)], s2, c2),
                Event::Invalid => (seq![Codepoint::Invalid, Codepoint::Invalid], s2, c2),
                _ => (seq![Codepoint::Invalid], s2, c2),
            }
        },
    }
}

/// The codepoints a run of bytes produces from state `(s, cp)`, and the state
/// after it.
pub open spec fn decode_spec(s: u64, cp: u32, bytes: Seq<u8>) -> (Seq<Codepoint>, u64, u32)
    decreases bytes.len(),
{
    if bytes.len() == 0 {
        (Seq::empty(), s, cp)
    } else {
        let (out, s1, c1) = decode_spec(s, cp, bytes.drop_last());
        let (more, s2, c2) = advance_spec(s1, c1, bytes.last());
        (out + more, s2, c2)
    }
}

/// `char::from_u32`: the char with the given scalar value, or `None` when the
/// value is not a Unicode scalar value (a surrogate or above U+10FFFF).
#[verifier::external_body]
pub(crate) fn char_from_u32(v: u32) -> (r: Option<char>)
    ensures
        is_scalar(v) ==> r == Some(v as char),
        !is_scalar(v) ==> r is None,
{
    char::from_u32(v)
}

/// The 0, 1 or 2 codepoints produced by feeding one byte to
/// [`Decoder::advance`]: an optional leading `Invalid` for an ill-formed
/// subpart the byte ended, then the outcome of the byte itself.
#[derive(Clone, Copy, PartialEq, Eq, Structural, Debug)]
pub struct Chunk {
    /// A replacement for a preceding ill-formed maximal subpart.
    pub leading_invalid: bool,
    /// The outcome of the byte just fed, or `None` if it was absorbed into
    /// an unfinished sequence.
    pub outcome: Option<Codepoint>,
}

/// The codepoints of a chunk, in order.
pub open spec fn chunk_seq(c: Chunk) -> Seq<Codepoint> {
    let head: Seq<Codepoint> = if c.leading_invalid { seq![Codepoint::Invalid] } else { Seq::empty() };
    match c.outcome {
        Some(o) => head.push(o),
        None => head,
    }
}

impl Chunk {
    /// A chunk that yields nothing.
    pub fn empty() -> (c: Chunk)
        ensures
            chunk_seq(c) == Seq::<Codepoint>::empty(),
            !c.leading_invalid && c.outcome is None,
    {
        Chunk { leading_invalid: false, outcome: None }
    }

    /// A chunk yielding exactly `c`.
    fn single(c: Codepoint) -> (r: Chunk)
        ensures
            chunk_seq(r) == seq![c],
    {
        let r = Chunk { leading_invalid: false, outcome: Some(c) };
        assert(chunk_seq(r) =~= seq![c]);
        r
    }

    /// A chunk yielding an `Invalid` and then `outcome`.
    fn invalid_then(outcome: Option<Codepoint>) -> (r: Chunk)
        ensures
            r.leading_invalid,
            r.outcome == outcome,
    {
        Chunk { leading_invalid: true, outcome }
    }

    /// The number of codepoints in the chunk.
    pub fn len(&self) -> (n: usize)
        ensures
            n == chunk_seq(*self).len(),
    {
        let a: usize = if self.leading_invalid { 1 } else { 0 };
        let b: usize = if self.outcome.is_some() { 1 } else { 0 };
        a + b
    }

    /// Whether the chunk yields nothing.
    pub fn is_empty(&self) -> (r: bool)
        ensures
            r == (chunk_seq(*self).len() == 0),
    {
        !self.leading_invalid && self.outcome.is_none()
    }

    /// The codepoints of the chunk, in order.
    pub fn to_vec(&self) -> (v: Vec<Codepoint>)
        ensures
            v@ == chunk_seq(*self),
    {
        let mut v: Vec<Codepoint> = Vec::new();
        if self.leading_invalid {
            v.push(Codepoint::Invalid);
        }
        match self.outcome {
            Some(o) => v.push(o),
            None => {},
        }
        proof {
            assert(v@ =~= chunk_seq(*self));
        }
        v
    }
}

/// Incremental UTF-8 decoder with the Unicode "maximal subpart" error policy:
/// decoding a byte stream gives the same scalars and replacements as
/// `String::from_utf8_lossy`, one byte at a time.
#[derive(Clone, Copy, Debug)]
pub struct Decoder {
    state: State,
    codepoint: u32,
}

impl Decoder {
    #[verifier::type_invariant]
    closed spec fn inv(self) -> bool {
        dec_ok(self.state.spec_value(), self.codepoint)
    }

    /// The DFA state.
    pub closed spec fn spec_state(self) -> u64 {
        self.state.spec_value()
    }

    /// The partial code point.
    pub closed spec fn spec_codepoint(self) -> u32 {
        self.codepoint
    }

    /// A decoder in the ground state.
    pub fn new() -> (d: Decoder)
        ensures
            d.spec_state() == 6,
            d.spec_codepoint() == 0,
    {
        Decoder { state: State::accept(), codepoint: 0 }
    }

    /// Whether the decoder is in the ground state.
    pub fn is_empty(&self) -> (r: bool)
        ensures
            r == (self.spec_state() == 6 && self.spec_codepoint() == 0),
    {
        self.state.is_accept() && self.codepoint == 0
    }

    /// Whether bytes of an unfinished sequence have been absorbed.
    pub fn is_incomplete(&self) -> (r: bool)
        ensures
            r == (self.spec_state() != 6),
    {
        !self.state.is_accept()
    }

    /// Feeds one byte. On [`Event::Reprocess`] the caller must feed the byte again.
    pub fn next(&mut self, byte: u8) -> (e: Event)
        ensures
            (e, final(self).spec_state(), final(self).spec_codepoint()) == next_spec(
                old(self).spec_state(),
                old(self).spec_codepoint(),
                byte,
            ),
    {
        proof {
            use_type_invariant(&*self);
            lemma_fold_cp(self.state.spec_value(), self.codepoint, byte);
        }
        let was_incomplete = self.is_incomplete();
        let mut cp = self.codepoint;
        let st = step_decode(self.state, byte, &mut cp);
        if st.is_accept() {
            let c = match char_from_u32(cp) {
                Some(c) => c,
                None => '\u{FFFD}',
            };
            self.clear();
            Event::Complete(c)
        } else if st.is_reject() {
            self.clear();
            if was_incomplete { Event::Reprocess } else { Event::Invalid }
        } else {
            *self = Decoder { state: st, codepoint: cp };
            Event::Incomplete
        }
    }

    /// Feeds one byte, yielding its codepoints. An ill-formed subpart that the
    /// byte ends is reported first, and the byte is then fed again.
    pub fn advance(&mut self, byte: u8) -> (c: Chunk)
        ensures
            (chunk_seq(c), final(self).spec_state(), final(self).spec_codepoint()) == advance_spec(
                old(self).spec_state(),
                old(self).spec_codepoint(),
                byte,
            ),
    {
        match self.next(byte) {
            Event::Complete(c) => Chunk::single(Codepoint::Scalar(c)),
            Event::Invalid => Chunk::single(Codepoint::Invalid),
            Event::Incomplete => Chunk::empty(),
            Event::Reprocess => {
                let outcome = match self.next(byte) {
                    Event::Complete(c) => Some(Codepoint::Scalar(c)),
                    Event::Invalid => Some(Codepoint::Invalid),
                    Event::Incomplete | Event::Reprocess => None,
                };
                let r = Chunk::invalid_then(outcome);
                proof {
                    assert(chunk_seq(r) =~= advance_spec(old(self).spec_state(), old(self).spec_codepoint(), byte).0);
                }
                r
            },
        }
    }

    /// Feeds every byte of `bytes`, collecting the codepoints they produce. A
    /// sequence left unfinished at the end stays pending.
    pub fn decode(&mut self, bytes: &[u8]) -> (v: Vec<Codepoint>)
        ensures
            (v@, final(self).spec_state(), final(self).spec_codepoint()) == decode_spec(
                old(self).spec_state(),
                old(self).spec_codepoint(),
                bytes@,
            ),
    {
        let mut out: Vec<Codepoint> = Vec::new();
        let mut i: usize = 0;
        while i < bytes.len()
            invariant
                0 <= i <= bytes@.len(),
                (out@, self.spec_state(), self.spec_codepoint()) == decode_spec(
                    old(self).spec_state(),
                    old(self).spec_codepoint(),
                    bytes@.take(i as int),
                ),
            decreases bytes.len() - i,
        {
            let ghost before = out@;
            let chunk = self.advance(bytes[i]);
            let more = chunk.to_vec();
            let mut k: usize = 0;
            while k < more.len()
                invariant
                    0 <= k <= more@.len(),
                    out@ == before + more@.take(k as int),
                decreases more.len() - k,
            {
                out.push(more[k]);
                k += 1;
                assert(more@.take(k as int) =~= more@.take(k - 1).push(more@[k - 1]));
            }
            proof {
                assert(more@.take(k as int) =~= more@);
                assert(bytes@.take(i + 1).drop_last() =~= bytes@.take(i as int));
                assert(bytes@.take(i + 1).last() == bytes@[i as int]);
            }
            i += 1;
        }
        assert(bytes@.take(i as int) =~= bytes@);
        out
    }

    /// Ends the input: a pending sequence is reported as `Incomplete` and
    /// dropped; the decoder is back in the ground state either way.
    pub fn flush(&mut self) -> (r: Option<Event>)
        ensures
            r == (if old(self).spec_state() != 6 { Some(Event::Incomplete) } else { None::<Event> }),
            final(self).spec_state() == 6,
            final(self).spec_codepoint() == 0,
    {
        let pending = self.is_incomplete();
        self.clear();
        if pending { Some(Event::Incomplete) } else { None }
    }

    /// Drops any pending sequence and returns to the ground state.
    pub fn clear(&mut self)
        ensures
            final(self).spec_state() == 6,
            final(self).spec_codepoint() == 0,
    {
        *self = Decoder::new();
    }

    /// A decoder in the ground state.
    pub fn default() -> (d: Decoder)
        ensures
            d.spec_state() == 6,
            d.spec_codepoint() == 0,
    {
        Decoder::new()
    }
}

/// From the ground state no byte asks to be fed again: a byte that cannot
/// start a sequence is itself the ill-formed subpart.
pub proof fn lemma_ground_never_reprocess(b: u8)
    ensures
        next_spec(6, 0, b).0 != Event::Reprocess,
        advance_spec(6, 0, b).0.len() <= 1,
{
}

/// One byte yields at most two codepoints, and two only as a replacement for
/// the subpart it ended followed by the outcome of the byte itself.
pub proof fn lemma_chunk_shape(s: u64, cp: u32, b: u8)
    requires
        dec_ok(s, cp),
    ensures
        advance_spec(s, cp, b).0.len() <= 2,
        advance_spec(s, cp, b).0.len() == 2 ==> advance_spec(s, cp, b).0[0] == Codepoint::Invalid,
        dec_ok(advance_spec(s, cp, b).1, advance_spec(s, cp, b).2),
{
    lemma_fold_cp(s, cp, b);
    lemma_fold_cp(6, 0, b);
}

/// Decoding two byte strings in turn decodes their concatenation.
pub proof fn lemma_decode_append(s: u64, cp: u32, a: Seq<u8>, b: Seq<u8>)
    ensures
        decode_spec(s, cp, a + b) == ({
            let (o1, s1, c1) = decode_spec(s, cp, a);
            let (o2, s2, c2) = decode_spec(s1, c1, b);
            (o1 + o2, s2, c2)
        }),
    decreases b.len(),
{
    if b.len() == 0 {
        assert(a + b =~= a);
        let (o1, s1, c1) = decode_spec(s, cp, a);
        assert(o1 + Seq::<Codepoint>::empty() =~= o1);
    } else {
        lemma_decode_append(s, cp, a, b.drop_last());
        assert((a + b).drop_last() =~= a + b.drop_last());
        assert((a + b).last() == b.last());
        let (o1, s1, c1) = decode_spec(s, cp, a);
        let (o2, s2, c2) = decode_spec(s1, c1, b.drop_last());
        let (m, s3, c3) = advance_spec(s2, c2, b.last());
        assert(o1 + o2 + m =~= o1 + (o2 + m));
    }
}

proof fn lemma_decode_take_step(s: u64, cp: u32, b: Seq<u8>, j: int)
    requires
        0 <= j < b.len(),
    ensures
        decode_spec(s, cp, b.take(j + 1)) == ({
            let (o, s1, c1) = decode_spec(s, cp, b.take(j));
            let (m, s2, c2) = advance_spec(s1, c1, b[j]);
            (o + m, s2, c2)
        }),
{
    assert(b.take(j + 1).drop_last() =~= b.take(j));
    assert(b.take(j + 1).last() == b[j]);
}

proof fn lemma_fold_widths(x0: u8, x1: u8, x2: u8, x3: u8)
    ensures
        (0u32 << 6u32) | (x0 as u32 & 0x7F) == ((x0 & 0x7F) as u32),
        (((0u32 << 6u32) | (x0 as u32 & 0x1F)) << 6u32) | (x1 as u32 & 0x3F) == (((x0 & 0x1F) as u32) << 6u32) | ((x1 & 0x3F) as u32),
        (((((0u32 << 6u32) | (x0 as u32 & 0x0F)) << 6u32) | (x1 as u32 & 0x3F)) << 6u32) | (x2 as u32 & 0x3F)
            == (((x0 & 0x0F) as u32) << 12u32) | (((x1 & 0x3F) as u32) << 6u32) | ((x2 & 0x3F) as u32),
        (((((((0u32 << 6u32) | (x0 as u32 & 0x07)) << 6u32) | (x1 as u32 & 0x3F)) << 6u32) | (x2 as u32 & 0x3F)) << 6u32) | (x3 as u32 & 0x3F)
            == (((x0 & 0x07) as u32) << 18u32) | (((x1 & 0x3F) as u32) << 12u32) | (((x2 & 0x3F) as u32) << 6u32) | ((x3 & 0x3F) as u32),
{
    assert((0u32 << 6u32) | (x0 as u32 & 0x7F) == ((x0 & 0x7F) as u32)) by (bit_vector);
    assert((((0u32 << 6u32) | (x0 as u32 & 0x1F)) << 6u32) | (x1 as u32 & 0x3F) == (((x0 & 0x1F) as u32) << 6u32) | ((x1 & 0x3F) as u32)) by (bit_vector);
    assert((((((0u32 << 6u32) | (x0 as u32 & 0x0F)) << 6u32) | (x1 as u32 & 0x3F)) << 6u32) | (x2 as u32 & 0x3F)
            == (((x0 & 0x0F) as u32) << 12u32) | (((x1 & 0x3F) as u32) << 6u32) | ((x2 & 0x3F) as u32)) by (bit_vector);
    assert((((((((0u32 << 6u32) | (x0 as u32 & 0x07)) << 6u32) | (x1 as u32 & 0x3F)) << 6u32) | (x2 as u32 & 0x3F)) << 6u32) | (x3 as u32 & 0x3F)
            == (((x0 & 0x07) as u32) << 18u32) | (((x1 & 0x3F) as u32) << 12u32) | (((x2 & 0x3F) as u32) << 6u32) | ((x3 & 0x3F) as u32)) by (bit_vector);
}

/// From the ground state, the bytes of one well-formed scalar decode to
/// exactly that scalar and return to the ground state.
pub proof fn lemma_decode_first(b: Seq<u8>)
    requires
        b.len() > 0,
        valid_first_scalar(b),
    ensures
        decode_spec(6, 0, b.take(length_of_first_scalar(b))) == (
            seq![Codepoint::Scalar(decode_first_scalar(b) as char)],
            6u64,
            0u32,
        ),
{
    let n = b.len();
    let l = length_of_first_scalar(b);
    let x0 = b[0];
    let x1 = if n > 1 { b[1] } else { 0u8 };
    let x2 = if n > 2 { b[2] } else { 0u8 };
    let x3 = if n > 3 { b[3] } else { 0u8 };
    lemma_width_bits(x0, x1, x2, x3);
    lemma_fold_widths(x0, x1, x2, x3);
    assert(b.take(0) =~= Seq::<u8>::empty());
    let e: Seq<Codepoint> = Seq::empty();
    lemma_decode_take_step(6, 0, b, 0);
    if l > 1 {
        lemma_decode_take_step(6, 0, b, 1);
    }
    if l > 2 {
        lemma_decode_take_step(6, 0, b, 2);
    }
    if l > 3 {
        lemma_decode_take_step(6, 0, b, 3);
    }
    let c = decode_first_scalar(b);
    assert(e + seq![Codepoint::Scalar(c as char)] =~= seq![Codepoint::Scalar(c as char)]);
    assert(e + e =~= e);
    assert(e + e + seq![Codepoint::Scalar(c as char)] =~= seq![Codepoint::Scalar(c as char)]);
    assert(e + e + e + seq![Codepoint::Scalar(c as char)] =~= seq![Codepoint::Scalar(c as char)]);
}

/// The codepoint of a well-formed scalar.
pub open spec fn scalar_of(c: char) -> Codepoint {
    Codepoint::Scalar(c)
}

/// The codepoints of a sequence of well-formed scalars.
pub open spec fn as_scalars(s: Seq<char>) -> Seq<Codepoint> {
    Seq::new(s.len(), |i: int| scalar_of(s[i]))
}

proof fn lemma_as_scalars_cons(c: char, rest: Seq<char>)
    ensures
        as_scalars(seq![c] + rest) == seq![Codepoint::Scalar(c)] + as_scalars(rest),
{
    let l = as_scalars(seq![c] + rest);
    let r = seq![Codepoint::Scalar(c)] + as_scalars(rest);
    let cs = seq![c] + rest;
    assert(cs.len() == rest.len() + 1);
    assert(l.len() == cs.len());
    assert(r.len() == rest.len() + 1);
    assert forall|i: int| 0 <= i < l.len() implies l[i] == r[i] by {
        assert(l[i] == scalar_of(cs[i]));
        if i > 0 {
            assert(cs[i] == rest[i - 1]);
            assert(r[i] == as_scalars(rest)[i - 1]);
        } else {
            assert(cs[0] == c);
        }
    }
    assert(l =~= r);
}

/// Well-formed UTF-8 decodes, from the ground state, to exactly its scalars,
/// with no replacements, and leaves the decoder in the ground state.
pub proof fn lemma_decode_valid_utf8(b: Seq<u8>)
    requires
        valid_utf8(b),
    ensures
        decode_spec(6, 0, b) == (as_scalars(decode_utf8(b)), 6u64, 0u32),
    decreases b.len(),
{
    if b.len() == 0 {
        assert(decode_utf8(b) =~= Seq::<char>::empty());
        assert(as_scalars(decode_utf8(b)).len() == decode_utf8(b).len());
        assert(as_scalars(decode_utf8(b)) =~= Seq::<Codepoint>::empty());
    } else {
        let l = length_of_first_scalar(b);
        lemma_decode_first(b);
        assert(b.take(l) + b.skip(l) =~= b);
        lemma_decode_append(6, 0, b.take(l), b.skip(l));
        assert(pop_first_scalar(b) =~= b.skip(l));
        lemma_decode_valid_utf8(b.skip(l));
        let rest = decode_utf8(b.skip(l));
        let c = decode_first_scalar(b) as char;
        assert(decode_utf8(b) == seq![c] + rest);
        lemma_as_scalars_cons(c, rest);
    }
}

} // verus!
