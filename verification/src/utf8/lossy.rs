//! The maximal-subpart replacement rule: what lossy decoding of any byte
//! string gives, stated over well-formed UTF-8 alone, and proved of the
//! decoders.
use vstd::prelude::*;
use vstd::utf8::*;
use crate::params::string_push;
use super::decoder::{Decoder, Codepoint, decode_spec, advance_spec, next_spec, lemma_decode_append, lemma_decode_first};
use super::dfa::{dfa_run, dfa_next, lemma_first_scalar, lemma_validate_outcomes, lemma_run_valid, lemma_run_reject, valid_state, s_accept, s_reject};

verus! {

/// `p` begins some well-formed UTF-8 string.
pub open spec fn completable(p: Seq<u8>) -> bool {
    exists|ext: Seq<u8>| valid_utf8(#[trigger] (p + ext))
}

/// The length of the ill-formed maximal subpart at the start of `b`, which
/// does not start with a whole scalar: the longest prefix that begins some
/// well-formed string, and at least one byte. (Such a prefix never has more
/// than three bytes, as four would hold a whole scalar.)
pub open spec fn subpart_len(b: Seq<u8>) -> int {
    if b.len() >= 3 && completable(b.take(3)) {
        3
    } else if b.len() >= 2 && completable(b.take(2)) {
        2
    } else {
        1
    }
}

/// Lossy decoding by the maximal-subpart rule: each whole scalar at the
/// front is kept, and each ill-formed maximal subpart becomes one
/// replacement.
pub open spec fn lossy(b: Seq<u8>) -> Seq<Codepoint>
    decreases b.len(),
{
    if b.len() == 0 {
        Seq::empty()
    } else if valid_first_scalar(b) {
        seq![Codepoint::Scalar(decode_first_scalar(b) as char)] + lossy(b.skip(length_of_first_scalar(b)))
    } else {
        seq![Codepoint::Invalid] + lossy(b.skip(subpart_len(b)))
    }
}

/// What a decoder gives for `b` from the start state, followed by its flush:
/// the codepoints, and one replacement if a sequence is left unfinished.
pub open spec fn decode_flushed(b: Seq<u8>) -> Seq<Codepoint> {
    let (out, s, cp) = decode_spec(6, 0, b);
    out + if s == 6 { Seq::<Codepoint>::empty() } else { seq![Codepoint::Invalid] }
}

proof fn lemma_first_scalar_prefix(b: Seq<u8>, j: int)
    requires
        0 < j <= b.len(),
        valid_first_scalar(b.take(j)),
    ensures
        valid_first_scalar(b),
{
    let p = b.take(j);
    assert(p[0] == b[0]);
    if j > 1 {
        assert(p[1] == b[1]);
    }
    if j > 2 {
        assert(p[2] == b[2]);
    }
    if j > 3 {
        assert(p[3] == b[3]);
    }
}

/// A prefix that keeps the DFA strictly inside a sequence decodes to nothing
/// and leaves the decoder in the DFA's state.
proof fn lemma_decode_pending(p: Seq<u8>)
    requires
        p.len() > 0,
        forall|j: int| 1 <= j <= p.len() ==> dfa_run(6, #[trigger] p.take(j)) != 0 && dfa_run(6, p.take(j)) != 6,
    ensures
        decode_spec(6, 0, p).0 == Seq::<Codepoint>::empty(),
        decode_spec(6, 0, p).1 == dfa_run(6, p),
    decreases p.len(),
{
    assert(p.take(p.len() as int) =~= p);
    let q = p.drop_last();
    if p.len() == 1 {
        assert(q =~= Seq::<u8>::empty());
        reveal_with_fuel(dfa_run, 2);
        reveal_with_fuel(decode_spec, 2);
        assert(dfa_run(6, p) == dfa_next(6, p.last()));
    } else {
        assert forall|j: int| 1 <= j <= q.len() implies dfa_run(6, #[trigger] q.take(j)) != 0 && dfa_run(6, q.take(j)) != 6 by {
            assert(q.take(j) =~= p.take(j));
        }
        lemma_decode_pending(q);
        assert(q.take(q.len() as int) =~= q);
        let (o1, s1, c1) = decode_spec(6, 0, q);
        assert(dfa_run(6, p) == dfa_next(dfa_run(6, q), p.last()));
        assert(o1 + Seq::<Codepoint>::empty() =~= o1);
    }
}

/// From a state inside a sequence, a byte that cannot continue it gives one
/// replacement and is then decoded afresh from the start state.
proof fn lemma_decode_after_subpart(s: u64, cp: u32, rest: Seq<u8>)
    requires
        s != 6,
        rest.len() > 0,
        dfa_next(s, rest[0]) == 0,
    ensures
        decode_spec(s, cp, rest) == ({
            let (o, s2, c2) = decode_spec(6, 0, rest);
            (seq![Codepoint::Invalid] + o, s2, c2)
        }),
{
    let x = rest[0];
    let tail = rest.skip(1);
    assert(seq![x] + tail =~= rest);
    lemma_decode_append(s, cp, seq![x], tail);
    lemma_decode_append(6, 0, seq![x], tail);
    assert(seq![x].drop_last() =~= Seq::<u8>::empty());
    reveal_with_fuel(decode_spec, 2);
    let (m1, s1, c1) = advance_spec(s, cp, x);
    let (m0, s0, c0) = advance_spec(6, 0, x);
    assert(decode_spec(s, cp, seq![x]) == (Seq::<Codepoint>::empty() + m1, s1, c1));
    assert(decode_spec(6, 0, seq![x]) == (Seq::<Codepoint>::empty() + m0, s0, c0));
    assert(Seq::<Codepoint>::empty() + m1 =~= m1);
    assert(Seq::<Codepoint>::empty() + m0 =~= m0);
    assert(m1 =~= seq![Codepoint::Invalid] + m0);
    assert(s1 == s0 && c1 == c0);
    let (o, s2, c2) = decode_spec(s1, c1, tail);
    assert(m1 + o =~= seq![Codepoint::Invalid] + (m0 + o));
}

/// The DFA's walk over the start of a byte string that does not start with a
/// whole scalar: it never reaches the boundary; it rejects a prefix exactly
/// when the prefix begins no well-formed string; a rejection is final; and
/// four bytes are never all inside a sequence.
proof fn lemma_subpart_facts(b: Seq<u8>)
    requires
        b.len() > 0,
        !valid_first_scalar(b),
    ensures
        forall|j: int| 1 <= j <= b.len() ==> dfa_run(6, #[trigger] b.take(j)) != 6,
        forall|j: int| 1 <= j <= b.len() ==> (dfa_run(6, #[trigger] b.take(j)) != 0) == completable(b.take(j)),
        forall|i: int, j: int| 1 <= i <= j <= b.len() && dfa_run(6, #[trigger] b.take(i)) == 0 ==> dfa_run(6, #[trigger] b.take(j)) == 0,
        b.len() >= 4 ==> dfa_run(6, b.take(4)) == 0,
{
    let n = b.len();
    // No prefix reaches the boundary state: the first scalar is not whole.
    assert forall|j: int| 1 <= j <= n implies dfa_run(6, #[trigger] b.take(j)) != 6 by {
        let p = b.take(j);
        lemma_first_scalar(p);
        if valid_first_scalar(p) {
            lemma_first_scalar_prefix(b, j);
        }
    }
    // A prefix begins a well-formed string exactly when the DFA has not
    // rejected it.
    assert forall|j: int| 1 <= j <= n implies (dfa_run(6, #[trigger] b.take(j)) != 0) == completable(b.take(j)) by {
        lemma_validate_outcomes(b.take(j));
    }
    // Once rejected, always rejected.
    assert forall|i: int, j: int| 1 <= i <= j <= n && dfa_run(6, #[trigger] b.take(i)) == 0 implies dfa_run(6, #[trigger] b.take(j)) == 0 by {
        assert(b.take(j) =~= b.take(i) + b.take(j).skip(i));
        super::dfa::lemma_run_append(6, b.take(i), b.take(j).skip(i));
        lemma_run_reject(b.take(j).skip(i));
    }
    // Four bytes always leave a sequence: the DFA has accepted or rejected.
    if n >= 4 {
        assert(1 <= 1 <= n && 1 <= 2 <= n && 1 <= 3 <= n);
        assert(dfa_run(6, b.take(1)) != 6);
        assert(dfa_run(6, b.take(2)) != 6);
        assert(dfa_run(6, b.take(3)) != 6);
        lemma_four_bytes(b);
        assert(dfa_run(6, b.take(4)) != 6);
    }
}

/// Decoding from the start state, then flushing, gives exactly the
/// maximal-subpart lossy decoding, for every byte string.
#[verifier::rlimit(50)]
pub proof fn lemma_decode_is_lossy(b: Seq<u8>)
    ensures
        decode_flushed(b) == lossy(b),
    decreases b.len(),
{
    let n = b.len();
    if n == 0 {
        assert(decode_flushed(b) =~= Seq::<Codepoint>::empty());
        return;
    }
    if valid_first_scalar(b) {
        let l = length_of_first_scalar(b);
        lemma_decode_first(b);
        assert(b.take(l) + b.skip(l) =~= b);
        lemma_decode_append(6, 0, b.take(l), b.skip(l));
        lemma_decode_is_lossy(b.skip(l));
        let c = decode_first_scalar(b) as char;
        let (o, s, cp) = decode_spec(6, 0, b.skip(l));
        let f = if s == 6 { Seq::<Codepoint>::empty() } else { seq![Codepoint::Invalid] };
        assert(seq![Codepoint::Scalar(c)] + o + f =~= seq![Codepoint::Scalar(c)] + (o + f));
        return;
    }
    lemma_subpart_facts(b);
    let k = subpart_len(b);
    assert(1 <= k <= 3 && k <= n);
    let r1 = dfa_run(6, b.take(1));
    if r1 == 0 {
        // The first byte is ill-formed on its own.
        assert(k == 1);
        assert(b.take(1) =~= seq![b[0]]);
        assert(b.take(1).drop_last() =~= Seq::<u8>::empty());
        reveal_with_fuel(dfa_run, 2);
        reveal_with_fuel(decode_spec, 2);
        assert(dfa_next(6, b[0]) == 0);
        assert(b.take(1) + b.skip(1) =~= b);
        lemma_decode_append(6, 0, b.take(1), b.skip(1));
        assert(decode_spec(6, 0, b.take(1)) == (Seq::<Codepoint>::empty() + seq![Codepoint::Invalid], 6u64, 0u32));
        assert(Seq::<Codepoint>::empty() + seq![Codepoint::Invalid] =~= seq![Codepoint::Invalid]);
        lemma_decode_is_lossy(b.skip(1));
        let (o, s, cp) = decode_spec(6, 0, b.skip(1));
        let f = if s == 6 { Seq::<Codepoint>::empty() } else { seq![Codepoint::Invalid] };
        assert(seq![Codepoint::Invalid] + o + f =~= seq![Codepoint::Invalid] + (o + f));
        return;
    }
    // The first k bytes keep the DFA inside a sequence.
    assert(dfa_run(6, b.take(k)) != 0);
    assert forall|j: int| 1 <= j <= k implies dfa_run(6, #[trigger] b.take(k).take(j)) != 0 && dfa_run(6, b.take(k).take(j)) != 6 by {
        assert(b.take(k).take(j) =~= b.take(j));
    }
    lemma_decode_pending(b.take(k));
    let sk = dfa_run(6, b.take(k));
    let (ok, sk2, ck) = decode_spec(6, 0, b.take(k));
    assert(b.take(k) + b.skip(k) =~= b);
    lemma_decode_append(6, 0, b.take(k), b.skip(k));
    if k == n {
        assert(b.take(k) =~= b);
        assert(b.skip(k) =~= Seq::<u8>::empty());
        assert(lossy(b.skip(k)) =~= Seq::<Codepoint>::empty());
        assert(seq![Codepoint::Invalid] + Seq::<Codepoint>::empty() =~= seq![Codepoint::Invalid]);
        assert(Seq::<Codepoint>::empty() + seq![Codepoint::Invalid] =~= seq![Codepoint::Invalid]);
    } else {
        // The next byte cannot continue the sequence.
        assert(dfa_run(6, b.take(k + 1)) == 0);
        assert(b.take(k + 1).drop_last() =~= b.take(k));
        assert(b.skip(k)[0] == b[k]);
        assert(dfa_next(sk, b[k]) == 0);
        lemma_decode_after_subpart(sk, ck, b.skip(k));
        lemma_decode_is_lossy(b.skip(k));
        let (o, s, cp) = decode_spec(6, 0, b.skip(k));
        let f = if s == 6 { Seq::<Codepoint>::empty() } else { seq![Codepoint::Invalid] };
        assert(Seq::<Codepoint>::empty() + (seq![Codepoint::Invalid] + o) + f =~= seq![Codepoint::Invalid] + (o + f));
    }
}

/// Four bytes from the start state that never return to the boundary
/// leave the DFA in the error trap or on the boundary.
proof fn lemma_four_bytes(b: Seq<u8>)
    requires
        b.len() >= 4,
        dfa_run(6, b.take(1)) != 6,
        dfa_run(6, b.take(2)) != 6,
        dfa_run(6, b.take(3)) != 6,
    ensures
        dfa_run(6, b.take(4)) == 0 || dfa_run(6, b.take(4)) == 6,
{
    reveal_with_fuel(dfa_run, 2);
    assert(b.take(4).drop_last() =~= b.take(3));
    assert(b.take(3).drop_last() =~= b.take(2));
    assert(b.take(2).drop_last() =~= b.take(1));
    assert(b.take(1).drop_last() =~= Seq::<u8>::empty());
    let r1 = dfa_run(6, b.take(1));
    let r2 = dfa_run(6, b.take(2));
    let r3 = dfa_run(6, b.take(3));
    let r4 = dfa_run(6, b.take(4));
    assert(r1 == dfa_next(6, b[0]));
    assert(r2 == dfa_next(r1, b[1]));
    assert(r3 == dfa_next(r2, b[2]));
    assert(r4 == dfa_next(r3, b[3]));
}

/// The character a lossy-decoded position is shown as: the scalar, or
/// U+FFFD for an ill-formed subpart.
pub open spec fn shown_char(c: Codepoint) -> char {
    match c {
        Codepoint::Scalar(x) => x,
        Codepoint::Invalid => '\u{FFFD}',
    }
}

/// The text of a byte string decoded lossily.
pub open spec fn lossy_chars(b: Seq<u8>) -> Seq<char> {
    lossy(b).map_values(|c: Codepoint| shown_char(c))
}

/// The text of `bytes` decoded lossily: each whole scalar kept, each
/// ill-formed maximal subpart shown as U+FFFD.
pub fn lossy_string(bytes: &[u8]) -> (s: String)
    ensures
        s@ == lossy_chars(bytes@),
{
    let mut d = Decoder::new();
    let mut cps = d.decode(bytes);
    let tail = d.flush();
    match tail {
        Some(_) => cps.push(Codepoint::Invalid),
        None => {},
    }
    proof {
        lemma_decode_is_lossy(bytes@);
        assert(cps@ =~= decode_flushed(bytes@));
    }
    let mut s = String::new();
    let mut k: usize = 0;
    while k < cps.len()
        invariant
            k <= cps@.len(),
            cps@ == lossy(bytes@),
            s@ == cps@.take(k as int).map_values(|c: Codepoint| shown_char(c)),
        decreases cps@.len() - k,
    {
        let c = match cps[k] {
            Codepoint::Scalar(x) => x,
            Codepoint::Invalid => '\u{FFFD}',
        };
        string_push(&mut s, c);
        k = k + 1;
        proof {
            assert(cps@.take(k as int).map_values(|c: Codepoint| shown_char(c)) =~= cps@.take(k - 1).map_values(
                |c: Codepoint| shown_char(c),
            ).push(c));
        }
    }
    assert(cps@.take(k as int) =~= cps@);
    s
}

} // verus!
