//! What stripping removes: laws over `strip_spec`.
use vstd::prelude::*;
use crate::parser2::transitions::Action;
use super::stripper::{
    State, first_byte, first_print, first_terminator, is_terminator, sequence_from, skip_spec,
    strip_from, strip_spec, strip_step,
};

verus! {

proof fn lemma_first_byte_skip(s: Seq<u8>, x: u8, k: int, m: int)
    requires
        0 <= k <= m <= s.len(),
        forall|i: int| k <= i < m ==> #[trigger] s[i] != x,
    ensures
        first_byte(s, x, k) == first_byte(s, x, m),
    decreases m - k,
{
    if k < m {
        lemma_first_byte_skip(s, x, k + 1, m);
    }
}

proof fn lemma_first_terminator_skip(s: Seq<u8>, osc: bool, k: int, m: int)
    requires
        0 <= k <= m <= s.len(),
        forall|i: int| k <= i < m ==> !is_terminator(osc, #[trigger] s[i]),
    ensures
        first_terminator(s, osc, k) == first_terminator(s, osc, m),
    decreases m - k,
{
    if k < m {
        lemma_first_terminator_skip(s, osc, k + 1, m);
    }
}

proof fn lemma_first_print_body_skip(st: State, s: Seq<u8>, k: int, m: int)
    requires
        st == State::DcsData || st == State::OscData || st == State::SosPmApcData,
        0 <= k <= m <= s.len(),
        forall|i: int| k <= i < m ==> 0x20 <= #[trigger] s[i] <= 0x7e,
    ensures
        first_print(st, s, k) == first_print(st, s, m),
    decreases m - k,
{
    if k < m {
        assert(strip_step(st, s[k]) == (Action::Ignore, st));
        lemma_first_print_body_skip(st, s, k + 1, m);
    }
}

/// Printable ASCII text: bytes 0x20 to 0x7E.
pub open spec fn is_plain_text(t: Seq<u8>) -> bool {
    forall|i: int| 0 <= i < t.len() ==> 0x20 <= #[trigger] t[i] <= 0x7e
}

/// A device control string (`ESC P`, a final byte, a printable body, and
/// the terminator `ESC \`) between two printable texts is removed whole:
/// stripping keeps exactly the two texts.
pub proof fn lemma_strip_removes_dcs_string(a: Seq<u8>, f: u8, body: Seq<u8>, c: Seq<u8>)
    requires
        is_plain_text(a),
        is_plain_text(body),
        is_plain_text(c),
        0x40 <= f <= 0x7e,
    ensures
        strip_spec(a + seq![0x1bu8, 0x50u8, f] + body + seq![0x1bu8, 0x5cu8] + c) == a + c,
{
    let input = a + seq![0x1bu8, 0x50u8, f] + body + seq![0x1bu8, 0x5cu8] + c;
    let n = a.len() as int;
    let l = body.len() as int;
    let e2 = n + 3 + l;
    let cs = n + 5 + l;
    assert(input.len() == cs + c.len());
    assert forall|i: int| 0 <= i < n implies input[i] == a[i] && input[i] != 0x1b by {
        assert(input[i] == a[i]);
    }
    assert(input[n] == 0x1b && input[n + 1] == 0x50 && input[n + 2] == f);
    assert forall|i: int| n + 3 <= i < e2 implies input[i] == body[i - n - 3] && 0x20 <= input[i] <= 0x7e by {
        assert(input[i] == body[i - n - 3]);
    }
    assert(input[e2] == 0x1b && input[e2 + 1] == 0x5c);
    assert forall|i: int| cs <= i < input.len() implies input[i] == c[i - cs] && 0x20 <= input[i] <= 0x7e by {
        assert(input[i] == c[i - cs]);
    }
    // The first ESC is the one after `a`.
    lemma_first_byte_skip(input, 0x1b, 0, n);
    assert(first_byte(input, 0x1b, 0) == n);
    assert(input.take(n) =~= a);
    // A byte-by-byte run from there prints the first byte of `c`, if any.
    assert(strip_step(State::Ground, 0x1b) == (Action::Ignore, State::Escape));
    assert(strip_step(State::Escape, 0x50) == (Action::Ignore, State::DcsEntry));
    assert(strip_step(State::DcsEntry, f) == (Action::Ignore, State::DcsData));
    assert(strip_step(State::DcsData, 0x1b) == (Action::Ignore, State::Escape));
    assert(strip_step(State::Escape, 0x5c) == (Action::Ignore, State::Ground));
    lemma_first_print_body_skip(State::DcsData, input, n + 3, e2);
    assert(first_print(State::Escape, input, e2 + 1) == first_print(State::Ground, input, cs));
    assert(first_print(State::DcsData, input, e2) == first_print(State::Ground, input, cs));
    assert(first_print(State::DcsEntry, input, n + 2) == first_print(State::Ground, input, cs));
    assert(first_print(State::Escape, input, n + 1) == first_print(State::Ground, input, cs));
    assert(first_print(State::Ground, input, n) == first_print(State::Ground, input, cs));
    if c.len() == 0 {
        assert(first_print(State::Ground, input, cs) is None);
        assert(first_print(State::Ground, input, n) is None);
        assert(a + c =~= a);
    } else {
        assert(strip_step(State::Ground, input[cs]).0 == Action::Print);
        assert(first_print(State::Ground, input, cs) == Some((cs, strip_step(State::Ground, input[cs]).1)));
        assert(strip_step(State::Ground, input[cs]).1 == State::Utf8);
        assert(first_print(State::Ground, input, n) == Some((cs, State::Utf8)));
        // The escape sequence read from the ESC prints nothing and ends
        // after the terminator.
        let rest = input.subrange(n + 3, input.len() as int);
        assert forall|i: int| 0 <= i < l implies !is_terminator(false, #[trigger] rest[i]) by {
            assert(rest[i] == input[n + 3 + i]);
        }
        lemma_first_terminator_skip(rest, false, 0, l);
        assert(rest[l] == 0x1b);
        assert(skip_spec(State::DcsData, rest) == l);
        assert(sequence_from(State::Escape, input, e2 + 1) == (Seq::<u8>::empty(), cs));
        assert(sequence_from(State::DcsData, input, e2) == (Seq::<u8>::empty() + Seq::<u8>::empty(), cs));
        assert(sequence_from(State::DcsEntry, input, n + 2) == (Seq::<u8>::empty() + (Seq::<u8>::empty() + Seq::<u8>::empty()), cs));
        assert(Seq::<u8>::empty() + (Seq::<u8>::empty() + Seq::<u8>::empty()) =~= Seq::<u8>::empty());
        assert(sequence_from(State::Escape, input, n + 1).1 == cs);
        assert(sequence_from(State::Escape, input, n + 1).0 =~= Seq::<u8>::empty());
        assert(sequence_from(State::Ground, input, n).1 == cs);
        assert(sequence_from(State::Ground, input, n).0 =~= Seq::<u8>::empty());
        // After it, `c` holds no ESC and is kept whole.
        lemma_first_byte_skip(input, 0x1b, cs, input.len() as int);
        assert(strip_from(input, cs) =~= c);
        lemma_first_byte_skip(input, 0x1b, n, n);
        assert(strip_from(input, n) =~= c);
        assert(input.take(n) + strip_from(input, n) =~= a + c);
    }
}

/// An OSC string (`ESC ]`) or an SOS, PM or APC string (`ESC X`, `ESC ^`,
/// `ESC _`) with a printable body and the terminator `ESC \`, between two
/// printable texts, is removed whole: stripping keeps exactly the two texts.
pub proof fn lemma_strip_removes_string(a: Seq<u8>, x: u8, body: Seq<u8>, c: Seq<u8>)
    requires
        is_plain_text(a),
        is_plain_text(body),
        is_plain_text(c),
        x == 0x5d || x == 0x58 || x == 0x5e || x == 0x5f,
    ensures
        strip_spec(a + seq![0x1bu8, x] + body + seq![0x1bu8, 0x5cu8] + c) == a + c,
{
    let st = if x == 0x5d { State::OscData } else { State::SosPmApcData };
    let input = a + seq![0x1bu8, x] + body + seq![0x1bu8, 0x5cu8] + c;
    let n = a.len() as int;
    let l = body.len() as int;
    let e2 = n + 2 + l;
    let cs = n + 4 + l;
    assert(input.len() == cs + c.len());
    assert forall|i: int| 0 <= i < n implies input[i] == a[i] && input[i] != 0x1b by {
        assert(input[i] == a[i]);
    }
    assert(input[n] == 0x1b && input[n + 1] == x);
    assert forall|i: int| n + 2 <= i < e2 implies input[i] == body[i - n - 2] && 0x20 <= input[i] <= 0x7e by {
        assert(input[i] == body[i - n - 2]);
    }
    assert(input[e2] == 0x1b && input[e2 + 1] == 0x5c);
    assert forall|i: int| cs <= i < input.len() implies input[i] == c[i - cs] && 0x20 <= input[i] <= 0x7e by {
        assert(input[i] == c[i - cs]);
    }
    lemma_first_byte_skip(input, 0x1b, 0, n);
    assert(first_byte(input, 0x1b, 0) == n);
    assert(input.take(n) =~= a);
    assert(strip_step(State::Ground, 0x1b) == (Action::Ignore, State::Escape));
    assert(strip_step(State::Escape, x) == (Action::Ignore, st));
    assert(strip_step(st, 0x1b) == (Action::Ignore, State::Escape));
    assert(strip_step(State::Escape, 0x5c) == (Action::Ignore, State::Ground));
    lemma_first_print_body_skip(st, input, n + 2, e2);
    assert(first_print(State::Escape, input, e2 + 1) == first_print(State::Ground, input, cs));
    assert(first_print(st, input, e2) == first_print(State::Ground, input, cs));
    assert(first_print(State::Escape, input, n + 1) == first_print(State::Ground, input, cs));
    assert(first_print(State::Ground, input, n) == first_print(State::Ground, input, cs));
    if c.len() == 0 {
        assert(first_print(State::Ground, input, cs) is None);
        assert(a + c =~= a);
    } else {
        assert(strip_step(State::Ground, input[cs]).0 == Action::Print);
        assert(strip_step(State::Ground, input[cs]).1 == State::Utf8);
        assert(first_print(State::Ground, input, n) == Some((cs, State::Utf8)));
        let rest = input.subrange(n + 2, input.len() as int);
        assert forall|i: int| 0 <= i < l implies !is_terminator(st == State::OscData, #[trigger] rest[i]) by {
            assert(rest[i] == input[n + 2 + i]);
        }
        lemma_first_terminator_skip(rest, st == State::OscData, 0, l);
        assert(rest[l] == 0x1b);
        assert(skip_spec(st, rest) == l);
        assert(sequence_from(State::Escape, input, e2 + 1) == (Seq::<u8>::empty(), cs));
        assert(sequence_from(st, input, e2) == (Seq::<u8>::empty() + Seq::<u8>::empty(), cs));
        assert(Seq::<u8>::empty() + Seq::<u8>::empty() =~= Seq::<u8>::empty());
        assert(sequence_from(State::Escape, input, n + 1).1 == cs);
        assert(sequence_from(State::Escape, input, n + 1).0 =~= Seq::<u8>::empty());
        assert(sequence_from(State::Ground, input, n).1 == cs);
        assert(sequence_from(State::Ground, input, n).0 =~= Seq::<u8>::empty());
        lemma_first_byte_skip(input, 0x1b, cs, input.len() as int);
        assert(strip_from(input, cs) =~= c);
        assert(strip_from(input, n) =~= c);
        assert(input.take(n) + strip_from(input, n) =~= a + c);
    }
}

/// Parameter bytes of a control sequence: digits and `;`.
pub open spec fn is_csi_params(t: Seq<u8>) -> bool {
    forall|i: int| 0 <= i < t.len() ==> (0x30 <= #[trigger] t[i] <= 0x39 || t[i] == 0x3b)
}

proof fn lemma_csi_param_skip(s: Seq<u8>, k: int, m: int)
    requires
        0 <= k <= m < s.len(),
        forall|i: int| k <= i < m ==> (0x30 <= #[trigger] s[i] <= 0x39 || s[i] == 0x3b),
    ensures
        first_print(State::CsiParam, s, k) == first_print(State::CsiParam, s, m),
        sequence_from(State::CsiParam, s, k).1 == sequence_from(State::CsiParam, s, m).1,
        sequence_from(State::CsiParam, s, k).0 =~= sequence_from(State::CsiParam, s, m).0,
    decreases m - k,
{
    if k < m {
        assert(strip_step(State::CsiParam, s[k]) == (Action::Ignore, State::CsiParam));
        assert(skip_spec(State::CsiParam, s.subrange(k + 1, s.len() as int)) == 0);
        lemma_csi_param_skip(s, k + 1, m);
    }
}

/// A control sequence (`ESC [`, digits and `;`, and a final byte) between
/// two printable texts is removed whole: stripping keeps exactly the two
/// texts.
pub proof fn lemma_strip_removes_csi(a: Seq<u8>, params: Seq<u8>, f: u8, c: Seq<u8>)
    requires
        is_plain_text(a),
        is_csi_params(params),
        is_plain_text(c),
        0x40 <= f <= 0x7e,
    ensures
        strip_spec(a + seq![0x1bu8, 0x5bu8] + params + seq![f] + c) == a + c,
{
    let input = a + seq![0x1bu8, 0x5bu8] + params + seq![f] + c;
    let n = a.len() as int;
    let l = params.len() as int;
    let fi = n + 2 + l;
    let cs = fi + 1;
    assert(input.len() == cs + c.len());
    assert forall|i: int| 0 <= i < n implies input[i] == a[i] && input[i] != 0x1b by {
        assert(input[i] == a[i]);
    }
    assert(input[n] == 0x1b && input[n + 1] == 0x5b);
    assert forall|i: int| n + 2 <= i < fi implies input[i] == params[i - n - 2] && (0x30 <= #[trigger] input[i] <= 0x39 || input[i] == 0x3b) by {
        assert(input[i] == params[i - n - 2]);
    }
    assert(input[fi] == f);
    assert forall|i: int| cs <= i < input.len() implies input[i] == c[i - cs] && 0x20 <= input[i] <= 0x7e by {
        assert(input[i] == c[i - cs]);
    }
    lemma_first_byte_skip(input, 0x1b, 0, n);
    assert(first_byte(input, 0x1b, 0) == n);
    assert(input.take(n) =~= a);
    assert(strip_step(State::Ground, 0x1b) == (Action::Ignore, State::Escape));
    assert(strip_step(State::Escape, 0x5b) == (Action::Ignore, State::CsiEntry));
    assert(strip_step(State::CsiParam, f) == (Action::Ignore, State::Ground));
    assert(strip_step(State::CsiEntry, f) == (Action::Ignore, State::Ground));
    if l > 0 {
        assert(strip_step(State::CsiEntry, input[n + 2]) == (Action::Ignore, State::CsiParam));
        lemma_csi_param_skip(input, n + 3, fi);
        assert(first_print(State::CsiParam, input, fi) == first_print(State::Ground, input, cs));
        assert(first_print(State::CsiEntry, input, n + 2) == first_print(State::Ground, input, cs));
    } else {
        assert(first_print(State::CsiEntry, input, n + 2) == first_print(State::Ground, input, cs));
    }
    assert(first_print(State::Escape, input, n + 1) == first_print(State::Ground, input, cs));
    assert(first_print(State::Ground, input, n) == first_print(State::Ground, input, cs));
    if c.len() == 0 {
        assert(first_print(State::Ground, input, cs) is None);
        assert(a + c =~= a);
    } else {
        assert(strip_step(State::Ground, input[cs]).0 == Action::Print);
        assert(strip_step(State::Ground, input[cs]).1 == State::Utf8);
        assert(first_print(State::Ground, input, n) == Some((cs, State::Utf8)));
        assert(skip_spec(State::Ground, input.subrange(fi + 1, input.len() as int)) == 0);
        assert(skip_spec(State::CsiEntry, input.subrange(n + 2, input.len() as int)) == 0);
        assert(skip_spec(State::Escape, input.subrange(n + 1, input.len() as int)) == 0);
        if l > 0 {
            assert(skip_spec(State::CsiParam, input.subrange(n + 3, input.len() as int)) == 0);
            assert(sequence_from(State::CsiParam, input, fi) == (Seq::<u8>::empty(), cs));
            assert(sequence_from(State::CsiEntry, input, n + 2).1 == cs);
            assert(sequence_from(State::CsiEntry, input, n + 2).0 =~= Seq::<u8>::empty());
        } else {
            assert(sequence_from(State::CsiEntry, input, n + 2) == (Seq::<u8>::empty(), cs));
        }
        assert(sequence_from(State::Escape, input, n + 1).1 == cs);
        assert(sequence_from(State::Escape, input, n + 1).0 =~= Seq::<u8>::empty());
        assert(sequence_from(State::Ground, input, n).1 == cs);
        assert(sequence_from(State::Ground, input, n).0 =~= Seq::<u8>::empty());
        lemma_first_byte_skip(input, 0x1b, cs, input.len() as int);
        assert(strip_from(input, cs) =~= c);
        assert(strip_from(input, n) =~= c);
        assert(input.take(n) + strip_from(input, n) =~= a + c);
    }
}

/// Input without ESC is kept whole.
pub proof fn lemma_strip_keeps_plain_input(t: Seq<u8>)
    requires
        forall|i: int| 0 <= i < t.len() ==> #[trigger] t[i] != 0x1b,
    ensures
        strip_spec(t) == t,
{
    lemma_first_byte_skip(t, 0x1b, 0, t.len() as int);
}

} // verus!
