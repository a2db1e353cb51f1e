use vstd::prelude::*;
use vstd::utf8::*;

verus! {

/// The byte classes of the UTF-8 DFA and their table rows. Each row packs,
/// for every state `s` (a multiple of 6), the next state in bits `s..s+6`, and
/// in bits 56..63 the mask of payload bits the byte contributes.
pub open spec fn row_ascii() -> u64 {
    0x7f00000000000180u64
}

pub open spec fn row_lead2() -> u64 {
    0x1f00000000000300u64
}

pub open spec fn row_lead3() -> u64 {
    0xf00000000000480u64
}

pub open spec fn row_lead4() -> u64 {
    0x700000000000600u64
}

pub open spec fn row_error() -> u64 {
    0x0u64
}

pub open spec fn row_e0() -> u64 {
    0xf00000000000780u64
}

pub open spec fn row_ed() -> u64 {
    0xf00000000000900u64
}

pub open spec fn row_f0() -> u64 {
    0x700000000000a80u64
}

pub open spec fn row_f4() -> u64 {
    0x700000000000c00u64
}

pub open spec fn row_c80() -> u64 {
    0x3f1200c012306000u64
}

pub open spec fn row_c90() -> u64 {
    0x3f0048c012306000u64
}

pub open spec fn row_ca0() -> u64 {
    0x3f00480312306000u64
}

/// The table row of a byte.
pub open spec fn dfa_row(b: u8) -> u64 {
    if b <= 0x7F {
        row_ascii()
    } else if b <= 0x8F {
        row_c80()
    } else if b <= 0x9F {
        row_c90()
    } else if b <= 0xBF {
        row_ca0()
    } else if b <= 0xC1 {
        row_error()
    } else if b <= 0xDF {
        row_lead2()
    } else if b == 0xE0 {
        row_e0()
    } else if b == 0xED {
        row_ed()
    } else if b <= 0xEF {
        row_lead3()
    } else if b == 0xF0 {
        row_f0()
    } else if b <= 0xF3 {
        row_lead4()
    } else if b == 0xF4 {
        row_f4()
    } else {
        row_error()
    }
}

/// The state values: the error trap, the accepting boundary, and the seven
/// in-sequence states.
pub open spec fn s_reject() -> u64 { 0 }
pub open spec fn s_accept() -> u64 { 6 }
pub open spec fn s_tail1() -> u64 { 12 }
pub open spec fn s_tail2() -> u64 { 18 }
pub open spec fn s_tail3() -> u64 { 24 }
pub open spec fn s_e0() -> u64 { 30 }
pub open spec fn s_ed() -> u64 { 36 }
pub open spec fn s_f0() -> u64 { 42 }
pub open spec fn s_f4() -> u64 { 48 }

/// `v` is one of the nine DFA states.
pub open spec fn valid_state(v: u64) -> bool {
    v == 0 || v == 6 || v == 12 || v == 18 || v == 24 || v == 30 || v == 36 || v == 42 || v == 48
}

/// `b` is a UTF-8 continuation byte (`10xxxxxx`).
pub open spec fn is_cont(b: u8) -> bool {
    0x80 <= b <= 0xBF
}

/// The DFA of the well-formed UTF-8 byte sequences (TUS Table 3-7): from the
/// boundary state a lead byte selects how many and which continuation bytes
/// must follow; any other byte goes to the error trap.
pub open spec fn dfa_next(s: u64, b: u8) -> u64 {
    if s == 6 {
        if b <= 0x7F {
            6
        } else if 0xC2 <= b <= 0xDF {
            12
        } else if b == 0xE0 {
            30
        } else if b == 0xED {
            36
        } else if 0xE1 <= b <= 0xEF {
            18
        } else if b == 0xF0 {
            42
        } else if 0xF1 <= b <= 0xF3 {
            24
        } else if b == 0xF4 {
            48
        } else {
            0
        }
    } else if s == 12 {
        if is_cont(b) { 6 } else { 0 }
    } else if s == 18 {
        if is_cont(b) { 12 } else { 0 }
    } else if s == 24 {
        if is_cont(b) { 18 } else { 0 }
    } else if s == 30 {
        if 0xA0 <= b <= 0xBF { 12 } else { 0 }
    } else if s == 36 {
        if 0x80 <= b <= 0x9F { 12 } else { 0 }
    } else if s == 42 {
        if 0x90 <= b <= 0xBF { 18 } else { 0 }
    } else if s == 48 {
        if 0x80 <= b <= 0x8F { 18 } else { 0 }
    } else {
        0
    }
}

/// The payload bits of a byte: the low bits that follow its length prefix.
pub open spec fn payload_mask(b: u8) -> u32 {
    if b <= 0x7F {
        0x7F
    } else if b <= 0xBF {
        0x3F
    } else if b <= 0xC1 {
        0
    } else if b <= 0xDF {
        0x1F
    } else if b <= 0xEF {
        0x0F
    } else if b <= 0xF4 {
        0x07
    } else {
        0
    }
}

/// The state after feeding `bytes` to the DFA from `s`.
pub open spec fn dfa_run(s: u64, bytes: Seq<u8>) -> u64
    decreases bytes.len(),
{
    if bytes.len() == 0 {
        s
    } else {
        dfa_next(dfa_run(s, bytes.drop_last()), bytes.last())
    }
}

/// The packed-row lookup agrees with `dfa_next` on every valid state, and the
/// packed mask agrees with `payload_mask`.
proof fn lemma_row_step(s: u64, b: u8)
    requires
        valid_state(s),
    ensures
        ((dfa_row(b) >> s) & 63u64) == dfa_next(s, b),
        ((dfa_row(b) >> 56u64) as u32) == payload_mask(b),
        (dfa_row(b) >> 56u64) < 128,
{
    assert(((s == 0u64 ==> ((0x7f00000000000180u64 >> s) & 63u64) == 0u64) && (s == 6u64 ==> ((0x7f00000000000180u64 >> s) & 63u64) == 6u64) && (s == 12u64 ==> ((0x7f00000000000180u64 >> s) & 63u64) == 0u64) && (s == 18u64 ==> ((0x7f00000000000180u64 >> s) & 63u64) == 0u64) && (s == 24u64 ==> ((0x7f00000000000180u64 >> s) & 63u64) == 0u64) && (s == 30u64 ==> ((0x7f00000000000180u64 >> s) & 63u64) == 0u64) && (s == 36u64 ==> ((0x7f00000000000180u64 >> s) & 63u64) == 0u64) && (s == 42u64 ==> ((0x7f00000000000180u64 >> s) & 63u64) == 0u64) && (s == 48u64 ==> ((0x7f00000000000180u64 >> s) & 63u64) == 0u64)) && ((0x7f00000000000180u64 >> 56u64) == 0x7fu64) && ((s == 0u64 ==> ((0x1f00000000000300u64 >> s) & 63u64) == 0u64) && (s == 6u64 ==> ((0x1f00000000000300u64 >> s) & 63u64) == 12u64) && (s == 12u64 ==> ((0x1f00000000000300u64 >> s) & 63u64) == 0u64) && (s == 18u64 ==> ((0x1f00000000000300u64 >> s) & 63u64) == 0u64) && (s == 24u64 ==> ((0x1f00000000000300u64 >> s) & 63u64) == 0u64) && (s == 30u64 ==> ((0x1f00000000000300u64 >> s) & 63u64) == 0u64) && (s == 36u64 ==> ((0x1f00000000000300u64 >> s) & 63u64) == 0u64) && (s == 42u64 ==> ((0x1f00000000000300u64 >> s) & 63u64) == 0u64) && (s == 48u64 ==> ((0x1f00000000000300u64 >> s) & 63u64) == 0u64)) && ((0x1f00000000000300u64 >> 56u64) == 0x1fu64) && ((s == 0u64 ==> ((0xf00000000000480u64 >> s) & 63u64) == 0u64) && (s == 6u64 ==> ((0xf00000000000480u64 >> s) & 63u64) == 18u64) && (s == 12u64 ==> ((0xf00000000000480u64 >> s) & 63u64) == 0u64) && (s == 18u64 ==> ((0xf00000000000480u64 >> s) & 63u64) == 0u64) && (s == 24u64 ==> ((0xf00000000000480u64 >> s) & 63u64) == 0u64) && (s == 30u64 ==> ((0xf00000000000480u64 >> s) & 63u64) == 0u64) && (s == 36u64 ==> ((0xf00000000000480u64 >> s) & 63u64) == 0u64) && (s == 42u64 ==> ((0xf00000000000480u64 >> s) & 63u64) == 0u64) && (s == 48u64 ==> ((0xf00000000000480u64 >> s) & 63u64) == 0u64)) && ((0xf00000000000480u64 >> 56u64) == 0xfu64) && ((s == 0u64 ==> ((0x700000000000600u64 >> s) & 63u64) == 0u64) && (s == 6u64 ==> ((0x700000000000600u64 >> s) & 63u64) == 24u64) && (s == 12u64 ==> ((0x700000000000600u64 >> s) & 63u64) == 0u64) && (s == 18u64 ==> ((0x700000000000600u64 >> s) & 63u64) == 0u64) && (s == 24u64 ==> ((0x700000000000600u64 >> s) & 63u64) == 0u64) && (s == 30u64 ==> ((0x700000000000600u64 >> s) & 63u64) == 0u64) && (s == 36u64 ==> ((0x700000000000600u64 >> s) & 63u64) == 0u64) && (s == 42u64 ==> ((0x700000000000600u64 >> s) & 63u64) == 0u64) && (s == 48u64 ==> ((0x700000000000600u64 >> s) & 63u64) == 0u64)) && ((0x700000000000600u64 >> 56u64) == 0x7u64) && ((s == 0u64 ==> ((0x0u64 >> s) & 63u64) == 0u64) && (s == 6u64 ==> ((0x0u64 >> s) & 63u64) == 0u64) && (s == 12u64 ==> ((0x0u64 >> s) & 63u64) == 0u64) && (s == 18u64 ==> ((0x0u64 >> s) & 63u64) == 0u64) && (s == 24u64 ==> ((0x0u64 >> s) & 63u64) == 0u64) && (s == 30u64 ==> ((0x0u64 >> s) & 63u64) == 0u64) && (s == 36u64 ==> ((0x0u64 >> s) & 63u64) == 0u64) && (s == 42u64 ==> ((0x0u64 >> s) & 63u64) == 0u64) && (s == 48u64 ==> ((0x0u64 >> s) & 63u64) == 0u64)) && ((0x0u64 >> 56u64) == 0x0u64) && ((s == 0u64 ==> ((0xf00000000000780u64 >> s) & 63u64) == 0u64) && (s == 6u64 ==> ((0xf00000000000780u64 >> s) & 63u64) == 30u64) && (s == 12u64 ==> ((0xf00000000000780u64 >> s) & 63u64) == 0u64) && (s == 18u64 ==> ((0xf00000000000780u64 >> s) & 63u64) == 0u64) && (s == 24u64 ==> ((0xf00000000000780u64 >> s) & 63u64) == 0u64) && (s == 30u64 ==> ((0xf00000000000780u64 >> s) & 63u64) == 0u64) && (s == 36u64 ==> ((0xf00000000000780u64 >> s) & 63u64) == 0u64) && (s == 42u64 ==> ((0xf00000000000780u64 >> s) & 63u64) == 0u64) && (s == 48u64 ==> ((0xf00000000000780u64 >> s) & 63u64) == 0u64)) && ((0xf00000000000780u64 >> 56u64) == 0xfu64) && ((s == 0u64 ==> ((0xf00000000000900u64 >> s) & 63u64) == 0u64) && (s == 6u64 ==> ((0xf00000000000900u64 >> s) & 63u64) == 36u64) && (s == 12u64 ==> ((0xf00000000000900u64 >> s) & 63u64) == 0u64) && (s == 18u64 ==> ((0xf00000000000900u64 >> s) & 63u64) == 0u64) && (s == 24u64 ==> ((0xf00000000000900u64 >> s) & 63u64) == 0u64) && (s == 30u64 ==> ((0xf00000000000900u64 >> s) & 63u64) == 0u64) && (s == 36u64 ==> ((0xf00000000000900u64 >> s) & 63u64) == 0u64) && (s == 42u64 ==> ((0xf00000000000900u64 >> s) & 63u64) == 0u64) && (s == 48u64 ==> ((0xf00000000000900u64 >> s) & 63u64) == 0u64)) && ((0xf00000000000900u64 >> 56u64) == 0xfu64) && ((s == 0u64 ==> ((0x700000000000a80u64 >> s) & 63u64) == 0u64) && (s == 6u64 ==> ((0x700000000000a80u64 >> s) & 63u64) == 42u64) && (s == 12u64 ==> ((0x700000000000a80u64 >> s) & 63u64) == 0u64) && (s == 18u64 ==> ((0x700000000000a80u64 >> s) & 63u64) == 0u64) && (s == 24u64 ==> ((0x700000000000a80u64 >> s) & 63u64) == 0u64) && (s == 30u64 ==> ((0x700000000000a80u64 >> s) & 63u64) == 0u64) && (s == 36u64 ==> ((0x700000000000a80u64 >> s) & 63u64) == 0u64) && (s == 42u64 ==> ((0x700000000000a80u64 >> s) & 63u64) == 0u64) && (s == 48u64 ==> ((0x700000000000a80u64 >> s) & 63u64) == 0u64)) && ((0x700000000000a80u64 >> 56u64) == 0x7u64) && ((s == 0u64 ==> ((0x700000000000c00u64 >> s) & 63u64) == 0u64) && (s == 6u64 ==> ((0x700000000000c00u64 >> s) & 63u64) == 48u64) && (s == 12u64 ==> ((0x700000000000c00u64 >> s) & 63u64) == 0u64) && (s == 18u64 ==> ((0x700000000000c00u64 >> s) & 63u64) == 0u64) && (s == 24u64 ==> ((0x700000000000c00u64 >> s) & 63u64) == 0u64) && (s == 30u64 ==> ((0x700000000000c00u64 >> s) & 63u64) == 0u64) && (s == 36u64 ==> ((0x700000000000c00u64 >> s) & 63u64) == 0u64) && (s == 42u64 ==> ((0x700000000000c00u64 >> s) & 63u64) == 0u64) && (s == 48u64 ==> ((0x700000000000c00u64 >> s) & 63u64) == 0u64)) && ((0x700000000000c00u64 >> 56u64) == 0x7u64) && ((s == 0u64 ==> ((0x3f1200c012306000u64 >> s) & 63u64) == 0u64) && (s == 6u64 ==> ((0x3f1200c012306000u64 >> s) & 63u64) == 0u64) && (s == 12u64 ==> ((0x3f1200c012306000u64 >> s) & 63u64) == 6u64) && (s == 18u64 ==> ((0x3f1200c012306000u64 >> s) & 63u64) == 12u64) && (s == 24u64 ==> ((0x3f1200c012306000u64 >> s) & 63u64) == 18u64) && (s == 30u64 ==> ((0x3f1200c012306000u64 >> s) & 63u64) == 0u64) && (s == 36u64 ==> ((0x3f1200c012306000u64 >> s) & 63u64) == 12u64) && (s == 42u64 ==> ((0x3f1200c012306000u64 >> s) & 63u64) == 0u64) && (s == 48u64 ==> ((0x3f1200c012306000u64 >> s) & 63u64) == 18u64)) && ((0x3f1200c012306000u64 >> 56u64) == 0x3fu64) && ((s == 0u64 ==> ((0x3f0048c012306000u64 >> s) & 63u64) == 0u64) && (s == 6u64 ==> ((0x3f0048c012306000u64 >> s) & 63u64) == 0u64) && (s == 12u64 ==> ((0x3f0048c012306000u64 >> s) & 63u64) == 6u64) && (s == 18u64 ==> ((0x3f0048c012306000u64 >> s) & 63u64) == 12u64) && (s == 24u64 ==> ((0x3f0048c012306000u64 >> s) & 63u64) == 18u64) && (s == 30u64 ==> ((0x3f0048c012306000u64 >> s) & 63u64) == 0u64) && (s == 36u64 ==> ((0x3f0048c012306000u64 >> s) & 63u64) == 12u64) && (s == 42u64 ==> ((0x3f0048c012306000u64 >> s) & 63u64) == 18u64) && (s == 48u64 ==> ((0x3f0048c012306000u64 >> s) & 63u64) == 0u64)) && ((0x3f0048c012306000u64 >> 56u64) == 0x3fu64) && ((s == 0u64 ==> ((0x3f00480312306000u64 >> s) & 63u64) == 0u64) && (s == 6u64 ==> ((0x3f00480312306000u64 >> s) & 63u64) == 0u64) && (s == 12u64 ==> ((0x3f00480312306000u64 >> s) & 63u64) == 6u64) && (s == 18u64 ==> ((0x3f00480312306000u64 >> s) & 63u64) == 12u64) && (s == 24u64 ==> ((0x3f00480312306000u64 >> s) & 63u64) == 18u64) && (s == 30u64 ==> ((0x3f00480312306000u64 >> s) & 63u64) == 12u64) && (s == 36u64 ==> ((0x3f00480312306000u64 >> s) & 63u64) == 0u64) && (s == 42u64 ==> ((0x3f00480312306000u64 >> s) & 63u64) == 18u64) && (s == 48u64 ==> ((0x3f00480312306000u64 >> s) & 63u64) == 0u64)) && ((0x3f00480312306000u64 >> 56u64) == 0x3fu64)) by (bit_vector)
        requires valid_state(s);
}


/// The split point used by the parallel validators: starting at `m`, step
/// back while the byte at the split is a continuation byte, stopping at `lo`.
pub open spec fn boundary_down(bytes: Seq<u8>, m: int, lo: int) -> int
    decreases m - lo,
{
    if m > lo && 0 <= m < bytes.len() && is_cont(bytes[m]) {
        boundary_down(bytes, m - 1, lo)
    } else {
        m
    }
}

/// The split point of `validate_dual`.
pub open spec fn dual_mid(bytes: Seq<u8>) -> int {
    boundary_down(bytes, (bytes.len() / 2) as int, 0)
}

/// The result of `validate_dual`: the first half from `s`, the second half
/// from the boundary state; the error trap unless the first half ends on a
/// boundary.
pub open spec fn dual_result(s: u64, bytes: Seq<u8>) -> u64 {
    let mid = dual_mid(bytes);
    if dfa_run(s, bytes.take(mid)) == 6 {
        dfa_run(6, bytes.skip(mid))
    } else {
        0
    }
}

/// The first split point of `validate_triple`.
pub open spec fn triple_m0(bytes: Seq<u8>) -> int {
    boundary_down(bytes, (bytes.len() / 3) as int, 0)
}

/// The second split point of `validate_triple`.
pub open spec fn triple_m1(bytes: Seq<u8>) -> int {
    boundary_down(bytes, (bytes.len() * 2 / 3) as int, triple_m0(bytes))
}

/// The result of `validate_triple`: three parts fed separately; the error trap
/// unless the first two end on a boundary.
pub open spec fn triple_result(s: u64, bytes: Seq<u8>) -> u64 {
    let m0 = triple_m0(bytes);
    let m1 = triple_m1(bytes);
    if dfa_run(s, bytes.take(m0)) == 6 && dfa_run(6, bytes.subrange(m0, m1)) == 6 {
        dfa_run(6, bytes.skip(m1))
    } else {
        0
    }
}

proof fn lemma_boundary_down(bytes: Seq<u8>, m: int, lo: int)
    requires
        0 <= lo <= m,
    ensures
        lo <= boundary_down(bytes, m, lo) <= m,
        boundary_down(bytes, m, lo) == lo || !(0 <= boundary_down(bytes, m, lo) < bytes.len())
            || !is_cont(bytes[boundary_down(bytes, m, lo)]),
    decreases m - lo,
{
    if m > lo && 0 <= m < bytes.len() && is_cont(bytes[m]) {
        lemma_boundary_down(bytes, m - 1, lo);
    }
}

/// Every state reachable from a valid state is valid.
pub proof fn lemma_run_valid(s: u64, bytes: Seq<u8>)
    requires
        valid_state(s),
    ensures
        valid_state(dfa_run(s, bytes)),
    decreases bytes.len(),
{
    if bytes.len() > 0 {
        lemma_run_valid(s, bytes.drop_last());
    }
}

/// Feeding two byte strings one after the other is feeding their concatenation.
pub proof fn lemma_run_append(s: u64, a: Seq<u8>, b: Seq<u8>)
    ensures
        dfa_run(s, a + b) == dfa_run(dfa_run(s, a), b),
    decreases b.len(),
{
    if b.len() == 0 {
        assert(a + b =~= a);
    } else {
        lemma_run_append(s, a, b.drop_last());
        assert((a + b).drop_last() =~= a + b.drop_last());
        assert((a + b).last() == b.last());
    }
}

/// The error state is a trap.
pub proof fn lemma_run_reject(bytes: Seq<u8>)
    ensures
        dfa_run(0, bytes) == 0,
    decreases bytes.len(),
{
    if bytes.len() > 0 {
        lemma_run_reject(bytes.drop_last());
    }
}

/// From inside a sequence, a byte that is not a continuation byte is an error.
proof fn lemma_pending_then_lead(p: u64, bytes: Seq<u8>)
    requires
        valid_state(p),
        p != 6,
        bytes.len() > 0,
        !is_cont(bytes[0]),
    ensures
        dfa_run(p, bytes) == 0,
{
    let first = bytes.take(1);
    let rest = bytes.skip(1);
    assert(first + rest =~= bytes);
    lemma_run_append(p, first, rest);
    assert(first.drop_last() =~= Seq::<u8>::empty());
    assert(dfa_run(p, first.drop_last()) == p);
    assert(first.last() == bytes[0]);
    assert(dfa_run(p, first) == dfa_next(p, bytes[0]));
    lemma_run_reject(rest);
}

/// Splitting at a sequence boundary and validating the halves separately
/// gives the result of validating the whole, for a walk that starts at a
/// boundary.
proof fn lemma_split_at_boundary(bytes: Seq<u8>, m: int) -> (r: u64)
    requires
        0 <= m <= bytes.len(),
        m == 0 || (m < bytes.len() && !is_cont(bytes[m])),
    ensures
        r == dfa_run(6, bytes.take(m)),
        (if r == 6 { dfa_run(6, bytes.skip(m)) } else { 0 }) == dfa_run(6, bytes),
{
    let r = dfa_run(6, bytes.take(m));
    assert(bytes.take(m) + bytes.skip(m) =~= bytes);
    lemma_run_append(6, bytes.take(m), bytes.skip(m));
    lemma_run_valid(6, bytes.take(m));
    if r == 0 {
        lemma_run_reject(bytes.skip(m));
    } else if r != 6 {
        if m == 0 {
            assert(bytes.take(0) =~= Seq::<u8>::empty());
        } else {
            lemma_pending_then_lead(r, bytes.skip(m));
        }
    }
    r
}

/// A DFA state. Always one of the nine states of `valid_state`.
#[derive(Clone, Copy, Debug, PartialEq, Eq, Structural)]
pub struct State(u64);

impl State {
    #[verifier::type_invariant]
    closed spec fn wf(self) -> bool {
        valid_state(self.0)
    }

    /// The state's value (a multiple of 6).
    pub closed spec fn spec_value(self) -> u64 {
        self.0
    }

    /// The error trap.
    pub fn reject() -> (s: State)
        ensures
            s.spec_value() == s_reject(),
    {
        State(0)
    }

    /// The start state, at a sequence boundary.
    pub fn accept() -> (s: State)
        ensures
            s.spec_value() == s_accept(),
    {
        State(6)
    }

    /// Whether the state is at a sequence boundary.
    pub fn is_accept(self) -> (r: bool)
        ensures
            r == (self.spec_value() == s_accept()),
    {
        self.0 == 6
    }

    /// Whether the state is the error trap.
    pub fn is_reject(self) -> (r: bool)
        ensures
            r == (self.spec_value() == s_reject()),
    {
        self.0 == 0
    }

    /// Whether the state is inside an unfinished sequence.
    pub fn is_pending(self) -> (r: bool)
        ensures
            r == (self.spec_value() > s_accept()),
    {
        self.0 > 6
    }

    /// The default state, the error trap.
    pub fn default() -> (s: State)
        ensures
            s.spec_value() == s_reject(),
    {
        State(0)
    }
}

/// The packed table row of a byte.
fn row(b: u8) -> (r: u64)
    ensures
        r == dfa_row(b),
{
    if b <= 0x7F {
        0x7f00000000000180
    } else if b <= 0x8F {
        0x3f1200c012306000
    } else if b <= 0x9F {
        0x3f0048c012306000
    } else if b <= 0xBF {
        0x3f00480312306000
    } else if b <= 0xC1 {
        0x0
    } else if b <= 0xDF {
        0x1f00000000000300
    } else if b == 0xE0 {
        0xf00000000000780
    } else if b == 0xED {
        0xf00000000000900
    } else if b <= 0xEF {
        0xf00000000000480
    } else if b == 0xF0 {
        0x700000000000a80
    } else if b <= 0xF3 {
        0x700000000000600
    } else if b == 0xF4 {
        0x700000000000c00
    } else {
        0x0
    }
}

/// One DFA transition on a raw state value.
fn next_value(s: u64, b: u8) -> (r: u64)
    requires
        valid_state(s),
    ensures
        r == dfa_next(s, b),
        valid_state(r),
{
    proof {
        lemma_row_step(s, b);
    }
    (row(b) >> s) & 63
}

/// Feeds one byte to the DFA (validation only).
pub fn step(state: State, byte: u8) -> (r: State)
    ensures
        r.spec_value() == dfa_next(state.spec_value(), byte),
{
    proof {
        use_type_invariant(&state);
    }
    State(next_value(state.0, byte))
}

/// Feeds one byte to the DFA and folds its payload bits into `codepoint`:
/// `codepoint` becomes `codepoint << 6 | (byte & mask)`. When the result is
/// the accepting state, `codepoint` holds the decoded scalar, provided the
/// caller reset it to 0 at the start of the sequence.
pub fn step_decode(state: State, byte: u8, codepoint: &mut u32) -> (r: State)
    ensures
        r.spec_value() == dfa_next(state.spec_value(), byte),
        *final(codepoint) == ((*old(codepoint) << 6u32) | (byte as u32 & payload_mask(byte))),
{
    proof {
        use_type_invariant(&state);
        lemma_row_step(state.0, byte);
    }
    let r = row(byte);
    *codepoint = (*codepoint << 6) | (byte as u32 & ((r >> 56) as u32));
    State(next_value(state.0, byte))
}

/// Feeds a whole byte slice to the DFA.
pub fn validate(state: State, bytes: &[u8]) -> (r: State)
    ensures
        r.spec_value() == dfa_run(state.spec_value(), bytes@),
{
    proof {
        use_type_invariant(&state);
    }
    let mut s: u64 = state.0;
    let mut i: usize = 0;
    while i < bytes.len()
        invariant
            0 <= i <= bytes@.len(),
            valid_state(s),
            s == dfa_run(state.spec_value(), bytes@.take(i as int)),
        decreases bytes.len() - i,
    {
        proof {
            lemma_and63(s);
            assert(bytes@.take(i + 1).drop_last() =~= bytes@.take(i as int));
        }
        s = next_value(s & 63, bytes[i]);
        i += 1;
    }
    assert(bytes@.take(i as int) =~= bytes@);
    proof {
        lemma_and63(s);
    }
    State(s & 63)
}

proof fn lemma_and63(s: u64)
    requires
        valid_state(s),
    ensures
        s & 63 == s,
{
    assert(valid_state(s) ==> s & 63 == s) by (bit_vector);
}

/// Feeds a 16-byte chunk to the DFA.
pub fn validate_chunk(state: State, bytes: &[u8; 16]) -> (r: State)
    ensures
        r.spec_value() == dfa_run(state.spec_value(), bytes@),
{
    proof {
        use_type_invariant(&state);
    }
    let mut s: u64 = state.0;
    let mut i: usize = 0;
    while i < 16
        invariant
            0 <= i <= 16,
            bytes@.len() == 16,
            valid_state(s),
            s == dfa_run(state.spec_value(), bytes@.take(i as int)),
        decreases 16 - i,
    {
        proof {
            lemma_and63(s);
            assert(bytes@.take(i + 1).drop_last() =~= bytes@.take(i as int));
        }
        s = next_value(s & 63, bytes[i]);
        i += 1;
    }
    assert(bytes@.take(16) =~= bytes@);
    proof {
        lemma_and63(s);
    }
    State(s & 63)
}

proof fn lemma_cont_mask(b: u8)
    ensures
        ((b & 0xC0u8) == 0x80u8) == is_cont(b),
{
    assert(((b & 0xC0u8) == 0x80u8) == (0x80u8 <= b && b <= 0xBFu8)) by (bit_vector);
}

/// Steps back from `m` to the nearest split point that does not fall inside
/// a sequence, stopping at `lo`.
fn find_boundary(bytes: &[u8], m: usize, lo: usize) -> (r: usize)
    requires
        lo <= m,
        m == 0 || m < bytes@.len(),
    ensures
        r == boundary_down(bytes@, m as int, lo as int),
{
    let mut k = m;
    while k > lo && (bytes[k] & 0xC0) == 0x80
        invariant
            lo <= k <= m,
            k == 0 || k < bytes@.len(),
            boundary_down(bytes@, k as int, lo as int) == boundary_down(bytes@, m as int, lo as int),
        decreases k,
    {
        proof {
            lemma_cont_mask(bytes@[k as int]);
        }
        k -= 1;
    }
    proof {
        if k > lo {
            lemma_cont_mask(bytes@[k as int]);
        }
    }
    k
}

/// Validates a byte slice as two halves scanned side by side.
///
/// The input is split at the middle, moved back to a sequence boundary; the
/// first half is fed from `state`, the second from the boundary state. The
/// result is the error trap unless the first half ends on a boundary.
pub fn validate_dual(state: State, bytes: &[u8]) -> (r: State)
    ensures
        r.spec_value() == dual_result(state.spec_value(), bytes@),
{
    proof {
        use_type_invariant(&state);
    }
    let len = bytes.len();
    let mid = find_boundary(bytes, len / 2, 0);
    proof {
        lemma_boundary_down(bytes@, (len / 2) as int, 0);
    }
    let mut s0: u64 = state.0;
    let mut s1: u64 = 6;
    let end = if mid < len - mid { mid } else { len - mid };
    let mut i: usize = 0;
    while i < end
        invariant
            0 <= i <= end,
            end <= mid,
            mid + end <= len,
            len == bytes@.len(),
            valid_state(s0),
            valid_state(s1),
            s0 == dfa_run(state.spec_value(), bytes@.take(i as int)),
            s1 == dfa_run(6, bytes@.subrange(mid as int, mid + i)),
        decreases end - i,
    {
        proof {
            lemma_and63(s0);
            lemma_and63(s1);
            assert(bytes@.take(i + 1).drop_last() =~= bytes@.take(i as int));
            assert(bytes@.subrange(mid as int, mid + i + 1).drop_last() =~= bytes@.subrange(mid as int, mid + i));
        }
        s0 = next_value(s0 & 63, bytes[i]);
        s1 = next_value(s1 & 63, bytes[mid + i]);
        i += 1;
    }
    let mut j: usize = end;
    while j < mid
        invariant
            end <= j <= mid,
            mid <= len,
            len == bytes@.len(),
            valid_state(s0),
            s0 == dfa_run(state.spec_value(), bytes@.take(j as int)),
        decreases mid - j,
    {
        proof {
            lemma_and63(s0);
            assert(bytes@.take(j + 1).drop_last() =~= bytes@.take(j as int));
        }
        s0 = next_value(s0 & 63, bytes[j]);
        j += 1;
    }
    let mut k: usize = mid + end;
    while k < len
        invariant
            mid + end <= k <= len,
            len == bytes@.len(),
            valid_state(s1),
            s1 == dfa_run(6, bytes@.subrange(mid as int, k as int)),
        decreases len - k,
    {
        proof {
            lemma_and63(s1);
            assert(bytes@.subrange(mid as int, k + 1).drop_last() =~= bytes@.subrange(mid as int, k as int));
        }
        s1 = next_value(s1 & 63, bytes[k]);
        k += 1;
    }
    proof {
        lemma_and63(s0);
        lemma_and63(s1);
        assert(bytes@.subrange(mid as int, len as int) =~= bytes@.skip(mid as int));
    }
    if s0 & 63 != 6 {
        return State(0);
    }
    State(s1 & 63)
}

/// Validates a byte slice as three parts scanned side by side.
///
/// Split points are taken at one and two thirds, each moved back to a
/// sequence boundary. The result is the error trap unless the first two parts
/// end on a boundary.
pub fn validate_triple(state: State, bytes: &[u8]) -> (r: State)
    requires
        bytes@.len() * 2 <= usize::MAX,
    ensures
        r.spec_value() == triple_result(state.spec_value(), bytes@),
{
    proof {
        use_type_invariant(&state);
    }
    let len = bytes.len();
    let m0 = find_boundary(bytes, len / 3, 0);
    proof {
        lemma_boundary_down(bytes@, (len / 3) as int, 0);
    }
    let m1 = find_boundary(bytes, len * 2 / 3, m0);
    proof {
        lemma_boundary_down(bytes@, (len * 2 / 3) as int, m0 as int);
    }
    let len0 = m0;
    let len1 = m1 - m0;
    let len2 = len - m1;
    let n01 = if len0 < len1 { len0 } else { len1 };
    let n = if n01 < len2 { n01 } else { len2 };
    let mut s0: u64 = state.0;
    let mut s1: u64 = 6;
    let mut s2: u64 = 6;
    let mut i: usize = 0;
    while i < n
        invariant
            0 <= i <= n,
            n <= len0,
            n <= len1,
            n <= len2,
            len0 == m0,
            m0 + len1 == m1,
            m1 + len2 == len,
            len == bytes@.len(),
            valid_state(s0),
            valid_state(s1),
            valid_state(s2),
            s0 == dfa_run(state.spec_value(), bytes@.take(i as int)),
            s1 == dfa_run(6, bytes@.subrange(m0 as int, m0 + i)),
            s2 == dfa_run(6, bytes@.subrange(m1 as int, m1 + i)),
        decreases n - i,
    {
        proof {
            lemma_and63(s0);
            lemma_and63(s1);
            lemma_and63(s2);
            assert(bytes@.take(i + 1).drop_last() =~= bytes@.take(i as int));
            assert(bytes@.subrange(m0 as int, m0 + i + 1).drop_last() =~= bytes@.subrange(m0 as int, m0 + i));
            assert(bytes@.subrange(m1 as int, m1 + i + 1).drop_last() =~= bytes@.subrange(m1 as int, m1 + i));
        }
        s0 = next_value(s0 & 63, bytes[i]);
        s1 = next_value(s1 & 63, bytes[m0 + i]);
        s2 = next_value(s2 & 63, bytes[m1 + i]);
        i += 1;
    }
    let mut a: usize = n;
    while a < len0
        invariant
            n <= a <= len0,
            len0 == m0,
            m0 <= len,
            len == bytes@.len(),
            valid_state(s0),
            s0 == dfa_run(state.spec_value(), bytes@.take(a as int)),
        decreases len0 - a,
    {
        proof {
            lemma_and63(s0);
            assert(bytes@.take(a + 1).drop_last() =~= bytes@.take(a as int));
        }
        s0 = next_value(s0 & 63, bytes[a]);
        a += 1;
    }
    let mut b: usize = m0 + n;
    while b < m1
        invariant
            m0 + n <= b <= m1,
            m1 <= len,
            len == bytes@.len(),
            valid_state(s1),
            s1 == dfa_run(6, bytes@.subrange(m0 as int, b as int)),
        decreases m1 - b,
    {
        proof {
            lemma_and63(s1);
            assert(bytes@.subrange(m0 as int, b + 1).drop_last() =~= bytes@.subrange(m0 as int, b as int));
        }
        s1 = next_value(s1 & 63, bytes[b]);
        b += 1;
    }
    let mut c: usize = m1 + n;
    while c < len
        invariant
            m1 + n <= c <= len,
            len == bytes@.len(),
            valid_state(s2),
            s2 == dfa_run(6, bytes@.subrange(m1 as int, c as int)),
        decreases len - c,
    {
        proof {
            lemma_and63(s2);
            assert(bytes@.subrange(m1 as int, c + 1).drop_last() =~= bytes@.subrange(m1 as int, c as int));
        }
        s2 = next_value(s2 & 63, bytes[c]);
        c += 1;
    }
    proof {
        lemma_and63(s0);
        lemma_and63(s1);
        lemma_and63(s2);
        assert(bytes@.subrange(m1 as int, len as int) =~= bytes@.skip(m1 as int));
    }
    if (s0 & 63) != 6 || (s1 & 63) != 6 {
        return State(0);
    }
    State(s2 & 63)
}

/// Two-part validation from the boundary state agrees with validating the
/// whole slice in one pass.
pub proof fn lemma_dual_agrees(bytes: Seq<u8>)
    ensures
        dual_result(6, bytes) == dfa_run(6, bytes),
{
    let m = (bytes.len() / 2) as int;
    lemma_boundary_down(bytes, m, 0);
    lemma_split_at_boundary(bytes, dual_mid(bytes));
}

/// Three-part validation from the boundary state agrees with validating the
/// whole slice in one pass.
pub proof fn lemma_triple_agrees(bytes: Seq<u8>)
    ensures
        triple_result(6, bytes) == dfa_run(6, bytes),
{
    let m0 = triple_m0(bytes);
    lemma_boundary_down(bytes, (bytes.len() / 3) as int, 0);
    lemma_boundary_down(bytes, (bytes.len() * 2 / 3) as int, m0);
    let m1 = triple_m1(bytes);
    let r0 = lemma_split_at_boundary(bytes, m0);
    if r0 == 6 {
        let rest = bytes.skip(m0);
        let k = m1 - m0;
        assert(rest.take(k) =~= bytes.subrange(m0, m1));
        assert(rest.skip(k) =~= bytes.skip(m1));
        if k > 0 {
            assert(rest[k] == bytes[m1]);
        }
        lemma_split_at_boundary(rest, k);
    }
}

proof fn lemma_run_take_step(s: u64, b: Seq<u8>, j: int)
    requires
        0 <= j < b.len(),
    ensures
        dfa_run(s, b.take(j + 1)) == dfa_next(dfa_run(s, b.take(j)), b[j]),
{
    assert(b.take(j + 1).drop_last() =~= b.take(j));
    assert(b.take(j + 1).last() == b[j]);
}

proof fn lemma_run_split(s: u64, b: Seq<u8>, j: int)
    requires
        0 <= j <= b.len(),
    ensures
        dfa_run(s, b) == dfa_run(dfa_run(s, b.take(j)), b.skip(j)),
{
    assert(b.take(j) + b.skip(j) =~= b);
    lemma_run_append(s, b.take(j), b.skip(j));
}

pub proof fn lemma_width_bits(x0: u8, x1: u8, x2: u8, x3: u8)
    ensures
        (0xC0 <= x0 <= 0xDF && 0x80 <= x1 <= 0xBF) ==> {
            let c = (((x0 & 0x1F) as u32) << 6u32) | ((x1 & 0x3F) as u32);
            &&& (0x80 <= c <==> x0 >= 0xC2)
            &&& c < 0x800
        },
        (0xE0 <= x0 <= 0xEF && 0x80 <= x1 <= 0xBF && 0x80 <= x2 <= 0xBF) ==> {
            let c = (((x0 & 0x0F) as u32) << 12u32) | (((x1 & 0x3F) as u32) << 6u32) | ((x2 & 0x3F) as u32);
            &&& (0x800 <= c <==> (x0 != 0xE0 || x1 >= 0xA0))
            &&& (!(0xD800 <= c && c <= 0xDFFF) <==> !(x0 == 0xED && x1 >= 0xA0))
        },
        (0xF0 <= x0 <= 0xF7 && 0x80 <= x1 <= 0xBF && 0x80 <= x2 <= 0xBF && 0x80 <= x3 <= 0xBF) ==> {
            let c = (((x0 & 0x07) as u32) << 18u32) | (((x1 & 0x3F) as u32) << 12u32) | (((x2 & 0x3F) as u32) << 6u32) | ((x3 & 0x3F) as u32);
            &&& ((0x10000 <= c && c <= 0x10FFFF) <==> ((x0 == 0xF0 && x1 >= 0x90) || (0xF1 <= x0 && x0 <= 0xF3) || (x0 == 0xF4 && x1 <= 0x8F)))
            &&& (0x10000 <= c ==> !(0xD800 <= c && c <= 0xDFFF))
        },
{
    assert((0xC0 <= x0 <= 0xDF && 0x80 <= x1 <= 0xBF) ==> {
        let c = (((x0 & 0x1F) as u32) << 6u32) | ((x1 & 0x3F) as u32);
        &&& (0x80 <= c <==> x0 >= 0xC2)
        &&& c < 0x800
    }) by (bit_vector);
    assert((0xE0 <= x0 <= 0xEF && 0x80 <= x1 <= 0xBF && 0x80 <= x2 <= 0xBF) ==> {
        let c = (((x0 & 0x0F) as u32) << 12u32) | (((x1 & 0x3F) as u32) << 6u32) | ((x2 & 0x3F) as u32);
        &&& (0x800 <= c <==> (x0 != 0xE0 || x1 >= 0xA0))
        &&& (!(0xD800 <= c && c <= 0xDFFF) <==> !(x0 == 0xED && x1 >= 0xA0))
    }) by (bit_vector);
    assert((0xF0 <= x0 <= 0xF7 && 0x80 <= x1 <= 0xBF && 0x80 <= x2 <= 0xBF && 0x80 <= x3 <= 0xBF) ==> {
        let c = (((x0 & 0x07) as u32) << 18u32) | (((x1 & 0x3F) as u32) << 12u32) | (((x2 & 0x3F) as u32) << 6u32) | ((x3 & 0x3F) as u32);
        &&& ((0x10000 <= c && c <= 0x10FFFF) <==> ((x0 == 0xF0 && x1 >= 0x90) || (0xF1 <= x0 && x0 <= 0xF3) || (x0 == 0xF4 && x1 <= 0x8F)))
        &&& (0x10000 <= c ==> !(0xD800 <= c && c <= 0xDFFF))
    }) by (bit_vector);
}

/// On the first scalar of a nonempty byte string, the DFA accepts exactly a
/// well-formed one, and it never returns to the boundary otherwise.
pub proof fn lemma_first_scalar(b: Seq<u8>)
    requires
        b.len() > 0,
    ensures
        valid_first_scalar(b) ==> dfa_run(6, b.take(length_of_first_scalar(b))) == 6,
        !valid_first_scalar(b) ==> dfa_run(6, b) != 6,
{
    let n = b.len();
    let x0 = b[0];
    let x1 = if n > 1 { b[1] } else { 0u8 };
    let x2 = if n > 2 { b[2] } else { 0u8 };
    let x3 = if n > 3 { b[3] } else { 0u8 };
    lemma_width_bits(x0, x1, x2, x3);
    assert(b.take(0) =~= Seq::<u8>::empty());
    lemma_run_take_step(6, b, 0);
    let r1 = dfa_run(6, b.take(1));
    assert(r1 == dfa_next(6, x0));
    if n > 1 {
        lemma_run_take_step(6, b, 1);
    }
    if n > 2 {
        lemma_run_take_step(6, b, 2);
    }
    if n > 3 {
        lemma_run_take_step(6, b, 3);
    }
    let r2 = if n > 1 { dfa_run(6, b.take(2)) } else { 0 };
    let r3 = if n > 2 { dfa_run(6, b.take(3)) } else { 0 };
    let r4 = if n > 3 { dfa_run(6, b.take(4)) } else { 0 };
    if !valid_first_scalar(b) {
        // Find where the walk stops: either the error trap after at most four
        // bytes, or the end of input inside the sequence.
        let k: int = if n < 4 { n as int } else { 4 };
        lemma_run_split(6, b, k);
        let rk = dfa_run(6, b.take(k));
        lemma_run_valid(6, b.take(k));
        if rk == 0 {
            lemma_run_reject(b.skip(k));
        } else {
            if k == n {
                assert(b.skip(k) =~= Seq::<u8>::empty());
            }
            assert(rk != 6);
            if k < n {
                assert(false);
            }
        }
    }
}

/// The DFA accepts exactly the well-formed UTF-8 byte strings: a walk from the
/// boundary state ends on the boundary state if and only if the bytes are a
/// sequence of well-formed scalar encodings (no overlong forms, no
/// surrogates, nothing above U+10FFFF).
pub proof fn lemma_accepts_valid_utf8(b: Seq<u8>)
    ensures
        (dfa_run(6, b) == 6) <==> valid_utf8(b),
    decreases b.len(),
{
    if b.len() == 0 {
    } else {
        lemma_first_scalar(b);
        if valid_first_scalar(b) {
            let l = length_of_first_scalar(b);
            lemma_run_split(6, b, l);
            assert(pop_first_scalar(b) =~= b.skip(l));
            lemma_accepts_valid_utf8(b.skip(l));
        }
    }
}

/// `validate` from the boundary state accepts exactly the well-formed UTF-8
/// byte strings.
pub proof fn lemma_validate_iff_valid_utf8(bytes: Seq<u8>)
    ensures
        (dfa_run(s_accept(), bytes) == s_accept()) <==> valid_utf8(bytes),
{
    lemma_accepts_valid_utf8(bytes);
}

/// Bytes that finish the sequence a pending state waits for.
pub open spec fn completion(s: u64) -> Seq<u8> {
    if s == 12 {
        seq![0x80u8]
    } else if s == 18 {
        seq![0x80u8, 0x80u8]
    } else if s == 24 {
        seq![0x80u8, 0x80u8, 0x80u8]
    } else if s == 30 {
        seq![0xA0u8, 0x80u8]
    } else if s == 36 {
        seq![0x80u8, 0x80u8]
    } else if s == 42 {
        seq![0x90u8, 0x80u8, 0x80u8]
    } else if s == 48 {
        seq![0x80u8, 0x80u8, 0x80u8]
    } else {
        Seq::empty()
    }
}

proof fn lemma_completion(s: u64)
    requires
        valid_state(s),
        s != 0,
    ensures
        dfa_run(s, completion(s)) == 6,
{
    let c = completion(s);
    reveal_with_fuel(dfa_run, 4);
    if c.len() >= 1 {
        assert(c.drop_last().len() == c.len() - 1);
    }
    if c.len() == 1 {
        assert(c.drop_last() =~= Seq::<u8>::empty());
    } else if c.len() == 2 {
        assert(c.drop_last() =~= seq![c[0]]);
        assert(c.drop_last().drop_last() =~= Seq::<u8>::empty());
    } else if c.len() == 3 {
        assert(c.drop_last() =~= seq![c[0], c[1]]);
        assert(c.drop_last().drop_last() =~= seq![c[0]]);
        assert(c.drop_last().drop_last().drop_last() =~= Seq::<u8>::empty());
    }
}

/// The three outcomes of `validate` from the boundary state: it accepts
/// exactly well-formed UTF-8; it rejects exactly the inputs that no further
/// bytes can make well-formed (an invalid sequence); it is left pending
/// exactly on the inputs that are not well-formed but that further bytes
/// can complete (a sequence cut short at the end).
pub proof fn lemma_validate_outcomes(bytes: Seq<u8>)
    ensures
        (dfa_run(s_accept(), bytes) == s_accept()) <==> valid_utf8(bytes),
        (dfa_run(s_accept(), bytes) == s_reject()) <==> (forall|ext: Seq<u8>| !valid_utf8(#[trigger] (bytes + ext))),
        (dfa_run(s_accept(), bytes) > s_accept()) <==> (!valid_utf8(bytes) && exists|ext: Seq<u8>|
            valid_utf8(#[trigger] (bytes + ext))),
{
    let r = dfa_run(6, bytes);
    lemma_run_valid(6, bytes);
    lemma_validate_iff_valid_utf8(bytes);
    if r == 0 {
        assert forall|ext: Seq<u8>| !valid_utf8(#[trigger] (bytes + ext)) by {
            lemma_run_append(6, bytes, ext);
            lemma_run_reject(ext);
            lemma_validate_iff_valid_utf8(bytes + ext);
        }
    } else {
        let ext = completion(r);
        lemma_run_append(6, bytes, ext);
        lemma_completion(r);
        lemma_validate_iff_valid_utf8(bytes + ext);
        assert(valid_utf8(bytes + ext));
    }
}

} // verus!
