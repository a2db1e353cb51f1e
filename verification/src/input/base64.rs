//! Standard base64 (RFC 4648 alphabet, `=` padding).
use vstd::prelude::*;

verus! {

/// The 6-bit value of a base64 digit, or -1 for any other byte.
pub open spec fn b64_value(c: u8) -> int {
    if 0x41 <= c <= 0x5a {
        c - 0x41
    } else if 0x61 <= c <= 0x7a {
        c - 0x61 + 26
    } else if 0x30 <= c <= 0x39 {
        c - 0x30 + 52
    } else if c == 0x2b {
        62
    } else if c == 0x2f {
        63
    } else {
        -1
    }
}

/// The first byte of a group: all six bits of `a`, the top two of `b`.
pub open spec fn b64_byte0(a: int, b: int) -> u8 {
    (a * 4 + b / 16) as u8
}

/// The second byte of a group: the low four bits of `b`, the top four of `c`.
pub open spec fn b64_byte1(b: int, c: int) -> u8 {
    ((b % 16) * 16 + c / 4) as u8
}

/// The third byte of a group: the low two bits of `c`, all six of `d`.
pub open spec fn b64_byte2(c: int, d: int) -> u8 {
    ((c % 4) * 64 + d) as u8
}

/// The bytes that `s` encodes, or `None` when it is not base64: groups of
/// four digits give three bytes each; the last group may end in `==` (one
/// byte) or `=` (two bytes).
pub open spec fn b64_decode_spec(s: Seq<u8>) -> Option<Seq<u8>>
    decreases s.len(),
{
    if s.len() == 0 {
        Some(Seq::empty())
    } else if s.len() < 4 {
        None
    } else {
        let a = b64_value(s[0]);
        let b = b64_value(s[1]);
        let c = b64_value(s[2]);
        let d = b64_value(s[3]);
        let last = s.len() == 4;
        if a < 0 || b < 0 {
            None
        } else if last && s[2] == 0x3d && s[3] == 0x3d {
            Some(seq![b64_byte0(a, b)])
        } else if c < 0 {
            None
        } else if last && s[3] == 0x3d {
            Some(seq![b64_byte0(a, b), b64_byte1(b, c)])
        } else if d < 0 {
            None
        } else {
            match b64_decode_spec(s.skip(4)) {
                Some(r) => Some(seq![b64_byte0(a, b), b64_byte1(b, c), b64_byte2(c, d)] + r),
                None => None,
            }
        }
    }
}

fn b64_value_exec(c: u8) -> (r: i16)
    ensures
        r == b64_value(c),
{
    if 0x41 <= c && c <= 0x5a {
        (c - 0x41) as i16
    } else if 0x61 <= c && c <= 0x7a {
        (c - 0x61 + 26) as i16
    } else if 0x30 <= c && c <= 0x39 {
        (c - 0x30 + 52) as i16
    } else if c == 0x2b {
        62
    } else if c == 0x2f {
        63
    } else {
        -1
    }
}

/// Decodes standard base64 with padding; `None` when `s` is not base64.
pub fn b64_decode(s: &[u8]) -> (r: Option<Vec<u8>>)
    ensures
        match r {
            Some(v) => b64_decode_spec(s@) == Some(v@),
            None => b64_decode_spec(s@) is None,
        },
{
    let mut out: Vec<u8> = Vec::new();
    let mut i: usize = 0;
    proof {
        assert(s@.skip(0) =~= s@);
        if let Some(r) = b64_decode_spec(s@) {
            assert(out@ + r =~= r);
        }
    }
    while i < s.len()
        invariant
            i <= s@.len(),
            b64_decode_spec(s@) == (match b64_decode_spec(s@.skip(i as int)) {
                Some(r) => Some(out@ + r),
                None => None,
            }),
        decreases s@.len() - i,
    {
        let ghost t = s@.skip(i as int);
        let ghost o = out@;
        if s.len() - i < 4 {
            return None;
        }
        let a = b64_value_exec(s[i]);
        let b = b64_value_exec(s[i + 1]);
        let c = b64_value_exec(s[i + 2]);
        let d = b64_value_exec(s[i + 3]);
        let last = s.len() - i == 4;
        assert(t[0] == s@[i as int] && t[1] == s@[i + 1] && t[2] == s@[i + 2] && t[3] == s@[i + 3]);
        if a < 0 || b < 0 {
            return None;
        } else if last && s[i + 2] == 0x3d && s[i + 3] == 0x3d {
            out.push((a * 4 + b / 16) as u8);
            assert(out@ =~= o + seq![b64_byte0(a as int, b as int)]);
            return Some(out);
        } else if c < 0 {
            return None;
        } else if last && s[i + 3] == 0x3d {
            out.push((a * 4 + b / 16) as u8);
            out.push(((b % 16) * 16 + c / 4) as u8);
            assert(out@ =~= o + seq![b64_byte0(a as int, b as int), b64_byte1(b as int, c as int)]);
            return Some(out);
        } else if d < 0 {
            return None;
        }
        out.push((a * 4 + b / 16) as u8);
        out.push(((b % 16) * 16 + c / 4) as u8);
        out.push(((c % 4) * 64 + d) as u8);
        assert(out@ =~= o + seq![b64_byte0(a as int, b as int), b64_byte1(b as int, c as int), b64_byte2(c as int, d as int)]);
        assert(s@.skip(i as int).skip(4) =~= s@.skip(i + 4));
        i = i + 4;
    }
    assert(s@.skip(i as int) =~= Seq::<u8>::empty());
    assert(out@ + Seq::<u8>::empty() =~= out@);
    Some(out)
}

/// The base64 digit of a 6-bit value `v` (RFC 4648): `A`-`Z` for 0 to 25,
/// `a`-`z` for 26 to 51, `0`-`9` for 52 to 61, `+` and `/`.
pub open spec fn b64_digit(v: int) -> u8 {
    if v < 26 { (0x41 + v) as u8 } else if v < 52 { (0x61 + v - 26) as u8 } else if v < 62 { (0x30 + v - 52) as u8 } else if v == 62 { 0x2b } else { 0x2f }
}

proof fn lemma_b64_digit(v: int)
    requires
        0 <= v < 64,
    ensures
        b64_value(b64_digit(v)) == v,
        b64_digit(v) != 0x3d,
{
}

/// Decoding gives back the bytes that base64 encodes: three bytes `x`,
/// `y`, `z` as four digits, then one byte as two digits and `==`, or two
/// bytes as three digits and `=`.
pub proof fn lemma_b64_decodes_encoding(x: u8, y: u8, z: u8)
    ensures
        b64_decode_spec(seq![
            b64_digit((x / 4) as int),
            b64_digit((x % 4) * 16 + y / 16),
            b64_digit((y % 16) * 4 + z / 64),
            b64_digit((z % 64) as int),
        ]) == Some(seq![x, y, z]),
        b64_decode_spec(seq![b64_digit((x / 4) as int), b64_digit((x % 4) * 16), 0x3du8, 0x3du8]) == Some(seq![x]),
        b64_decode_spec(seq![b64_digit((x / 4) as int), b64_digit((x % 4) * 16 + y / 16), b64_digit((y % 16) * 4), 0x3du8])
            == Some(seq![x, y]),
{
    let v0 = x / 4;
    let v1 = (x % 4) * 16 + y / 16;
    let v2 = (y % 16) * 4 + z / 64;
    let v3 = z % 64;
    lemma_b64_digit(v0 as int);
    lemma_b64_digit(v1 as int);
    lemma_b64_digit(v2 as int);
    lemma_b64_digit(v3 as int);
    lemma_b64_digit(((x % 4) * 16) as int);
    lemma_b64_digit(((y % 16) * 4) as int);
    let s = seq![b64_digit(v0 as int), b64_digit(v1 as int), b64_digit(v2 as int), b64_digit(v3 as int)];
    assert(s.skip(4) =~= Seq::<u8>::empty());
    assert(b64_decode_spec(Seq::<u8>::empty()) == Some(Seq::<u8>::empty()));
    assert(b64_decode_spec(s.skip(4)) == Some(Seq::<u8>::empty()));
    assert(seq![x, y, z] + Seq::<u8>::empty() =~= seq![x, y, z]);
    assert(b64_byte0(v0 as int, v1 as int) == x);
    assert(b64_byte1(v1 as int, v2 as int) == y);
    assert(b64_byte2(v2 as int, v3 as int) == z);
    assert(b64_byte0(v0 as int, ((x % 4) * 16) as int) == x);
    assert(b64_byte1(v1 as int, ((y % 16) * 4) as int) == y);
}

} // verus!
