//! Rendering bytes for debugging output.
use vstd::prelude::*;
use crate::params::string_push;

verus! {

/// The uppercase hexadecimal digit for `d` (below 16).
pub open spec fn hex_digit(d: u8) -> char {
    if d < 10 {
        (0x30 + d) as char
    } else {
        (0x37 + d) as char
    }
}

/// `byte` as `[0xHH]` with two uppercase hex digits, in yellow
/// (`ESC [33m`) and followed by a reset (`ESC [0m`).
pub open spec fn debug_byte_spec(byte: u8) -> Seq<char> {
    seq!['\x1b', '[', '3', '3', 'm', '[', '0', 'x', hex_digit(byte / 16), hex_digit(byte % 16), ']', '\x1b', '[', '0', 'm']
}

fn hex_char(d: u8) -> (c: char)
    requires
        d < 16,
    ensures
        c == hex_digit(d),
{
    if d < 10 {
        (0x30 + d) as char
    } else {
        (0x37 + d) as char
    }
}

fn push_all(s: &mut String, cs: &[char])
    ensures
        final(s)@ == old(s)@ + cs@,
{
    let mut k: usize = 0;
    while k < cs.len()
        invariant
            k <= cs@.len(),
            s@ == old(s)@ + cs@.take(k as int),
        decreases cs@.len() - k,
    {
        string_push(s, cs[k]);
        k = k + 1;
        assert(s@ =~= old(s)@ + cs@.take(k as int));
    }
    assert(cs@.take(cs@.len() as int) =~= cs@);
}

/// `byte` as `[0xHH]` with two uppercase hex digits, in yellow and
/// followed by a reset.
pub fn debug_byte(byte: u8) -> (s: String)
    ensures
        s@ == debug_byte_spec(byte),
{
    let mut s = String::new();
    let chars = [
        '\x1b',
        '[',
        '3',
        '3',
        'm',
        '[',
        '0',
        'x',
        hex_char(byte / 16),
        hex_char(byte % 16),
        ']',
        '\x1b',
        '[',
        '0',
        'm',
    ];
    push_all(&mut s, &chars);
    assert(s@ =~= debug_byte_spec(byte));
    s
}

} // verus!
