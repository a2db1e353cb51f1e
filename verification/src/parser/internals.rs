//! A character assembled byte by byte from its UTF-8 encoding.
use vstd::prelude::*;
use vstd::utf8::is_scalar;
use crate::utf8::decoder::char_from_u32;

verus! {

/// The bytes of one UTF-8 encoded character as they arrive, with the scalar
/// value they add up to. The lead byte goes first and sets the length; each
/// continuation byte is stored counting back from the end.
#[derive(Clone, Copy, Debug)]
pub struct Utf8 {
    pub inner: [u8; 4],
    pub codepoint: u32,
    pub len: u8,
}

impl Utf8 {
    /// Nothing collected.
    pub fn new() -> (u: Utf8)
        ensures
            u.inner@ == seq![0u8, 0u8, 0u8, 0u8],
            u.codepoint == 0,
            u.len == 0,
    {
        let u = Utf8 { inner: [0u8; 4], codepoint: 0, len: 0 };
        assert(u.inner@ =~= seq![0u8, 0u8, 0u8, 0u8]);
        u
    }

    /// Nothing collected.
    pub fn empty() -> (u: Utf8)
        ensures
            u.inner@ == seq![0u8, 0u8, 0u8, 0u8],
            u.codepoint == 0,
            u.len == 0,
    {
        Utf8::new()
    }

    /// U+FFFD REPLACEMENT CHARACTER, encoded `EF BF BD`.
    pub fn replacement_character() -> (u: Utf8)
        ensures
            u.inner@ == seq![0xefu8, 0xbfu8, 0xbdu8, 0u8],
            u.codepoint == 0xfffd,
            u.len == 3,
    {
        let u = Utf8 { inner: [0xef, 0xbf, 0xbd, 0], codepoint: 0xfffd, len: 3 };
        assert(u.inner@ =~= seq![0xefu8, 0xbfu8, 0xbdu8, 0u8]);
        u
    }

    /// Whether nothing is collected.
    pub fn is_empty(&self) -> (r: bool)
        ensures
            r == (self.len == 0),
    {
        self.len == 0
    }

    /// Whether a multi-byte character still waits for its last byte: the
    /// last slot is still 0.
    pub fn is_partial(&self) -> (r: bool)
        requires
            self.len <= 4,
        ensures
            r == (self.len >= 2 && self.inner@[self.len - 1] == 0),
    {
        self.len >= 2 && self.inner[(self.len - 1) as usize] == 0
    }

    fn set(&mut self, byte: u8, from: u8)
        requires
            from <= old(self).len,
            old(self).len - from < 4,
        ensures
            final(self).inner@ == old(self).inner@.update(old(self).len - from, byte),
            final(self).codepoint == old(self).codepoint,
            final(self).len == old(self).len,
    {
        let i = (self.len - from) as usize;
        self.inner[i] = byte;
    }

    fn set_top(&mut self, byte: u8, len: u8)
        requires
            len <= 4,
        ensures
            final(self).inner@ == old(self).inner@.update(0, byte),
            final(self).codepoint == old(self).codepoint,
            final(self).len == len,
    {
        self.len = len;
        self.inner[0] = byte;
    }

    /// Takes the last continuation byte (bits 0..6).
    pub fn set_byte_1(&mut self, byte: u8)
        requires
            1 <= old(self).len <= 4,
        ensures
            final(self).codepoint == old(self).codepoint | ((byte & 0x3f) as u32),
            final(self).inner@ == old(self).inner@.update(old(self).len - 1, byte),
            final(self).len == old(self).len,
    {
        self.codepoint = self.codepoint | ((byte & 0x3f) as u32);
        self.set(byte, 1);
    }

    /// Takes the lead byte of a two-byte character (bits 6..11).
    pub fn set_byte_2_top(&mut self, byte: u8)
        ensures
            final(self).codepoint == old(self).codepoint | (((byte & 0x1f) as u32) << 6u32),
            final(self).inner@ == old(self).inner@.update(0, byte),
            final(self).len == 2,
    {
        self.codepoint = self.codepoint | (((byte & 0x1f) as u32) << 6u32);
        self.set_top(byte, 2);
    }

    /// Takes the second-to-last continuation byte (bits 6..12).
    pub fn set_byte_2(&mut self, byte: u8)
        requires
            2 <= old(self).len <= 5,
        ensures
            final(self).codepoint == old(self).codepoint | (((byte & 0x3f) as u32) << 6u32),
            final(self).inner@ == old(self).inner@.update(old(self).len - 2, byte),
            final(self).len == old(self).len,
    {
        self.codepoint = self.codepoint | (((byte & 0x3f) as u32) << 6u32);
        self.set(byte, 2);
    }

    /// Takes the lead byte of a three-byte character (bits 12..16).
    pub fn set_byte_3_top(&mut self, byte: u8)
        ensures
            final(self).codepoint == old(self).codepoint | (((byte & 0x0f) as u32) << 12u32),
            final(self).inner@ == old(self).inner@.update(0, byte),
            final(self).len == 3,
    {
        self.codepoint = self.codepoint | (((byte & 0x0f) as u32) << 12u32);
        self.set_top(byte, 3);
    }

    /// Takes the third-to-last continuation byte (bits 12..18).
    pub fn set_byte_3(&mut self, byte: u8)
        requires
            3 <= old(self).len <= 6,
        ensures
            final(self).codepoint == old(self).codepoint | (((byte & 0x3f) as u32) << 12u32),
            final(self).inner@ == old(self).inner@.update(old(self).len - 3, byte),
            final(self).len == old(self).len,
    {
        self.codepoint = self.codepoint | (((byte & 0x3f) as u32) << 12u32);
        self.set(byte, 3);
    }

    /// Takes the lead byte of a four-byte character (bits 18..21).
    pub fn set_byte_4_top(&mut self, byte: u8)
        ensures
            final(self).codepoint == old(self).codepoint | (((byte & 0x07) as u32) << 18u32),
            final(self).inner@ == old(self).inner@.update(0, byte),
            final(self).len == 4,
    {
        self.codepoint = self.codepoint | (((byte & 0x07) as u32) << 18u32);
        self.set_top(byte, 4);
    }

    /// Forgets everything.
    pub fn clear(&mut self)
        ensures
            final(self).inner@ == seq![0u8, 0u8, 0u8, 0u8],
            final(self).codepoint == 0,
            final(self).len == 0,
    {
        *self = Utf8::new();
    }

    /// The character collected; its value must be a Unicode scalar value.
    pub fn as_char(&self) -> (c: char)
        requires
            is_scalar(self.codepoint),
        ensures
            c == self.codepoint as char,
    {
        match char_from_u32(self.codepoint) {
            Some(c) => c,
            None => '\u{FFFD}',
        }
    }

    /// The bytes collected.
    pub fn as_bytes(&self) -> (b: &[u8])
        requires
            self.len <= 4,
        ensures
            b@ == self.inner@.take(self.len as int),
    {
        let all = self.inner.as_slice();
        let b = vstd::slice::slice_subrange(all, 0, self.len as usize);
        assert(b@ =~= self.inner@.take(self.len as int));
        b
    }
}

} // verus!
