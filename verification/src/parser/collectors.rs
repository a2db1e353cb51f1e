//! A small buffer for the bytes of one UTF-8 encoded character.
use vstd::prelude::*;

verus! {

/// Up to four bytes of one UTF-8 encoded character, and how many of them
/// are in use.
#[derive(Clone, Copy, Debug, PartialEq, Eq)]
pub struct Utf8 {
    pub inner: [u8; 4],
    pub len: usize,
}

impl Utf8 {
    /// An empty buffer.
    pub fn default() -> (u: Utf8)
        ensures
            u.inner@ == seq![0u8, 0u8, 0u8, 0u8],
            u.len == 0,
    {
        let u = Utf8 { inner: [0u8; 4], len: 0 };
        assert(u.inner@ =~= seq![0u8, 0u8, 0u8, 0u8]);
        u
    }

    /// Whether no byte is in use.
    pub fn is_empty(&self) -> (r: bool)
        ensures
            r == (self.len == 0),
    {
        self.len == 0
    }

    /// How many bytes are in use.
    pub fn len(&self) -> (n: usize)
        ensures
            n == self.len,
    {
        self.len
    }

    /// Sets how many bytes are in use.
    pub fn set_len(&mut self, len: usize)
        ensures
            final(self).len == len,
            final(self).inner == old(self).inner,
    {
        self.len = len;
    }

    /// The bytes in use; at most four can be.
    pub fn as_bytes(&self) -> (b: &[u8])
        requires
            self.len <= 4,
        ensures
            b@ == self.inner@.take(self.len as int),
    {
        let all = self.inner.as_slice();
        let b = vstd::slice::slice_subrange(all, 0, self.len);
        assert(b@ =~= self.inner@.take(self.len as int));
        b
    }

    /// The bytes in use, to change in place; at most four can be. What is
    /// left in the slice becomes the bytes in use; the unused bytes stay.
    pub fn as_mut_bytes(&mut self) -> (b: &mut [u8])
        requires
            old(self).len <= 4,
        ensures
            b@ == old(self).inner@.take(old(self).len as int),
            final(self).len == old(self).len,
            final(self).inner@ == final(b)@ + old(self).inner@.skip(old(self).len as int),
    {
        let len = self.len;
        let all: &mut [u8] = &mut self.inner;
        let (b, rest) = all.split_at_mut(len);
        b
    }

    /// Marks every byte unused.
    pub fn clear(&mut self)
        ensures
            final(self).len == 0,
            final(self).inner == old(self).inner,
    {
        self.len = 0;
    }
}

} // verus!
