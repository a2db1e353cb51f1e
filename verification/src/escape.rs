use vstd::prelude::*;

verus! {

/// A value that has an ANSI escape encoding.
pub trait Escape: Sized + Copy {
    /// The bytes that `escape` writes for this value.
    spec fn escaped(&self) -> Seq<u8>;

    /// Appends the escape encoding of this value to `out`.
    fn escape(&self, out: &mut Vec<u8>)
        ensures
            final(out)@ == old(out)@ + self.escaped(),
    ;
}

/// Appends the escape encoding of `value` to `out`.
pub fn escape<E: Escape>(out: &mut Vec<u8>, value: E)
    ensures
        final(out)@ == old(out)@ + value.escaped(),
{
    value.escape(out);
}

} // verus!
