//! A borrowed view of slices stored back to back, split by boundary indices.
use vstd::prelude::*;
use vstd::slice::slice_subrange;

verus! {

/// Whether `indices` bound `len` values: there is at least one index, the
/// first is 0 and the last is `len`.
pub open spec fn bounds(indices: Seq<usize>, len: nat) -> bool {
    &&& indices.len() > 0
    &&& indices[0] == 0
    &&& indices.last() == len
}

/// Whether `indices` split `len` values into consecutive slices: they bound
/// the values and never decrease.
pub open spec fn splits(indices: Seq<usize>, len: nat) -> bool {
    &&& bounds(indices, len)
    &&& forall|i: int, j: int| 0 <= i <= j < indices.len() ==> #[trigger] indices[i] <= #[trigger] indices[j]
}

/// A borrowed nested structure: slice `i` holds the values from
/// `indices[i]` up to `indices[i + 1]`.
pub struct NestedSlice<'a, T> {
    indices: &'a [usize],
    values: &'a [T],
}

impl<'a, T> NestedSlice<'a, T> {
    /// The boundary indices.
    pub closed spec fn spec_indices(&self) -> Seq<usize> {
        self.indices@
    }

    /// All values, back to back.
    pub closed spec fn spec_values(&self) -> Seq<T> {
        self.values@
    }

    /// The indices bound the values.
    pub open spec fn wf(&self) -> bool {
        bounds(self.spec_indices(), self.spec_values().len())
    }

    /// The indices split the values into slices: they bound them and never
    /// decrease.
    pub open spec fn split(&self) -> bool {
        splits(self.spec_indices(), self.spec_values().len())
    }

    /// The number of slices.
    pub open spec fn spec_len(&self) -> nat {
        (self.spec_indices().len() - 1) as nat
    }

    /// Slice `i`.
    pub open spec fn slice_at(&self, i: int) -> Seq<T> {
        self.spec_values().subrange(self.spec_indices()[i] as int, self.spec_indices()[i + 1] as int)
    }

    /// Creates a nested slice from boundary indices and values: there must
    /// be an index, the first 0 and the last the number of values.
    pub fn new(indices: &'a [usize], values: &'a [T]) -> (n: Self)
        requires
            bounds(indices@, values@.len()),
        ensures
            n.wf(),
            n.spec_indices() == indices@,
            n.spec_values() == values@,
    {
        NestedSlice { indices, values }
    }

    /// The number of slices.
    pub fn len(&self) -> (n: usize)
        requires
            self.wf(),
        ensures
            n == self.spec_len(),
    {
        self.indices.len() - 1
    }

    /// The number of values across all slices.
    pub fn count(&self) -> (n: usize)
        ensures
            n == self.spec_values().len(),
    {
        self.values.len()
    }

    /// Whether there is no slice.
    pub fn is_empty(&self) -> (r: bool)
        requires
            self.wf(),
        ensures
            r == (self.spec_len() == 0),
    {
        self.len() == 0
    }

    /// Slice `index`, if there is one; the indices must never decrease.
    pub fn get(&self, index: usize) -> (s: Option<&'a [T]>)
        requires
            self.wf(),
            self.split(),
        ensures
            index < self.spec_len() ==> s.is_some() && s.unwrap()@ == self.slice_at(index as int),
            index >= self.spec_len() ==> s.is_none(),
    {
        if index >= self.len() {
            None
        } else {
            let start = self.indices[index];
            let end = self.indices[index + 1];
            Some(slice_subrange(self.values, start, end))
        }
    }

    /// The slices, one after another; the indices must never decrease.
    pub fn iter(&self) -> (it: NestedSliceIterator<'a, T>)
        requires
            self.wf(),
            self.split(),
        ensures
            it.wf(),
            it.spec_indices() == self.spec_indices(),
            it.spec_values() == self.spec_values(),
            it.position() == 0,
            it.end() == self.spec_len(),
    {
        NestedSliceIterator { values: self.values, indices: self.indices, next: 0, back: self.indices.len() - 1 }
    }

    /// All values, back to back.
    pub fn values(&self) -> (v: &[T])
        ensures
            v@ == self.spec_values(),
    {
        self.values
    }

    /// The boundary indices.
    pub fn indices(&self) -> (i: &[usize])
        ensures
            i@ == self.spec_indices(),
    {
        self.indices
    }

    /// All values, back to back.
    pub fn as_slice(&self) -> (v: &'a [T])
        ensures
            v@ == self.spec_values(),
    {
        self.values
    }

    /// The boundary indices.
    pub fn as_indices(&self) -> (i: &[usize])
        ensures
            i@ == self.spec_indices(),
    {
        self.indices
    }

    /// All values, back to back.
    pub fn as_values(&self) -> (v: &[T])
        ensures
            v@ == self.spec_values(),
    {
        self.values
    }
}

/// The slices of a [`NestedSlice`], one after another, taken from the front
/// or from the back.
pub struct NestedSliceIterator<'a, T> {
    values: &'a [T],
    indices: &'a [usize],
    next: usize,
    back: usize,
}

impl<'a, T> NestedSliceIterator<'a, T> {
    /// The boundary indices.
    pub closed spec fn spec_indices(&self) -> Seq<usize> {
        self.indices@
    }

    /// All values, back to back.
    pub closed spec fn spec_values(&self) -> Seq<T> {
        self.values@
    }

    /// How many slices were handed out from the front.
    pub closed spec fn position(&self) -> nat {
        self.next as nat
    }

    /// Where the slices not yet handed out from the back end.
    pub closed spec fn end(&self) -> nat {
        self.back as nat
    }

    /// The indices split the values, and the slices left lie between the
    /// front position and the back end.
    pub closed spec fn wf(&self) -> bool {
        &&& splits(self.indices@, self.values@.len())
        &&& self.next <= self.back
        &&& self.back < self.indices@.len()
    }

    /// Slice `i` of the values.
    pub open spec fn slice_at(&self, i: int) -> Seq<T> {
        self.spec_values().subrange(self.spec_indices()[i] as int, self.spec_indices()[i + 1] as int)
    }

    /// The next slice from the front, if any is left.
    pub fn next(&mut self) -> (s: Option<&'a [T]>)
        requires
            old(self).wf(),
        ensures
            final(self).wf(),
            final(self).spec_indices() == old(self).spec_indices(),
            final(self).spec_values() == old(self).spec_values(),
            final(self).end() == old(self).end(),
            old(self).position() < old(self).end() ==> {
                &&& s.is_some()
                &&& s.unwrap()@ == old(self).slice_at(old(self).position() as int)
                &&& final(self).position() == old(self).position() + 1
            },
            old(self).position() >= old(self).end() ==> s.is_none() && final(self).position()
                == old(self).position(),
    {
        if self.next >= self.back {
            None
        } else {
            let start = self.indices[self.next];
            let end = self.indices[self.next + 1];
            self.next = self.next + 1;
            Some(slice_subrange(self.values, start, end))
        }
    }

    /// The next slice from the back, if any is left.
    pub fn next_back(&mut self) -> (s: Option<&'a [T]>)
        requires
            old(self).wf(),
        ensures
            final(self).wf(),
            final(self).spec_indices() == old(self).spec_indices(),
            final(self).spec_values() == old(self).spec_values(),
            final(self).position() == old(self).position(),
            old(self).position() < old(self).end() ==> {
                &&& s.is_some()
                &&& s.unwrap()@ == old(self).slice_at(old(self).end() - 1)
                &&& final(self).end() == old(self).end() - 1
            },
            old(self).position() >= old(self).end() ==> s.is_none() && final(self).end() == old(self).end(),
    {
        if self.next >= self.back {
            None
        } else {
            self.back = self.back - 1;
            let start = self.indices[self.back];
            let end = self.indices[self.back + 1];
            Some(slice_subrange(self.values, start, end))
        }
    }

    /// How many slices are left.
    pub fn len(&self) -> (n: usize)
        requires
            self.wf(),
        ensures
            n == self.end() - self.position(),
    {
        self.back - self.next
    }
}

} // verus!
