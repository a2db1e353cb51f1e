//! A fixed-capacity buffer of parameter groups.
use vstd::prelude::*;

verus! {

/// The contents of a [`RawParameters`]: all values in order, and where each
/// group starts among them.
pub ghost struct RawModel {
    pub values: Seq<u16>,
    pub starts: Seq<int>,
}

/// Where group `i` ends: where the next one starts, or at the end.
pub open spec fn group_end(m: RawModel, i: int) -> int {
    if i + 1 < m.starts.len() {
        m.starts[i + 1]
    } else {
        m.values.len() as int
    }
}

/// The values of group `i`.
pub open spec fn group(m: RawModel, i: int) -> Seq<u16> {
    m.values.subrange(m.starts[i], group_end(m, i))
}

/// Group starts are in order, within the values, and the first is 0.
pub open spec fn starts_ok(m: RawModel) -> bool {
    &&& forall|i: int, j: int| 0 <= i <= j < m.starts.len() ==> 0 <= #[trigger] m.starts[i] <= #[trigger] m.starts[j]
        <= m.values.len()
    &&& m.starts.len() > 0 ==> m.starts[0] == 0
    &&& m.starts.len() == 0 ==> m.values.len() == 0
}

/// `items` with at most `room` of them kept.
pub open spec fn fitting(items: Seq<u16>, room: int) -> Seq<u16> {
    if items.len() <= room {
        items
    } else {
        items.take(room)
    }
}

/// Starting a new group after the values keeps every earlier group.
pub proof fn lemma_new_group_keeps_groups(m: RawModel, extra: Seq<u16>, i: int)
    requires
        starts_ok(m),
        0 <= i < m.starts.len(),
    ensures
        group(RawModel { values: m.values + extra, starts: m.starts.push(m.values.len() as int) }, i)
            == group(m, i),
{
    let m2 = RawModel { values: m.values + extra, starts: m.starts.push(m.values.len() as int) };
    assert(m.starts[i] <= group_end(m, i) <= m.values.len());
    assert(group_end(m2, i) == group_end(m, i));
    assert(group(m2, i) =~= group(m, i));
}

/// Appending to the last group keeps every group before it.
pub proof fn lemma_extend_keeps_groups(m: RawModel, extra: Seq<u16>, i: int)
    requires
        starts_ok(m),
        0 <= i < m.starts.len() - 1,
    ensures
        group(RawModel { values: m.values + extra, starts: m.starts }, i) == group(m, i),
{
    let m2 = RawModel { values: m.values + extra, starts: m.starts };
    assert(m.starts[i] <= m.starts[i + 1] <= m.values.len());
    assert(group(m2, i) =~= group(m, i));
}

/// The capacity of a [`RawParameters`] was exceeded.
#[derive(Clone, Copy, PartialEq, Eq, Structural, Debug)]
pub enum ParamsError {
    Overflow,
}

/// A fixed-capacity buffer of parameter groups: at most `N` values in all
/// and at most `M` groups.
pub struct RawParameters<const N: usize, const M: usize> {
    inner: Vec<u16>,
    starts: Vec<usize>,
    inner_len: usize,
    starts_len: usize,
}

impl<const N: usize, const M: usize> View for RawParameters<N, M> {
    type V = RawModel;

    closed spec fn view(&self) -> RawModel {
        RawModel {
            values: self.inner@.take(self.inner_len as int),
            starts: self.starts@.take(self.starts_len as int).map_values(|s: usize| s as int),
        }
    }
}

impl<const N: usize, const M: usize> RawParameters<N, M> {
    /// The buffer is consistent: the group starts are in order, within the
    /// values and followed by the end of the last group, and a group
    /// boundary is always left free.
    pub closed spec fn wf(&self) -> bool {
        &&& self.inner@.len() == N
        &&& self.starts@.len() == M + 1
        &&& self.inner_len <= N
        &&& self.starts_len <= M
        &&& self.starts_len > 0 ==> self.starts@[self.starts_len as int] == self.inner_len
        &&& forall|i: int, j: int| 0 <= i <= j < self.starts_len ==> #[trigger] self.starts@[i]
            <= #[trigger] self.starts@[j] <= self.inner_len
        &&& self.starts_len > 0 ==> self.starts@[0] == 0
        &&& self.starts_len == 0 ==> self.inner_len == 0
    }

    proof fn lemma_view(&self)
        requires
            self.wf(),
        ensures
            self@.values.len() == self.inner_len,
            self@.starts.len() == self.starts_len,
            forall|i: int| 0 <= i < self.starts_len ==> #[trigger] self@.starts[i] == self.starts@[i] as int,
            forall|i: int| 0 <= i < self.inner_len ==> #[trigger] self@.values[i] == self.inner@[i],
            starts_ok(self@),
            forall|i: int| 0 <= i < self.starts_len ==> #[trigger] group_end(self@, i)
                == self.starts@[i + 1] as int,
    {
    }

    /// A consistent buffer has its group starts in order, within the values,
    /// with the first at 0; it holds at most `M` groups and `N` values.
    pub proof fn lemma_consistent(&self)
        requires
            self.wf(),
        ensures
            starts_ok(self@),
            self@.starts.len() <= M,
            self@.values.len() <= N,
    {
        self.lemma_view();
    }

    /// An empty buffer.
    pub fn new() -> (p: Self)
        ensures
            p.wf(),
            p@.values == Seq::<u16>::empty(),
            p@.starts == Seq::<int>::empty(),
    {
        let mut inner: Vec<u16> = Vec::new();
        while inner.len() < N
            invariant
                inner@.len() <= N,
            decreases N - inner@.len(),
        {
            inner.push(0);
        }
        let mut starts: Vec<usize> = Vec::new();
        while starts.len() <= M
            invariant
                starts@.len() <= M + 1,
            decreases M + 1 - starts@.len(),
        {
            starts.push(0);
        }
        let p = RawParameters { inner, starts, inner_len: 0, starts_len: 0 };
        assert(p@.values =~= Seq::<u16>::empty());
        assert(p@.starts =~= Seq::<int>::empty());
        p
    }

    /// An empty buffer.
    pub fn default() -> (p: Self)
        ensures
            p.wf(),
            p@.values == Seq::<u16>::empty(),
            p@.starts == Seq::<int>::empty(),
    {
        Self::new()
    }

    /// The values of group `index`; the group must exist.
    pub fn get_unchecked(&self, index: usize) -> (g: &[u16])
        requires
            self.wf(),
            index < self@.starts.len(),
        ensures
            g@ == group(self@, index as int),
    {
        proof { self.lemma_view(); }
        let start = self.starts[index];
        let end = self.starts[index + 1];
        let all = self.inner.as_slice();
        let g = vstd::slice::slice_subrange(all, start, end);
        assert(g@ =~= group(self@, index as int));
        g
    }

    /// The values of group `index`, to change in place; the group must exist.
    /// What is left in the slice becomes group `index`, and the boundaries
    /// and the other groups stay as they were. Of a slice that keeps its
    /// length, the buffer stays consistent.
    pub fn get_unchecked_mut(&mut self, index: usize) -> (g: &mut [u16])
        requires
            old(self).wf(),
            index < old(self)@.starts.len(),
        ensures
            g@ == group(old(self)@, index as int),
            final(g)@.len() == g@.len() ==> {
                &&& final(self).wf()
                &&& final(self)@.starts == old(self)@.starts
                &&& final(self)@.values == old(self)@.values.subrange(0, old(self)@.starts[index as int])
                    + final(g)@ + old(self)@.values.subrange(
                    group_end(old(self)@, index as int),
                    old(self)@.values.len() as int,
                )
            },
    {
        proof { self.lemma_view(); }
        let start = self.starts[index];
        let end = self.starts[index + 1];
        let all = self.inner.as_mut_slice();
        let (head, rest) = all.split_at_mut(start);
        let (g, tail) = rest.split_at_mut(end - start);
        assert(g@ =~= group(old(self)@, index as int));
        g
    }

    /// The values of group `index` to change in place, if there is such a
    /// group; as with `get_unchecked_mut`.
    pub fn get_mut(&mut self, index: usize) -> (g: Option<&mut [u16]>)
        requires
            old(self).wf(),
        ensures
            index >= old(self)@.starts.len() ==> g.is_none() && *final(self) == *old(self),
            index < old(self)@.starts.len() ==> {
                &&& g.is_some()
                &&& g.unwrap()@ == group(old(self)@, index as int)
                &&& final(g.unwrap())@.len() == g.unwrap()@.len() ==> {
                    &&& final(self).wf()
                    &&& final(self)@.starts == old(self)@.starts
                    &&& final(self)@.values == old(self)@.values.subrange(0, old(self)@.starts[index as int])
                        + final(g.unwrap())@ + old(self)@.values.subrange(
                        group_end(old(self)@, index as int),
                        old(self)@.values.len() as int,
                    )
                }
            },
    {
        proof { self.lemma_view(); }
        if index >= self.starts_len {
            return None;
        }
        Some(self.get_unchecked_mut(index))
    }

    /// The values of group `index`, if there is such a group.
    pub fn get(&self, index: usize) -> (g: Option<&[u16]>)
        requires
            self.wf(),
        ensures
            index < self@.starts.len() ==> g.is_some() && g.unwrap()@ == group(self@, index as int),
            index >= self@.starts.len() ==> g.is_none(),
    {
        proof { self.lemma_view(); }
        if index >= self.starts_len {
            return None;
        }
        Some(self.get_unchecked(index))
    }

    /// The buffer is consistent except, possibly, for the end of the last
    /// group.
    closed spec fn wf_open(&self) -> bool {
        &&& self.inner@.len() == N
        &&& self.starts@.len() == M + 1
        &&& self.inner_len <= N
        &&& 0 < self.starts_len <= M
        &&& forall|i: int, j: int| 0 <= i <= j < self.starts_len ==> #[trigger] self.starts@[i]
            <= #[trigger] self.starts@[j] <= self.inner_len
        &&& self.starts@[0] == 0
    }

    /// Appends as many of `items` as fit to the last group and records where
    /// it ends; reports whether all of them fit.
    fn append(&mut self, items: &[u16]) -> (all: bool)
        requires
            old(self).wf_open(),
        ensures
            final(self).wf(),
            final(self)@ == (RawModel {
                values: old(self)@.values + fitting(items@, N - old(self)@.values.len()),
                starts: old(self)@.starts,
            }),
            all == (items@.len() <= N - old(self)@.values.len()),
    {
        let ghost m = self@;
        let ghost base = self.inner_len as int;
        let room: usize = N - self.inner_len;
        let take: usize = if items.len() <= room { items.len() } else { room };
        let mut k: usize = 0;
        while k < take
            invariant
                self.wf_open(),
                self.starts_len == old(self).starts_len,
                self.starts@ == old(self).starts@,
                take <= items@.len(),
                take <= room,
                room == N - base,
                self.inner_len == base + k,
                k <= take,
                self.inner@.take(self.inner_len as int) == old(self).inner@.take(base) + items@.take(k as int),
            decreases take - k,
        {
            let ghost prev = self.inner@;
            let ghost kk = k as int;
            assert(prev.take(base + kk) == old(self).inner@.take(base) + items@.take(kk));
            self.inner.set(self.inner_len, items[k]);
            self.inner_len = self.inner_len + 1;
            k = k + 1;
            proof {
                let lhs = self.inner@.take(base + kk + 1);
                let rhs = old(self).inner@.take(base) + items@.take(kk + 1);
                assert forall|i: int| 0 <= i < base + kk + 1 implies lhs[i] == rhs[i] by {
                    if i < base + kk {
                        assert(prev.take(base + kk)[i] == lhs[i]);
                    }
                }
                assert(lhs =~= rhs);
            }
        }
        self.starts.set(self.starts_len, self.inner_len);
        proof {
            assert(items@.take(take as int) =~= fitting(items@, N - base));
            assert(self@.values =~= m.values + fitting(items@, N - base));
            assert(self@.starts =~= m.starts);
        }
        take == items.len()
    }

    /// Opens a new group at the end of the values.
    fn open_group(&mut self)
        requires
            old(self).wf(),
            old(self).inner_len < N,
            old(self).starts_len < M,
        ensures
            final(self).wf_open(),
            final(self)@ == (RawModel { values: old(self)@.values, starts: old(self)@.starts.push(old(self)@.values.len() as int) }),
    {
        proof { self.lemma_view(); }
        let ghost m = self@;
        self.starts.set(self.starts_len, self.inner_len);
        self.starts_len = self.starts_len + 1;
        proof {
            assert(self@.starts =~= m.starts.push(m.values.len() as int));
            assert(self@.values =~= m.values);
        }
    }

    /// Starts a new group holding `items`, as far as they fit. Fails,
    /// changing nothing, when the values or the group boundaries are full;
    /// fails after keeping the items that fit when not all of them do.
    pub fn try_push(&mut self, items: &[u16]) -> (r: Result<(), ParamsError>)
        requires
            old(self).wf(),
        ensures
            final(self).wf(),
            ({
                let m = old(self)@;
                if m.values.len() >= N || m.starts.len() >= M {
                    r is Err && final(self)@ == m
                } else {
                    &&& final(self)@ == (RawModel {
                        values: m.values + fitting(items@, N - m.values.len()),
                        starts: m.starts.push(m.values.len() as int),
                    })
                    &&& (r is Ok <==> items@.len() <= N - m.values.len())
                }
            }),
    {
        proof { self.lemma_view(); }
        if self.inner_len >= N || self.starts_len >= M {
            return Err(ParamsError::Overflow);
        }
        self.open_group();
        if self.append(items) {
            Ok(())
        } else {
            Err(ParamsError::Overflow)
        }
    }

    /// Starts a new group holding `val`. Fails, changing nothing, when the
    /// values or the group boundaries are full.
    pub fn try_push_one(&mut self, val: u16) -> (r: Result<(), ParamsError>)
        requires
            old(self).wf(),
        ensures
            final(self).wf(),
            ({
                let m = old(self)@;
                if m.values.len() >= N || m.starts.len() >= M {
                    r is Err && final(self)@ == m
                } else {
                    r is Ok && final(self)@ == (RawModel {
                        values: m.values.push(val),
                        starts: m.starts.push(m.values.len() as int),
                    })
                }
            }),
    {
        proof { self.lemma_view(); }
        if self.starts_len >= M || self.inner_len >= N {
            return Err(ParamsError::Overflow);
        }
        let one = [val];
        proof { assert(fitting(one@, N - self@.values.len()) =~= seq![val]); }
        self.open_group();
        let _ = self.append(&one);
        proof { assert(old(self)@.values + seq![val] =~= old(self)@.values.push(val)); }
        Ok(())
    }

    /// Appends `items` to the last group, as far as they fit, or starts the
    /// first group with them. Fails, changing nothing, when the values or
    /// the group boundaries are full; fails after keeping the items that
    /// fit when not all of them do.
    pub fn try_extend(&mut self, items: &[u16]) -> (r: Result<(), ParamsError>)
        requires
            old(self).wf(),
        ensures
            final(self).wf(),
            ({
                let m = old(self)@;
                if m.values.len() >= N || m.starts.len() >= M {
                    r is Err && final(self)@ == m
                } else {
                    &&& final(self)@ == (RawModel {
                        values: m.values + fitting(items@, N - m.values.len()),
                        starts: if m.starts.len() == 0 { seq![0int] } else { m.starts },
                    })
                    &&& (r is Ok <==> items@.len() <= N - m.values.len())
                }
            }),
    {
        proof { self.lemma_view(); }
        if self.starts_len >= M || self.inner_len >= N {
            return Err(ParamsError::Overflow);
        }
        if self.starts_len == 0 {
            proof { assert(self@.starts.push(0int) =~= seq![0int]); }
            return self.try_push(items);
        }
        if self.append(items) {
            Ok(())
        } else {
            Err(ParamsError::Overflow)
        }
    }

    /// Appends `val` to the last group, or starts the first group with it.
    /// Fails, changing nothing, when the values or the group boundaries are
    /// full.
    pub fn try_extend_one(&mut self, val: u16) -> (r: Result<(), ParamsError>)
        requires
            old(self).wf(),
        ensures
            final(self).wf(),
            ({
                let m = old(self)@;
                if m.values.len() >= N || m.starts.len() >= M {
                    r is Err && final(self)@ == m
                } else {
                    r is Ok && final(self)@ == (RawModel {
                        values: m.values.push(val),
                        starts: if m.starts.len() == 0 { seq![0int] } else { m.starts },
                    })
                }
            }),
    {
        proof { self.lemma_view(); }
        if self.starts_len >= M || self.inner_len >= N {
            return Err(ParamsError::Overflow);
        }
        if self.starts_len == 0 {
            proof { assert(self@.starts.push(0int) =~= seq![0int]); }
            return self.try_push_one(val);
        }
        let one = [val];
        proof { assert(fitting(one@, N - self@.values.len()) =~= seq![val]); }
        let _ = self.append(&one);
        proof { assert(old(self)@.values + seq![val] =~= old(self)@.values.push(val)); }
        Ok(())
    }

    /// Starts a new group holding `items`; they must fit.
    pub fn push(&mut self, items: &[u16])
        requires
            old(self).wf(),
            old(self)@.values.len() < N,
            old(self)@.values.len() + items@.len() <= N,
            old(self)@.starts.len() < M,
        ensures
            final(self).wf(),
            final(self)@ == (RawModel {
                values: old(self)@.values + items@,
                starts: old(self)@.starts.push(old(self)@.values.len() as int),
            }),
    {
        let _ = self.try_push(items);
    }

    /// Appends `items` to the last group, or starts the first group with
    /// them; they must fit.
    pub fn extend(&mut self, items: &[u16])
        requires
            old(self).wf(),
            old(self)@.values.len() < N,
            old(self)@.values.len() + items@.len() <= N,
            old(self)@.starts.len() < M,
        ensures
            final(self).wf(),
            final(self)@ == (RawModel {
                values: old(self)@.values + items@,
                starts: if old(self)@.starts.len() == 0 { seq![0int] } else { old(self)@.starts },
            }),
    {
        let _ = self.try_extend(items);
    }

    /// Starts a new group holding `val`; it must fit.
    pub fn push_one(&mut self, val: u16)
        requires
            old(self).wf(),
            old(self)@.values.len() < N,
            old(self)@.starts.len() < M,
        ensures
            final(self).wf(),
            final(self)@ == (RawModel {
                values: old(self)@.values.push(val),
                starts: old(self)@.starts.push(old(self)@.values.len() as int),
            }),
    {
        let _ = self.try_push_one(val);
    }

    /// Appends `val` to the last group, or starts the first group with it;
    /// it must fit.
    pub fn extend_one(&mut self, val: u16)
        requires
            old(self).wf(),
            old(self)@.values.len() < N,
            old(self)@.starts.len() < M,
        ensures
            final(self).wf(),
            final(self)@ == (RawModel {
                values: old(self)@.values.push(val),
                starts: if old(self)@.starts.len() == 0 { seq![0int] } else { old(self)@.starts },
            }),
    {
        let _ = self.try_extend_one(val);
    }

    /// The number of groups.
    pub fn len(&self) -> (n: usize)
        requires
            self.wf(),
        ensures
            n == self@.starts.len(),
    {
        proof { self.lemma_view(); }
        self.starts_len
    }

    /// Whether there is no group.
    pub fn is_empty(&self) -> (r: bool)
        requires
            self.wf(),
        ensures
            r == (self@.starts.len() == 0),
    {
        proof { self.lemma_view(); }
        self.starts_len == 0
    }

    /// All values, in order.
    pub fn values(&self) -> (v: &[u16])
        requires
            self.wf(),
        ensures
            v@ == self@.values,
    {
        self.as_slice()
    }

    /// The first group, if any.
    pub fn first(&self) -> (g: Option<&[u16]>)
        requires
            self.wf(),
        ensures
            self@.starts.len() > 0 ==> g.is_some() && g.unwrap()@ == group(self@, 0),
            self@.starts.len() == 0 ==> g.is_none(),
    {
        self.get(0)
    }

    /// The last group, if any.
    pub fn last(&self) -> (g: Option<&[u16]>)
        requires
            self.wf(),
        ensures
            self@.starts.len() > 0 ==> g.is_some() && g.unwrap()@ == group(self@, self@.starts.len() - 1),
            self@.starts.len() == 0 ==> g.is_none(),
    {
        proof { self.lemma_view(); }
        let n = self.len();
        let i = if n == 0 { 0 } else { n - 1 };
        self.get(i)
    }

    /// Removes every group and value.
    pub fn clear(&mut self)
        requires
            old(self).wf(),
        ensures
            final(self).wf(),
            final(self)@.values == Seq::<u16>::empty(),
            final(self)@.starts == Seq::<int>::empty(),
    {
        self.inner_len = 0;
        self.starts_len = 0;
        assert(self@.values =~= Seq::<u16>::empty());
        assert(self@.starts =~= Seq::<int>::empty());
    }

    /// All values, in order.
    pub fn as_slice(&self) -> (v: &[u16])
        requires
            self.wf(),
        ensures
            v@ == self@.values,
    {
        proof { self.lemma_view(); }
        let all = self.inner.as_slice();
        let v = vstd::slice::slice_subrange(all, 0, self.inner_len);
        assert(v@ =~= self@.values);
        v
    }
}

} // verus!
