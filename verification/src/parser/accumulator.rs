//! Fixed-capacity storage for control-sequence parameters and intermediates,
//! and the accumulator that turns a parameter string into [`Param`]s.
use vstd::prelude::*;
use arrayvec::ArrayVec;
use crate::params::Param;

verus! {

#[verifier::external_type_specification]
#[verifier::external_body]
#[verifier::reject_recursive_types(T)]
pub struct ExArrayVec<T, const CAP: usize>(ArrayVec<T, CAP>);

/// The parameters held by an `ArrayVec<Param, 32>`, in order.
pub uninterp spec fn param_slots(v: ArrayVec<Param, 32>) -> Seq<Param>;

/// The bytes held by an `ArrayVec<u8, 2>`, in order.
pub uninterp spec fn intermediate_slots(v: ArrayVec<u8, 2>) -> Seq<u8>;

/// `ArrayVec::new`: an empty vector of parameters.
#[verifier::external_body]
fn param_slots_new() -> (v: ArrayVec<Param, 32>)
    ensures
        param_slots(v) == Seq::<Param>::empty(),
{
    ArrayVec::new()
}

/// `ArrayVec::try_push`: appends `p` when fewer than 32 parameters are held
/// and reports whether it did; a full vector is left as it was.
#[verifier::external_body]
fn param_slots_try_push(v: &mut ArrayVec<Param, 32>, p: Param) -> (pushed: bool)
    ensures
        pushed == (param_slots(*old(v)).len() < 32),
        pushed ==> param_slots(*final(v)) == param_slots(*old(v)).push(p),
        !pushed ==> param_slots(*final(v)) == param_slots(*old(v)),
        param_slots(*old(v)).len() <= 32 ==> param_slots(*final(v)).len() <= 32,
    no_unwind
{
    v.try_push(p).is_ok()
}

/// `ArrayVec::clear`: removes every parameter.
#[verifier::external_body]
fn param_slots_clear(v: &mut ArrayVec<Param, 32>)
    ensures
        param_slots(*final(v)) == Seq::<Param>::empty(),
    no_unwind
{
    v.clear()
}

/// `ArrayVec::as_slice`: the held parameters, in order.
#[verifier::external_body]
fn param_slots_as_slice(v: &ArrayVec<Param, 32>) -> (s: &[Param])
    ensures
        s@ == param_slots(*v),
{
    v.as_slice()
}

/// `ArrayVec::new`: an empty vector of intermediate bytes.
#[verifier::external_body]
pub(crate) fn intermediate_slots_new() -> (v: ArrayVec<u8, 2>)
    ensures
        intermediate_slots(v) == Seq::<u8>::empty(),
{
    ArrayVec::new()
}

/// `ArrayVec::push`: appends `b`; it panics on a full vector, so the vector
/// must hold fewer than two bytes.
#[verifier::external_body]
pub(crate) fn intermediate_slots_push(v: &mut ArrayVec<u8, 2>, b: u8)
    requires
        intermediate_slots(*old(v)).len() < 2,
    ensures
        intermediate_slots(*final(v)) == intermediate_slots(*old(v)).push(b),
{
    v.push(b)
}

/// `ArrayVec::clear`: removes every byte.
#[verifier::external_body]
pub(crate) fn intermediate_slots_clear(v: &mut ArrayVec<u8, 2>)
    ensures
        intermediate_slots(*final(v)) == Seq::<u8>::empty(),
{
    v.clear()
}

/// `ArrayVec::as_slice`: the held bytes, in order.
#[verifier::external_body]
pub(crate) fn intermediate_slots_as_slice(v: &ArrayVec<u8, 2>) -> (s: &[u8])
    ensures
        s@ == intermediate_slots(*v),
{
    v.as_slice()
}

/// The state of a [`ParametersAccumulator`].
pub ghost struct AccumulatorModel {
    /// The finished parameters.
    pub items: Seq<Param>,
    /// The value being built from digits, if a digit was seen.
    pub current: Option<u16>,
    /// Whether a `:` was seen since the last `;`.
    pub in_group: bool,
    /// Whether a `;` opened a main parameter that has no value yet.
    pub is_pending: bool,
}

/// The empty accumulator.
pub open spec fn acc_empty() -> AccumulatorModel {
    AccumulatorModel { items: Seq::empty(), current: None, in_group: false, is_pending: false }
}

/// `items` with `p` appended when it holds fewer than 32 parameters.
pub open spec fn capped_push(items: Seq<Param>, p: Param) -> Seq<Param> {
    if items.len() < 32 {
        items.push(p)
    } else {
        items
    }
}

/// `a * 10 + d`, saturating at `u16::MAX` after each step.
pub open spec fn saturating_digit(a: u16, d: u8) -> u16 {
    let m: int = if a * 10 > 0xffff { 0xffff } else { a * 10 };
    let s: int = m + (d - 0x30);
    if s > 0xffff { 0xffff } else { s as u16 }
}

/// The accumulator after the ASCII digit `d`.
pub open spec fn acc_push_digit(m: AccumulatorModel, d: u8) -> AccumulatorModel {
    let c = match m.current { Some(v) => v, None => 0u16 };
    AccumulatorModel { current: Some(saturating_digit(c, d)), ..m }
}

/// The accumulator after closing the value `v`: a sub-parameter inside a
/// group, else a main parameter.
pub open spec fn acc_flush_value(m: AccumulatorModel, v: u16) -> AccumulatorModel {
    if m.in_group {
        AccumulatorModel { items: capped_push(m.items, Param::Sub(v)), ..m }
    } else {
        AccumulatorModel { items: capped_push(m.items, Param::Main(v)), ..m }
    }
}

/// The accumulator after closing `v` followed by `:`: inside a group it is a
/// sub-parameter; otherwise it opens a group, if it fits.
pub open spec fn acc_flush_sub(m: AccumulatorModel, v: u16) -> AccumulatorModel {
    if m.in_group {
        AccumulatorModel { items: capped_push(m.items, Param::Sub(v)), ..m }
    } else if m.items.len() < 32 {
        AccumulatorModel { items: m.items.push(Param::Main(v)), in_group: true, ..m }
    } else {
        m
    }
}

/// The accumulator after `:`.
pub open spec fn acc_push_sub(m: AccumulatorModel) -> AccumulatorModel {
    let v = match m.current { Some(v) => v, None => 0u16 };
    acc_flush_sub(AccumulatorModel { current: None, ..m }, v)
}

/// The accumulator after `;`.
pub open spec fn acc_push_main(m: AccumulatorModel) -> AccumulatorModel {
    let taken = AccumulatorModel { current: None, ..m };
    let closed = match m.current {
        Some(v) => acc_flush_value(taken, v),
        None => if m.in_group {
            acc_flush_sub(taken, 0)
        } else {
            AccumulatorModel { items: capped_push(m.items, Param::Main(0)), ..taken }
        },
    };
    AccumulatorModel { in_group: false, is_pending: true, ..closed }
}

/// The accumulator after the final byte: the value in flight, an empty
/// sub-parameter or an open `;` slot is closed.
pub open spec fn acc_flush(m: AccumulatorModel) -> AccumulatorModel {
    let taken = AccumulatorModel { current: None, ..m };
    match m.current {
        Some(v) => acc_flush_value(taken, v),
        None => if m.in_group {
            acc_flush_sub(taken, 0)
        } else if m.is_pending {
            AccumulatorModel { items: capped_push(m.items, Param::Main(0)), ..taken }
        } else {
            taken
        },
    }
}

/// The accumulator after each byte of a parameter string (digits, `:`, `;`;
/// other bytes are skipped).
pub open spec fn acc_feed(m: AccumulatorModel, s: Seq<u8>) -> AccumulatorModel
    decreases s.len(),
{
    if s.len() == 0 {
        m
    } else {
        let b = s.last();
        let prev = acc_feed(m, s.drop_last());
        if 0x30 <= b && b <= 0x39 {
            acc_push_digit(prev, b)
        } else if b == 0x3a {
            acc_push_sub(prev)
        } else if b == 0x3b {
            acc_push_main(prev)
        } else {
            prev
        }
    }
}

/// Values saturate: a digit appended to `a` gives `10 * a + digit`, or
/// `u16::MAX` when that does not fit.
pub proof fn lemma_digit_saturates(a: u16, d: u8)
    requires
        0x30 <= d <= 0x39,
    ensures
        saturating_digit(a, d) == (if 10 * a + (d - 0x30) > 0xffff { 0xffff } else { 10 * a + (d - 0x30) }),
{
}

/// Closing a value, opening a group, `:`, `;` and the final flush only ever
/// append: the parameters already finished stay as they are.
pub proof fn lemma_ops_extend(m: AccumulatorModel, b: u8)
    ensures
        acc_push_digit(m, b).items == m.items,
        m.items.is_prefix_of(acc_push_sub(m).items),
        m.items.is_prefix_of(acc_push_main(m).items),
        m.items.is_prefix_of(acc_flush(m).items),
        m.items.len() <= 32 ==> acc_push_sub(m).items.len() <= 32,
        m.items.len() <= 32 ==> acc_push_main(m).items.len() <= 32,
        m.items.len() <= 32 ==> acc_flush(m).items.len() <= 32,
{
    assert(m.items.is_prefix_of(m.items.push(Param::Main(0))));
    assert(m.items.is_prefix_of(m.items));
    assert forall|p: Param| m.items.is_prefix_of(#[trigger] m.items.push(p)) by {
        assert(m.items.push(p).subrange(0, m.items.len() as int) =~= m.items);
    }
}

/// Feeding a parameter string only appends to the finished parameters, and
/// never beyond 32 of them.
pub proof fn lemma_feed_extends(m: AccumulatorModel, s: Seq<u8>)
    ensures
        m.items.is_prefix_of(acc_feed(m, s).items),
        m.items.is_prefix_of(acc_flush(acc_feed(m, s)).items),
        m.items.len() <= 32 ==> acc_feed(m, s).items.len() <= 32,
        m.items.len() <= 32 ==> acc_flush(acc_feed(m, s)).items.len() <= 32,
    decreases s.len(),
{
    if s.len() > 0 {
        let prev = acc_feed(m, s.drop_last());
        lemma_feed_extends(m, s.drop_last());
        lemma_ops_extend(prev, s.last());
    }
    let f = acc_feed(m, s);
    lemma_ops_extend(f, 0x30);
}

/// A sequence without parameter bytes has no parameters.
pub proof fn lemma_no_parameters()
    ensures
        acc_flush(acc_feed(acc_empty(), Seq::<u8>::empty())).items == Seq::<Param>::empty(),
{
}

/// Accumulator for the numeric parameter string of an ECMA-48 CSI or DCS
/// control sequence.
///
/// `;` starts a new main parameter and `:` a sub-parameter of the current
/// one. Empty parameters default to `0`, a trailing `;` yields a final `0`,
/// a string without separators or digits leaves the list empty, values
/// saturate at `u16::MAX` and at most 32 parameters are kept.
pub struct ParametersAccumulator {
    inner: ArrayVec<Param, 32>,
    current: Option<u16>,
    in_group: bool,
    is_pending: bool,
}

impl View for ParametersAccumulator {
    type V = AccumulatorModel;

    closed spec fn view(&self) -> AccumulatorModel {
        AccumulatorModel {
            items: param_slots(self.inner),
            current: self.current,
            in_group: self.in_group,
            is_pending: self.is_pending,
        }
    }
}

impl ParametersAccumulator {
    /// Never more than 32 parameters are held.
    #[verifier::type_invariant]
    spec fn capped(self) -> bool {
        param_slots(self.inner).len() <= 32
    }

    /// An empty accumulator.
    pub fn new() -> (a: ParametersAccumulator)
        ensures
            a@ == acc_empty(),
    {
        ParametersAccumulator { inner: param_slots_new(), current: None, in_group: false, is_pending: false }
    }

    /// An empty accumulator.
    pub fn default() -> (a: ParametersAccumulator)
        ensures
            a@ == acc_empty(),
    {
        ParametersAccumulator::new()
    }

    /// The finished parameters.
    pub fn as_slice(&self) -> (s: &[Param])
        ensures
            s@ == self@.items,
            s@.len() <= 32,
    {
        proof { use_type_invariant(self); }
        param_slots_as_slice(&self.inner)
    }

    /// Adds the ASCII digit `digit` to the value in flight.
    pub fn push_digit(&mut self, digit: u8)
        requires
            0x30 <= digit <= 0x39,
        ensures
            final(self)@ == acc_push_digit(old(self)@, digit),
    {
        proof { use_type_invariant(&*self); }
        let c: u16 = match self.current {
            Some(v) => v,
            None => 0,
        };
        let scaled: u32 = c as u32 * 10;
        let scaled: u32 = if scaled > 0xffff { 0xffff } else { scaled };
        let sum: u32 = scaled + (digit - 0x30) as u32;
        let next: u16 = if sum > 0xffff { 0xffff } else { sum as u16 };
        self.current = Some(next);
    }

    fn flush_value(&mut self, val: u16)
        ensures
            final(self)@ == acc_flush_value(old(self)@, val),
    {
        proof { use_type_invariant(&*self); }
        if self.in_group {
            let _ = param_slots_try_push(&mut self.inner, Param::Sub(val));
        } else {
            let _ = param_slots_try_push(&mut self.inner, Param::Main(val));
        }
    }

    fn flush_sub(&mut self, val: u16)
        ensures
            final(self)@ == acc_flush_sub(old(self)@, val),
    {
        proof { use_type_invariant(&*self); }
        if self.in_group {
            let _ = param_slots_try_push(&mut self.inner, Param::Sub(val));
        } else {
            if param_slots_try_push(&mut self.inner, Param::Main(val)) {
                self.in_group = true;
            }
        }
    }

    /// Handles `:`: closes the value in flight (or an empty `0`) as part of
    /// a sub-parameter group.
    pub fn push_sub(&mut self)
        ensures
            final(self)@ == acc_push_sub(old(self)@),
    {
        proof { use_type_invariant(&*self); }
        let current = match self.current {
            Some(v) => v,
            None => 0,
        };
        self.current = None;
        self.flush_sub(current);
    }

    /// Handles `;`: closes the main parameter and opens a new slot.
    pub fn push_main(&mut self)
        ensures
            final(self)@ == acc_push_main(old(self)@),
    {
        proof { use_type_invariant(&*self); }
        let taken = self.current;
        self.current = None;
        match taken {
            Some(val) => self.flush_value(val),
            None => {
                if self.in_group {
                    self.flush_sub(0);
                } else {
                    let _ = param_slots_try_push(&mut self.inner, Param::Main(0));
                }
            },
        }
        self.in_group = false;
        self.is_pending = true;
    }

    /// Materialises what is still open when the final byte arrives.
    pub fn flush(&mut self)
        ensures
            final(self)@ == acc_flush(old(self)@),
    {
        proof { use_type_invariant(&*self); }
        let taken = self.current;
        self.current = None;
        match taken {
            Some(val) => self.flush_value(val),
            None => {
                if self.in_group {
                    self.flush_sub(0);
                } else if self.is_pending {
                    let _ = param_slots_try_push(&mut self.inner, Param::Main(0));
                }
            },
        }
    }

    /// Forgets everything.
    pub fn clear(&mut self)
        ensures
            final(self)@ == acc_empty(),
    {
        param_slots_clear(&mut self.inner);
        self.current = None;
        self.in_group = false;
        self.is_pending = false;
    }
}

} // verus!
