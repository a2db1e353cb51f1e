//! Building the parameter groups of a control sequence from its bytes.
use vstd::prelude::*;
use super::raw_parameters::{RawModel, RawParameters};

verus! {

/// The separator read last: `;` between parameters, `:` between
/// sub-parameters.
#[derive(Clone, Copy, Debug, PartialEq, Eq, Structural)]
pub enum ParameterSeparator {
    Main,
    Sub,
}

/// The largest parameter value (ECMA-48).
pub const PARAM_MAX: u16 = 16383;

/// `m` with a new group holding `val`, and whether it fitted (32 values and
/// 32 groups at most); unchanged when it did not.
pub open spec fn push_one_spec(m: RawModel, val: u16) -> (RawModel, bool) {
    if m.values.len() >= 32 || m.starts.len() >= 32 {
        (m, false)
    } else {
        (RawModel { values: m.values.push(val), starts: m.starts.push(m.values.len() as int) }, true)
    }
}

/// `m` with `val` added to its last group (or as the first group), when it
/// fits.
pub open spec fn extend_one_spec(m: RawModel, val: u16) -> RawModel {
    if m.values.len() >= 32 || m.starts.len() >= 32 {
        m
    } else {
        RawModel { values: m.values.push(val), starts: if m.starts.len() == 0 { seq![0int] } else { m.starts } }
    }
}

/// A sub-parameter: added to the open group, or starting one (which is then
/// open) when none is. The groups, and whether a group is open.
pub open spec fn push_sub_value_spec(m: RawModel, active: bool, val: u16) -> (RawModel, bool) {
    if active {
        (extend_one_spec(m, val), true)
    } else {
        push_one_spec(m, val)
    }
}

/// A finished parameter: the last sub-parameter of an open group, or a
/// group of its own.
pub open spec fn push_value_spec(m: RawModel, active: bool, val: u16) -> (RawModel, bool) {
    if active {
        push_sub_value_spec(m, active, val)
    } else {
        (push_one_spec(m, val).0, active)
    }
}

/// The value so far after one more digit: times ten plus the digit,
/// at most `PARAM_MAX`.
pub open spec fn digit_spec(current: Option<u16>, digit: u8) -> u16 {
    let v = match current { Some(v) => v as int, None => 0 } * 10 + (digit - 0x30);
    if v > 16383 { 16383 } else { v as u16 }
}

/// Collects the parameters of a control sequence as groups of
/// sub-parameters: digits make up the current value, `:` ends a
/// sub-parameter and `;` a parameter. Values past the capacity are dropped.
pub struct ParametersBuilder {
    pub inner: RawParameters<32, 32>,
    pub current: Option<u16>,
    pub group_active: bool,
    pub last_separator: Option<ParameterSeparator>,
}

impl ParametersBuilder {
    /// The builder is consistent: its groups are.
    pub open spec fn wf(&self) -> bool {
        self.inner.wf()
    }

    /// An empty builder.
    pub fn new() -> (b: Self)
        ensures
            b.wf(),
            b.inner@.values == Seq::<u16>::empty(),
            b.inner@.starts == Seq::<int>::empty(),
            b.current is None,
            !b.group_active,
            b.last_separator is None,
    {
        ParametersBuilder { inner: RawParameters::new(), current: None, group_active: false, last_separator: None }
    }

    /// Adds an ASCII digit to the current value.
    pub fn push_digit(&mut self, digit: u8)
        requires
            0x30 <= digit <= 0x39,
        ensures
            final(self).current == Some(digit_spec(old(self).current, digit)),
            final(self).inner == old(self).inner,
            final(self).group_active == old(self).group_active,
            final(self).last_separator == old(self).last_separator,
    {
        let v: u32 = match self.current { Some(v) => v as u32, None => 0 } * 10 + (digit - 0x30) as u32;
        self.current = Some(if v > 16383 { PARAM_MAX } else { v as u16 });
    }

    fn push_one(&mut self, val: u16) -> (ok: bool)
        requires
            old(self).wf(),
        ensures
            final(self).wf(),
            (final(self).inner@, ok) == push_one_spec(old(self).inner@, val),
            final(self).current == old(self).current,
            final(self).group_active == old(self).group_active,
            final(self).last_separator == old(self).last_separator,
    {
        self.inner.try_push_one(val).is_ok()
    }

    fn push_sub_value(&mut self, val: u16)
        requires
            old(self).wf(),
        ensures
            final(self).wf(),
            (final(self).inner@, final(self).group_active) == push_sub_value_spec(old(self).inner@, old(self).group_active, val),
            final(self).current == old(self).current,
            final(self).last_separator == old(self).last_separator,
    {
        if self.group_active {
            let _ = self.inner.try_extend_one(val);
        } else {
            if self.push_one(val) {
                self.group_active = true;
            }
        }
    }

    fn push_value(&mut self, val: u16)
        requires
            old(self).wf(),
        ensures
            final(self).wf(),
            (final(self).inner@, final(self).group_active) == push_value_spec(old(self).inner@, old(self).group_active, val),
            final(self).current == old(self).current,
            final(self).last_separator == old(self).last_separator,
    {
        if self.group_active {
            self.push_sub_value(val);
        } else {
            let _ = self.push_one(val);
        }
    }

    /// Ends a sub-parameter (`:`): the current value, 0 when there is none,
    /// joins the open group, or starts one.
    pub fn push_sub(&mut self)
        requires
            old(self).wf(),
        ensures
            final(self).wf(),
            (final(self).inner@, final(self).group_active) == push_sub_value_spec(
                old(self).inner@,
                old(self).group_active,
                match old(self).current { Some(v) => v, None => 0 },
            ),
            final(self).current is None,
            final(self).last_separator == Some(ParameterSeparator::Sub),
    {
        let val = match self.current { Some(v) => v, None => 0 };
        self.current = None;
        self.push_sub_value(val);
        self.last_separator = Some(ParameterSeparator::Sub);
    }

    /// Ends a parameter (`;`): the current value is pushed; with none, a 0
    /// ends a sub-parameter list after `:`, or stands as a parameter of its
    /// own. No group is open afterwards.
    pub fn push_main(&mut self)
        requires
            old(self).wf(),
        ensures
            final(self).wf(),
            final(self).inner@ == (match old(self).current {
                Some(v) => push_value_spec(old(self).inner@, old(self).group_active, v).0,
                None => if old(self).last_separator == Some(ParameterSeparator::Sub) {
                    push_sub_value_spec(old(self).inner@, old(self).group_active, 0).0
                } else {
                    push_one_spec(old(self).inner@, 0).0
                },
            }),
            final(self).current is None,
            !final(self).group_active,
            final(self).last_separator == Some(ParameterSeparator::Main),
    {
        match self.current {
            Some(v) => {
                self.current = None;
                self.push_value(v);
            },
            None => {
                if self.last_separator == Some(ParameterSeparator::Sub) {
                    self.push_sub_value(0);
                } else {
                    let _ = self.push_one(0);
                }
            },
        }
        self.group_active = false;
        self.last_separator = Some(ParameterSeparator::Main);
    }

    /// Ends the parameters at dispatch: the current value is pushed; with
    /// none, a 0 ends a sub-parameter list after `:`.
    pub fn finish(&mut self)
        requires
            old(self).wf(),
        ensures
            final(self).wf(),
            (final(self).inner@, final(self).group_active) == (match old(self).current {
                Some(v) => push_value_spec(old(self).inner@, old(self).group_active, v),
                None => if old(self).last_separator == Some(ParameterSeparator::Sub) {
                    push_sub_value_spec(old(self).inner@, old(self).group_active, 0)
                } else {
                    (old(self).inner@, old(self).group_active)
                },
            }),
            final(self).current is None,
            final(self).last_separator == old(self).last_separator,
    {
        match self.current {
            Some(v) => {
                self.current = None;
                self.push_value(v);
            },
            None => {
                if self.last_separator == Some(ParameterSeparator::Sub) {
                    self.push_sub_value(0);
                }
            },
        }
    }

    /// Empties the builder.
    pub fn clear(&mut self)
        requires
            old(self).wf(),
        ensures
            final(self).wf(),
            final(self).inner@.values == Seq::<u16>::empty(),
            final(self).inner@.starts == Seq::<int>::empty(),
            final(self).current is None,
            !final(self).group_active,
            final(self).last_separator is None,
    {
        self.inner.clear();
        self.current = None;
        self.group_active = false;
        self.last_separator = None;
    }
}

} // verus!
