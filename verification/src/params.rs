use vstd::prelude::*;
use vstd::string::StringSliceAdditionalSpecFns;
use vstd::utf8::{encode_utf8, is_ascii_chars, is_ascii_chars_encode_utf8};
use crate::parser::state::{State, transition_spec};

verus! {

/// One packed control-sequence parameter: a main parameter (after `;` or at
/// the start) or a sub-parameter (after `:`).
#[derive(Clone, Copy, PartialEq, Eq, Structural, Debug, Hash)]
pub enum Param {
    Main(u16),
    Sub(u16),
}

/// The value of a parameter.
pub open spec fn param_value(p: Param) -> u16 {
    match p {
        Param::Main(v) => v,
        Param::Sub(v) => v,
    }
}

impl Param {
    /// The empty parameter, `Main(0)`.
    pub fn none() -> (p: Param)
        ensures
            p == Param::Main(0),
    {
        Param::Main(0)
    }

    /// The default parameter, `Main(0)`.
    pub fn default() -> (p: Param)
        ensures
            p == Param::Main(0),
    {
        Param::Main(0)
    }

    /// The value of the parameter.
    pub fn value(self) -> (v: u16)
        ensures
            v == param_value(self),
    {
        match self {
            Param::Main(value) => value,
            Param::Sub(value) => value,
        }
    }

    /// Whether this is a main parameter.
    pub fn is_main(self) -> (r: bool)
        ensures
            r == (self is Main),
    {
        match self {
            Param::Main(_) => true,
            Param::Sub(_) => false,
        }
    }

    /// Whether this is a sub-parameter.
    pub fn is_sub(self) -> (r: bool)
        ensures
            r == (self is Sub),
    {
        match self {
            Param::Main(_) => false,
            Param::Sub(_) => true,
        }
    }

    /// The separator written before this parameter: `:` for a sub-parameter,
    /// `;` otherwise.
    pub fn separator(&self) -> (s: &'static str)
        ensures
            s@ == (if *self is Sub { ":"@ } else { ";"@ }),
    {
        if self.is_sub() { ":" } else { ";" }
    }

    /// Whether the parameter's value is `other`.
    pub fn eq_u16(&self, other: u16) -> (r: bool)
        ensures
            r == (param_value(*self) == other),
    {
        self.value() == other
    }

    /// A main parameter with the low 16 bits of `value`.
    pub fn from_u32(value: u32) -> (p: Param)
        ensures
            p == Param::Main((value % 65536) as u16),
    {
        Param::Main((value % 65536) as u16)
    }
}

/// An error from parsing a parameter string.
#[derive(Clone, Copy, PartialEq, Eq, Structural, Debug)]
pub enum ParseParamsError {
    /// A byte that is not a digit or a separator, at the given index.
    InvalidByte(usize),
    /// A value above `u16::MAX`, at the index of the digit that overflowed.
    Overflow(usize),
}

/// Owned parameter storage, e.g. `[Main(16), Sub(5), Sub(10), Main(2)]` for
/// `16:5:10;2`.
#[derive(Clone, PartialEq, Eq, Debug, Hash)]
pub struct Parameters(pub Vec<Param>);

impl View for Parameters {
    type V = Seq<Param>;

    open spec fn view(&self) -> Seq<Param> {
        self.0@
    }
}

/// The decimal digits of `n` as characters, most significant first.
pub open spec fn decimal_chars(n: nat) -> Seq<char>
    decreases n,
{
    if n < 10 {
        seq![digit_char(n)]
    } else {
        decimal_chars(n / 10).push(digit_char(n % 10))
    }
}

/// The character of a decimal digit.
pub open spec fn digit_char(d: nat) -> char {
    if d == 0 { '0' } else if d == 1 { '1' } else if d == 2 { '2' } else if d == 3 { '3' }
    else if d == 4 { '4' } else if d == 5 { '5' } else if d == 6 { '6' } else if d == 7 { '7' }
    else if d == 8 { '8' } else { '9' }
}

/// The text form of a parameter list: values in decimal, each but the first
/// preceded by its separator (`:` for a sub-parameter, `;` otherwise).
pub open spec fn display_params(p: Seq<Param>) -> Seq<char>
    decreases p.len(),
{
    if p.len() == 0 {
        Seq::empty()
    } else {
        let prev = display_params(p.drop_last());
        let last = p.last();
        let sep: Seq<char> = if p.len() == 1 { Seq::empty() } else if last is Sub { seq![':'] } else { seq![';'] };
        prev + sep + decimal_chars(param_value(last) as nat)
    }
}

/// The groups of a parameter list: each group is a parameter followed by the
/// sub-parameters after it.
pub open spec fn param_groups(p: Seq<Param>) -> Seq<Seq<Param>>
    decreases p.len(),
{
    if p.len() == 0 {
        Seq::empty()
    } else {
        let g = param_groups(p.drop_last());
        if p.last() is Sub && g.len() > 0 {
            g.update(g.len() - 1, g.last().push(p.last()))
        } else {
            g.push(seq![p.last()])
        }
    }
}

/// The state of the parameter-string parser: parameters so far, the value
/// being read, and whether a `:` opened a sub-parameter group.
pub type ParseAcc = (Seq<Param>, Option<u16>, bool);

/// The parameter that closes the value `v`: a sub-parameter inside a group.
pub open spec fn closed_param(v: u16, in_group: bool) -> Param {
    if in_group { Param::Sub(v) } else { Param::Main(v) }
}

/// One byte of the parameter-string parser, at index `i`. The byte must keep
/// the control-sequence state machine in the parameter state (the first byte
/// is read from `CsiEntry`, so it may also be a private marker, which is
/// skipped).
pub open spec fn parse_byte(acc: ParseAcc, i: int, b: u8) -> Result<ParseAcc, ParseParamsError> {
    let (items, current, in_group) = acc;
    let st = if i == 0 { State::CsiEntry } else { State::CsiParam };
    if transition_spec(st, b).0 != State::CsiParam {
        Err(ParseParamsError::InvalidByte(i as usize))
    } else if 0x30 <= b <= 0x39 {
        let v = (match current { Some(c) => c as int, None => 0int }) * 10 + (b - 0x30);
        if v > 0xFFFF {
            Err(ParseParamsError::Overflow(i as usize))
        } else {
            Ok((items, Some(v as u16), in_group))
        }
    } else if b == 0x3a {
        let v = match current { Some(c) => c, None => 0u16 };
        Ok((items.push(closed_param(v, in_group)), None, true))
    } else if b == 0x3b {
        match current {
            Some(v) => Ok((items.push(closed_param(v, in_group)), None, false)),
            None => Ok((items.push(if in_group { Param::Sub(0) } else { Param::Main(0) }), None, false)),
        }
    } else {
        Ok(acc)
    }
}

/// The parser's state after the bytes `s`.
pub open spec fn parse_prefix(s: Seq<u8>) -> Result<ParseAcc, ParseParamsError>
    decreases s.len(),
{
    if s.len() == 0 {
        Ok((Seq::empty(), None, false))
    } else {
        match parse_prefix(s.drop_last()) {
            Err(e) => Err(e),
            Ok(acc) => parse_byte(acc, s.len() - 1, s.last()),
        }
    }
}

/// Whether `s` ends with a `;` or `:` separator.
pub open spec fn ends_with_separator(s: Seq<u8>) -> bool {
    s.len() > 0 && (s.last() == 0x3b || s.last() == 0x3a)
}

/// The parameters of a parameter string such as `16:5:10;2;9;3:4`. Empty
/// fields are zero (`1;;2` is `Main(1), Main(0), Main(2)`; `1::2` is
/// `Main(1), Sub(0), Sub(2)`), the empty field after a final separator too
/// (`1;` is `Main(1), Main(0)`; `1:` is `Main(1), Sub(0)`); a value still
/// being read at the end is kept.
pub open spec fn parse_params(s: Seq<u8>) -> Result<Seq<Param>, ParseParamsError> {
    match parse_prefix(s) {
        Err(e) => Err(e),
        Ok((items, current, in_group)) => match current {
            Some(v) => Ok(items.push(closed_param(v, in_group))),
            None => if ends_with_separator(s) {
                Ok(items.push(closed_param(0, in_group)))
            } else {
                Ok(items)
            },
        },
    }
}

/// The number of `;` and `:` bytes in `s`.
pub open spec fn separator_count(s: Seq<u8>) -> nat
    decreases s.len(),
{
    if s.len() == 0 {
        0
    } else {
        separator_count(s.drop_last()) + if s.last() == 0x3b || s.last() == 0x3a { 1nat } else { 0nat }
    }
}

/// `String::push`: appends a character.
#[verifier::external_body]
pub(crate) fn string_push(s: &mut String, c: char)
    ensures
        final(s)@ == old(s)@.push(c),
{
    s.push(c)
}

/// The character of a decimal digit.
fn digit(d: u16) -> (c: char)
    requires
        d < 10,
    ensures
        c == digit_char(d as nat),
{
    if d == 0 { '0' } else if d == 1 { '1' } else if d == 2 { '2' } else if d == 3 { '3' }
    else if d == 4 { '4' } else if d == 5 { '5' } else if d == 6 { '6' } else if d == 7 { '7' }
    else if d == 8 { '8' } else { '9' }
}

/// Appends the decimal digits of `n`.
fn push_decimal_chars(s: &mut String, n: u16)
    ensures
        final(s)@ == old(s)@ + decimal_chars(n as nat),
    decreases n,
{
    if n < 10 {
        string_push(s, digit(n));
        assert(decimal_chars(n as nat) == seq![digit_char(n as nat)]);
    } else {
        push_decimal_chars(s, n / 10);
        string_push(s, digit(n % 10));
        proof {
            assert(old(s)@ + decimal_chars((n / 10) as nat) + seq![digit_char((n % 10) as nat)]
                =~= old(s)@ + decimal_chars(n as nat));
        }
    }
}

/// The number of `;` and `:` bytes in `s`, plus one: a first guess at how
/// many parameters it holds.
pub fn estimate_param_count(s: &str) -> (n: usize)
    requires
        s.spec_bytes().len() < usize::MAX,
    ensures
        n == 1 + separator_count(s.spec_bytes()),
{
    let bytes = s.as_bytes();
    let mut count: usize = 0;
    let mut i: usize = 0;
    while i < bytes.len()
        invariant
            0 <= i <= bytes@.len(),
            bytes@ == s.spec_bytes(),
            bytes@.len() < usize::MAX,
            count == separator_count(bytes@.take(i as int)),
            count <= i,
        decreases bytes.len() - i,
    {
        assert(bytes@.take(i + 1).drop_last() =~= bytes@.take(i as int));
        if bytes[i] == 0x3b || bytes[i] == 0x3a {
            count += 1;
        }
        i += 1;
    }
    assert(bytes@.take(i as int) =~= bytes@);
    1 + count
}

impl Parameters {
    /// An empty list.
    pub fn new() -> (p: Parameters)
        ensures
            p@ == Seq::<Param>::empty(),
    {
        Parameters(Vec::new())
    }

    /// An empty list with room for `capacity` parameters.
    pub fn with_capacity(capacity: usize) -> (p: Parameters)
        ensures
            p@ == Seq::<Param>::empty(),
    {
        Parameters(Vec::with_capacity(capacity))
    }

    /// The list holding `vec`.
    pub fn from_vec(vec: Vec<Param>) -> (p: Parameters)
        ensures
            p@ == vec@,
    {
        Parameters(vec)
    }

    /// The parameters as a slice.
    pub fn as_slice(&self) -> (s: &[Param])
        ensures
            s@ == self@,
    {
        self.0.as_slice()
    }

    /// The underlying vector.
    pub fn into_vec(self) -> (v: Vec<Param>)
        ensures
            v@ == self@,
    {
        self.0
    }

    /// The underlying vector.
    pub fn as_vec(&self) -> (v: &Vec<Param>)
        ensures
            v@ == self@,
    {
        &self.0
    }

    /// The number of parameters.
    pub fn len(&self) -> (n: usize)
        ensures
            n == self@.len(),
    {
        self.0.len()
    }

    /// Whether the list is empty.
    pub fn is_empty(&self) -> (r: bool)
        ensures
            r == (self@.len() == 0),
    {
        self.0.len() == 0
    }

    /// The value of the parameter at `index`.
    pub fn get(&self, index: usize) -> (r: Option<u16>)
        ensures
            index < self@.len() ==> r == Some(param_value(self@[index as int])),
            index >= self@.len() ==> r is None,
    {
        if index < self.0.len() { Some(self.0[index].value()) } else { None }
    }

    /// The value of the first parameter.
    pub fn first(&self) -> (r: Option<u16>)
        ensures
            self@.len() > 0 ==> r == Some(param_value(self@[0])),
            self@.len() == 0 ==> r is None,
    {
        self.get(0)
    }

    /// The value of the last parameter.
    pub fn last(&self) -> (r: Option<u16>)
        ensures
            self@.len() > 0 ==> r == Some(param_value(self@.last())),
            self@.len() == 0 ==> r is None,
    {
        if self.0.len() == 0 { None } else { self.get(self.0.len() - 1) }
    }

    /// Appends a parameter.
    pub fn push(&mut self, param: Param)
        ensures
            final(self)@ == old(self)@.push(param),
    {
        self.0.push(param);
    }

    /// Removes and returns the last parameter.
    pub fn pop(&mut self) -> (r: Option<Param>)
        ensures
            old(self)@.len() > 0 ==> r == Some(old(self)@.last()) && final(self)@ == old(self)@.drop_last(),
            old(self)@.len() == 0 ==> r is None && final(self)@ == old(self)@,
    {
        self.0.pop()
    }

    /// Removes every parameter.
    pub fn clear(&mut self)
        ensures
            final(self)@ == Seq::<Param>::empty(),
    {
        self.0.clear();
    }

    /// Keeps the first `len` parameters.
    pub fn truncate(&mut self, len: usize)
        ensures
            final(self)@ == (if len < old(self)@.len() { old(self)@.take(len as int) } else { old(self)@ }),
    {
        self.0.truncate(len);
    }

    /// Appends each value as a main parameter.
    pub fn push_many(&mut self, values: &[u16])
        ensures
            final(self)@ == old(self)@ + Seq::new(values@.len(), |i: int| Param::Main(values@[i])),
    {
        let mut i: usize = 0;
        while i < values.len()
            invariant
                0 <= i <= values@.len(),
                self@ == old(self)@ + Seq::new(i as nat, |k: int| Param::Main(values@[k])),
            decreases values.len() - i,
        {
            self.0.push(Param::Main(values[i]));
            i += 1;
            assert(self@ =~= old(self)@ + Seq::new(i as nat, |k: int| Param::Main(values@[k])));
        }
    }

    /// Appends one group: the first value as a main parameter, the rest as
    /// its sub-parameters.
    pub fn push_group(&mut self, values: &[u16])
        ensures
            final(self)@ == old(self)@ + Seq::new(values@.len(), |i: int| if i == 0 { Param::Main(values@[i]) } else { Param::Sub(values@[i]) }),
    {
        let mut i: usize = 0;
        while i < values.len()
            invariant
                0 <= i <= values@.len(),
                self@ == old(self)@ + Seq::new(i as nat, |k: int| if k == 0 { Param::Main(values@[k]) } else { Param::Sub(values@[k]) }),
            decreases values.len() - i,
        {
            if i == 0 {
                self.0.push(Param::Main(values[i]));
            } else {
                self.0.push(Param::Sub(values[i]));
            }
            i += 1;
            assert(self@ =~= old(self)@ + Seq::new(i as nat, |k: int| if k == 0 { Param::Main(values@[k]) } else { Param::Sub(values@[k]) }));
        }
    }

    /// The values of every parameter, in order.
    pub fn values(&self) -> (v: Vec<u16>)
        ensures
            v@ == Seq::new(self@.len(), |i: int| param_value(self@[i])),
    {
        let mut v: Vec<u16> = Vec::new();
        let mut i: usize = 0;
        while i < self.0.len()
            invariant
                0 <= i <= self@.len(),
                v@ == Seq::new(i as nat, |k: int| param_value(self@[k])),
            decreases self@.len() - i,
        {
            v.push(self.0[i].value());
            i += 1;
            assert(v@ =~= Seq::new(i as nat, |k: int| param_value(self@[k])));
        }
        v
    }

    /// The groups of the list: each parameter together with the
    /// sub-parameters that follow it (`16:5:10;2` gives `[16, 5, 10]`, `[2]`).
    pub fn groups(&self) -> (g: Vec<Vec<Param>>)
        ensures
            g@.len() == param_groups(self@).len(),
            forall|k: int| 0 <= k < g@.len() ==> (#[trigger] g@[k])@ == param_groups(self@)[k],
    {
        let mut g: Vec<Vec<Param>> = Vec::new();
        let mut i: usize = 0;
        while i < self.0.len()
            invariant
                0 <= i <= self@.len(),
                g@.len() == param_groups(self@.take(i as int)).len(),
                forall|k: int| 0 <= k < g@.len() ==> (#[trigger] g@[k])@ == param_groups(self@.take(i as int))[k],
            decreases self@.len() - i,
        {
            let p = self.0[i];
            let ghost before = param_groups(self@.take(i as int));
            assert(self@.take(i + 1).drop_last() =~= self@.take(i as int));
            assert(self@.take(i + 1).last() == p);
            if p.is_sub() && g.len() > 0 {
                let last = g.len() - 1;
                let mut grp = g.pop().unwrap();
                grp.push(p);
                g.push(grp);
                proof {
                    let after = param_groups(self@.take(i + 1));
                    assert(after == before.update(before.len() - 1, before.last().push(p)));
                    assert forall|k: int| 0 <= k < g@.len() implies (#[trigger] g@[k])@ == after[k] by {
                        if k < last {
                        }
                    }
                }
            } else {
                let mut grp: Vec<Param> = Vec::new();
                grp.push(p);
                g.push(grp);
                proof {
                    let after = param_groups(self@.take(i + 1));
                    assert(grp@ =~= seq![p]);
                    assert(after == before.push(seq![p]));
                }
            }
            i += 1;
        }
        assert(self@.take(i as int) =~= self@);
        g
    }

    /// The text form, e.g. `16:5:10;2;9;3:4`.
    pub fn to_string(&self) -> (s: String)
        ensures
            s@ == display_params(self@),
    {
        let mut s = String::new();
        let mut i: usize = 0;
        while i < self.0.len()
            invariant
                0 <= i <= self@.len(),
                s@ == display_params(self@.take(i as int)),
            decreases self@.len() - i,
        {
            let p = self.0[i];
            assert(self@.take(i + 1).drop_last() =~= self@.take(i as int));
            assert(self@.take(i + 1).last() == p);
            if i > 0 {
                if p.is_sub() {
                    string_push(&mut s, ':');
                } else {
                    string_push(&mut s, ';');
                }
            }
            push_decimal_chars(&mut s, p.value());
            proof {
                let prev = display_params(self@.take(i as int));
                let sep: Seq<char> = if i == 0 { Seq::empty() } else if p is Sub { seq![':'] } else { seq![';'] };
                assert(display_params(self@.take(i + 1)) == prev + sep + decimal_chars(param_value(p) as nat));
                if i == 0 {
                    assert(prev + sep =~= prev);
                } else {
                    assert(prev + sep =~= prev.push(sep[0]));
                }
            }
            i += 1;
        }
        assert(self@.take(i as int) =~= self@);
        s
    }

    /// Parses a parameter string such as `16:5:10;2;9;3:4`.
    pub fn from_str(s: &str) -> (r: Result<Parameters, ParseParamsError>)
        ensures
            r matches Ok(p) ==> parse_params(s.spec_bytes()) == Ok::<Seq<Param>, ParseParamsError>(p@),
            r matches Err(e) ==> parse_params(s.spec_bytes()) == Err::<Seq<Param>, ParseParamsError>(e),
    {
        let bytes = s.as_bytes();
        if bytes.len() == 0 {
            return Ok(Parameters::new());
        }
        let cap = if bytes.len() < usize::MAX { estimate_param_count(s) } else { 1 };
        let mut params = Parameters::with_capacity(cap);
        let mut state = State::CsiEntry;
        let mut i: usize = 0;
        let mut current: Option<u16> = None;
        let mut in_group = false;
        while i < bytes.len()
            invariant
                0 <= i <= bytes@.len(),
                bytes@ == s.spec_bytes(),
                state == (if i == 0 { State::CsiEntry } else { State::CsiParam }),
                parse_prefix(bytes@.take(i as int)) == Ok::<ParseAcc, ParseParamsError>((params@, current, in_group)),
            decreases bytes.len() - i,
        {
            let byte = bytes[i];
            assert(bytes@.take(i + 1).drop_last() =~= bytes@.take(i as int));
            assert(bytes@.take(i + 1).last() == byte);
            let (new_state, _action) = state.transition(byte);
            if new_state != State::CsiParam {
                proof {
                    assert(parse_prefix(bytes@.take(i + 1)) == Err::<ParseAcc, ParseParamsError>(ParseParamsError::InvalidByte(i)));
                    lemma_parse_prefix_err_sticky(bytes@, i as int + 1);
                }
                return Err(ParseParamsError::InvalidByte(i));
            }
            if 0x30 <= byte && byte <= 0x39 {
                let d = (byte - 0x30) as u16;
                let base: u16 = match current {
                    Some(c) => c,
                    None => 0,
                };
                if base > 6553 || (base == 6553 && d > 5) {
                    proof {
                        lemma_parse_prefix_err_sticky(bytes@, i as int + 1);
                    }
                    return Err(ParseParamsError::Overflow(i));
                }
                current = Some(base * 10 + d);
            } else if byte == 0x3a {
                let value = match current {
                    Some(c) => c,
                    None => 0,
                };
                params.push(if in_group { Param::Sub(value) } else { Param::Main(value) });
                current = None;
                in_group = true;
            } else if byte == 0x3b {
                match current {
                    Some(value) => {
                        params.push(if in_group { Param::Sub(value) } else { Param::Main(value) });
                    },
                    None => {
                        if in_group {
                            params.push(Param::Sub(0));
                        } else {
                            params.push(Param::Main(0));
                        }
                    },
                }
                current = None;
                in_group = false;
            }
            i += 1;
            state = new_state;
        }
        assert(bytes@.take(i as int) =~= bytes@);
        match current {
            Some(value) => {
                params.push(if in_group { Param::Sub(value) } else { Param::Main(value) });
            },
            None => {
                let last = bytes[bytes.len() - 1];
                if last == 0x3b || last == 0x3a {
                    params.push(if in_group { Param::Sub(0) } else { Param::Main(0) });
                }
            },
        }
        Ok(params)
    }
}

/// The bytes of ASCII characters.
pub open spec fn ascii_of(cs: Seq<char>) -> Seq<u8> {
    cs.map_values(|c: char| c as u8)
}

proof fn lemma_decimal_ascii(n: nat)
    ensures
        is_ascii_chars(decimal_chars(n)),
        n < 10 ==> ascii_of(decimal_chars(n)) == seq![(0x30 + n) as u8],
        n >= 10 ==> ascii_of(decimal_chars(n)) == ascii_of(decimal_chars(n / 10)).push((0x30 + n % 10) as u8),
    decreases n,
{
    if n < 10 {
        assert(ascii_of(decimal_chars(n)) =~= seq![(0x30 + n) as u8]);
    } else {
        lemma_decimal_ascii(n / 10);
        let prev = decimal_chars(n / 10);
        let c = digit_char(n % 10);
        assert(decimal_chars(n) == prev.push(c));
        assert(ascii_of(prev.push(c)) =~= ascii_of(prev).push(c as u8));
        assert forall|i: int| 0 <= i < decimal_chars(n).len() implies '\0' <= #[trigger] decimal_chars(n)[i] <= '\u{7f}' by {
            if i < prev.len() {
                assert(decimal_chars(n)[i] == prev[i]);
            }
        }
    }
}

proof fn lemma_parse_digits(pre: Seq<u8>, n: nat, items: Seq<Param>, g: bool)
    requires
        parse_prefix(pre) == Ok::<ParseAcc, ParseParamsError>((items, None, g)),
        n <= 0xFFFF,
    ensures
        parse_prefix(pre + ascii_of(decimal_chars(n))) == Ok::<ParseAcc, ParseParamsError>((items, Some(n as u16), g)),
    decreases n,
{
    lemma_decimal_ascii(n);
    if n < 10 {
        let b = (0x30 + n) as u8;
        assert(pre + ascii_of(decimal_chars(n)) =~= pre.push(b));
        assert(pre.push(b).drop_last() =~= pre);
    } else {
        lemma_parse_digits(pre, n / 10, items, g);
        let b = (0x30 + n % 10) as u8;
        let mid = pre + ascii_of(decimal_chars(n / 10));
        assert(pre + ascii_of(decimal_chars(n)) =~= mid.push(b));
        assert(mid.push(b).drop_last() =~= mid);
        assert((n / 10) * 10 + n % 10 == n);
    }
}

proof fn lemma_display_prefix(p: Seq<Param>)
    requires
        p.len() > 0,
        p[0] is Main,
    ensures
        is_ascii_chars(display_params(p)),
        parse_prefix(ascii_of(display_params(p))) == Ok::<ParseAcc, ParseParamsError>(
            (p.drop_last(), Some(param_value(p.last())), p.last() is Sub),
        ),
    decreases p.len(),
{
    let v = param_value(p.last()) as nat;
    lemma_decimal_ascii(v);
    if p.len() == 1 {
        assert(display_params(p.drop_last()) =~= Seq::<char>::empty());
        assert(display_params(p) =~= decimal_chars(v));
        assert(Seq::<u8>::empty() + ascii_of(decimal_chars(v)) =~= ascii_of(decimal_chars(v)));
        lemma_parse_digits(Seq::<u8>::empty(), v, Seq::<Param>::empty(), false);
        assert(p.drop_last() =~= Seq::<Param>::empty());
    } else {
        let q = p.drop_last();
        assert(q[0] == p[0]);
        lemma_display_prefix(q);
        let x = p.last();
        let c = if x is Sub { ':' } else { ';' };
        let b = c as u8;
        let dq = display_params(q);
        assert(display_params(p) == dq + seq![c] + decimal_chars(v));
        let pre = ascii_of(dq).push(b);
        assert(ascii_of(display_params(p)) =~= pre + ascii_of(decimal_chars(v)));
        assert(pre.drop_last() =~= ascii_of(dq));
        let vq = param_value(q.last());
        assert(closed_param(vq, q.last() is Sub) == q.last());
        assert(q.drop_last().push(q.last()) =~= q);
        assert(parse_prefix(pre) == Ok::<ParseAcc, ParseParamsError>((q, None, x is Sub)));
        lemma_parse_digits(pre, v, q, x is Sub);
        assert forall|i: int| 0 <= i < display_params(p).len() implies '\0' <= #[trigger] display_params(p)[i] <= '\u{7f}' by {
            if i < dq.len() {
                assert(display_params(p)[i] == dq[i]);
            } else if i > dq.len() {
                assert(display_params(p)[i] == decimal_chars(v)[i - dq.len() - 1]);
            }
        }
    }
}

/// Each separator read so far closed exactly one parameter.
proof fn lemma_parse_prefix_count(s: Seq<u8>)
    ensures
        parse_prefix(s) matches Ok((items, _, _)) ==> items.len() == separator_count(s),
    decreases s.len(),
{
    if s.len() > 0 {
        lemma_parse_prefix_count(s.drop_last());
    }
}

/// A parsed parameter list never has more parameters than
/// `estimate_param_count` guesses: one more than the separators.
pub proof fn lemma_parse_within_estimate(s: Seq<u8>)
    ensures
        parse_params(s) matches Ok(p) ==> p.len() <= 1 + separator_count(s),
{
    lemma_parse_prefix_count(s);
}

/// Writing parameters as text and parsing the text gives them back, when
/// the first is a main parameter (text cannot start with a
/// sub-parameter).
pub proof fn lemma_display_parse_roundtrip(p: Seq<Param>)
    requires
        p.len() == 0 || p[0] is Main,
    ensures
        parse_params(encode_utf8(display_params(p))) == Ok::<Seq<Param>, ParseParamsError>(p),
{
    if p.len() == 0 {
        assert(display_params(p) =~= Seq::<char>::empty());
        assert(encode_utf8(Seq::<char>::empty()) =~= Seq::<u8>::empty());
        assert(p =~= Seq::<Param>::empty());
        assert(parse_params(Seq::<u8>::empty()) == Ok::<Seq<Param>, ParseParamsError>(Seq::<Param>::empty()));
    } else {
        lemma_display_prefix(p);
        let d = display_params(p);
        is_ascii_chars_encode_utf8(d);
        assert(encode_utf8(d) =~= ascii_of(d));
        assert(p.drop_last().push(closed_param(param_value(p.last()), p.last() is Sub)) =~= p);
        assert(parse_params(ascii_of(d)) == Ok::<Seq<Param>, ParseParamsError>(p));
    }
}

/// Once the parser has failed, reading more bytes keeps the same error.
proof fn lemma_parse_prefix_err_sticky(s: Seq<u8>, k: int)
    requires
        0 < k <= s.len(),
        parse_prefix(s.take(k)) is Err,
    ensures
        parse_params(s) == Err::<Seq<Param>, ParseParamsError>(parse_prefix(s.take(k))->Err_0),
    decreases s.len() - k,
{
    if k == s.len() {
        assert(s.take(k) =~= s);
    } else {
        assert(s.take(k + 1).drop_last() =~= s.take(k));
        lemma_parse_prefix_err_sticky(s, k + 1);
    }
}

} // verus!
