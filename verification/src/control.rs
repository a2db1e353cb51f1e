use vstd::prelude::*;
use vstd::string::StringSliceAdditionalSpecFns;

verus! {

/// The C0 control characters and DEL.
#[derive(Clone, Copy, PartialEq, Eq, Structural, Debug, Hash)]
pub enum Control {
    NUL,
    SOH,
    STX,
    ETX,
    EOT,
    ENQ,
    ACK,
    BEL,
    BS,
    TAB,
    LF,
    VT,
    FF,
    CR,
    SO,
    SI,
    DLE,
    DC1,
    DC2,
    DC3,
    DC4,
    NAK,
    SYN,
    ETB,
    CAN,
    EM,
    SUB,
    ESC,
    FS,
    GS,
    RS,
    US,
    DEL,
}

/// Error returned when a string names no control. It is `derive_more`'s
/// `FromStrError`.
#[verifier::external_type_specification]
#[verifier::external_body]
pub struct ExFromStrError(derive_more::FromStrError);

/// The error value that `derive_more::FromStrError::new` builds for a type name.
pub uninterp spec fn from_str_error_value(kind: Seq<char>) -> derive_more::FromStrError;

/// Calls `derive_more::FromStrError::new`, which only stores the type name it is
/// given; the result is named after that name.
#[verifier::external_body]
fn from_str_error(kind: &'static str) -> (e: derive_more::FromStrError)
    ensures
        e == from_str_error_value(kind@),
{
    derive_more::FromStrError::new(kind)
}

/// The byte value of a control.
pub open spec fn control_code(c: Control) -> u8 {
    match c {
        Control::NUL => 0,
        Control::SOH => 1,
        Control::STX => 2,
        Control::ETX => 3,
        Control::EOT => 4,
        Control::ENQ => 5,
        Control::ACK => 6,
        Control::BEL => 7,
        Control::BS => 8,
        Control::TAB => 9,
        Control::LF => 10,
        Control::VT => 11,
        Control::FF => 12,
        Control::CR => 13,
        Control::SO => 14,
        Control::SI => 15,
        Control::DLE => 16,
        Control::DC1 => 17,
        Control::DC2 => 18,
        Control::DC3 => 19,
        Control::DC4 => 20,
        Control::NAK => 21,
        Control::SYN => 22,
        Control::ETB => 23,
        Control::CAN => 24,
        Control::EM => 25,
        Control::SUB => 26,
        Control::ESC => 27,
        Control::FS => 28,
        Control::GS => 29,
        Control::RS => 30,
        Control::US => 31,
        Control::DEL => 127,
    }
}

/// The canonical (upper-case) name of a control.
pub open spec fn control_name(c: Control) -> Seq<char> {
    match c {
        Control::NUL => seq!['N', 'U', 'L'],
        Control::SOH => seq!['S', 'O', 'H'],
        Control::STX => seq!['S', 'T', 'X'],
        Control::ETX => seq!['E', 'T', 'X'],
        Control::EOT => seq!['E', 'O', 'T'],
        Control::ENQ => seq!['E', 'N', 'Q'],
        Control::ACK => seq!['A', 'C', 'K'],
        Control::BEL => seq!['B', 'E', 'L'],
        Control::BS => seq!['B', 'S'],
        Control::TAB => seq!['T', 'A', 'B'],
        Control::LF => seq!['L', 'F'],
        Control::VT => seq!['V', 'T'],
        Control::FF => seq!['F', 'F'],
        Control::CR => seq!['C', 'R'],
        Control::SO => seq!['S', 'O'],
        Control::SI => seq!['S', 'I'],
        Control::DLE => seq!['D', 'L', 'E'],
        Control::DC1 => seq!['D', 'C', '1'],
        Control::DC2 => seq!['D', 'C', '2'],
        Control::DC3 => seq!['D', 'C', '3'],
        Control::DC4 => seq!['D', 'C', '4'],
        Control::NAK => seq!['N', 'A', 'K'],
        Control::SYN => seq!['S', 'Y', 'N'],
        Control::ETB => seq!['E', 'T', 'B'],
        Control::CAN => seq!['C', 'A', 'N'],
        Control::EM => seq!['E', 'M'],
        Control::SUB => seq!['S', 'U', 'B'],
        Control::ESC => seq!['E', 'S', 'C'],
        Control::FS => seq!['F', 'S'],
        Control::GS => seq!['G', 'S'],
        Control::RS => seq!['R', 'S'],
        Control::US => seq!['U', 'S'],
        Control::DEL => seq!['D', 'E', 'L'],
    }
}

/// The two-letter label that `to_string` prints for a control.
pub open spec fn control_label(c: Control) -> Seq<char> {
    match c {
        Control::NUL => "NU"@,
        Control::SOH => "SO"@,
        Control::STX => "ST"@,
        Control::ETX => "ET"@,
        Control::EOT => "EO"@,
        Control::ENQ => "EN"@,
        Control::ACK => "AC"@,
        Control::BEL => "BE"@,
        Control::BS => "BS"@,
        Control::TAB => "TA"@,
        Control::LF => "LF"@,
        Control::VT => "VT"@,
        Control::FF => "FF"@,
        Control::CR => "CR"@,
        Control::SO => "SO"@,
        Control::SI => "SI"@,
        Control::DLE => "DL"@,
        Control::DC1 => "DC"@,
        Control::DC2 => "DC"@,
        Control::DC3 => "DC"@,
        Control::DC4 => "DC"@,
        Control::NAK => "NA"@,
        Control::SYN => "SY"@,
        Control::ETB => "ET"@,
        Control::CAN => "CA"@,
        Control::EM => "EM"@,
        Control::SUB => "SU"@,
        Control::ESC => "ES"@,
        Control::FS => "FS"@,
        Control::GS => "GS"@,
        Control::RS => "RS"@,
        Control::US => "US"@,
        Control::DEL => "DE"@,
    }
}

/// ASCII upper-casing of one byte.
pub open spec fn ascii_upper(b: u8) -> u8 {
    if 97 <= b <= 122 { (b - 32) as u8 } else { b }
}

/// ASCII upper-casing of a byte string.
pub open spec fn ascii_upper_seq(s: Seq<u8>) -> Seq<u8> {
    s.map_values(|b: u8| ascii_upper(b))
}

/// The bytes of an ASCII name.
pub open spec fn name_bytes(name: Seq<char>) -> Seq<u8> {
    name.map_values(|c: char| c as u8)
}

/// Every control, in code order.
pub open spec fn all_controls() -> Seq<Control> {
    seq![
        Control::NUL, Control::SOH, Control::STX, Control::ETX, Control::EOT, Control::ENQ, Control::ACK, Control::BEL, Control::BS, Control::TAB, Control::LF, Control::VT, Control::FF, Control::CR, Control::SO, Control::SI, Control::DLE, Control::DC1, Control::DC2, Control::DC3, Control::DC4, Control::NAK, Control::SYN, Control::ETB, Control::CAN, Control::EM, Control::SUB, Control::ESC, Control::FS, Control::GS, Control::RS, Control::US, Control::DEL,
    ]
}

pub proof fn lemma_control_code_injective(a: Control, b: Control)
    ensures
        control_code(a) == control_code(b) ==> a == b,
{
}

pub proof fn lemma_control_name_injective(a: Control, b: Control)
    ensures
        name_bytes(control_name(a)) == name_bytes(control_name(b)) ==> a == b,
{
    if name_bytes(control_name(a)) == name_bytes(control_name(b)) {
        let x = name_bytes(control_name(a));
        let y = name_bytes(control_name(b));
        assert(x.len() == y.len());
        assert(x[0] == y[0]);
        assert(x[1] == y[1]);
        if x.len() > 2 {
            assert(x[2] == y[2]);
        }
    }
}

impl Control {
    /// The byte value of this control.
    pub fn as_u8(self) -> (b: u8)
        ensures
            b == control_code(self),
    {
        match self {
            Control::NUL => 0,
            Control::SOH => 1,
            Control::STX => 2,
            Control::ETX => 3,
            Control::EOT => 4,
            Control::ENQ => 5,
            Control::ACK => 6,
            Control::BEL => 7,
            Control::BS => 8,
            Control::TAB => 9,
            Control::LF => 10,
            Control::VT => 11,
            Control::FF => 12,
            Control::CR => 13,
            Control::SO => 14,
            Control::SI => 15,
            Control::DLE => 16,
            Control::DC1 => 17,
            Control::DC2 => 18,
            Control::DC3 => 19,
            Control::DC4 => 20,
            Control::NAK => 21,
            Control::SYN => 22,
            Control::ETB => 23,
            Control::CAN => 24,
            Control::EM => 25,
            Control::SUB => 26,
            Control::ESC => 27,
            Control::FS => 28,
            Control::GS => 29,
            Control::RS => 30,
            Control::US => 31,
            Control::DEL => 127,
        }
    }

    /// The control with byte value `value`; `Err(())` for every other byte.
    pub fn try_from_u8(value: u8) -> (r: Result<Control, ()>)
        ensures
            r matches Ok(c) ==> control_code(c) == value,
            r is Err <==> !(value < 32 || value == 127),
    {
        match value {
            0 => Ok(Control::NUL),
            1 => Ok(Control::SOH),
            2 => Ok(Control::STX),
            3 => Ok(Control::ETX),
            4 => Ok(Control::EOT),
            5 => Ok(Control::ENQ),
            6 => Ok(Control::ACK),
            7 => Ok(Control::BEL),
            8 => Ok(Control::BS),
            9 => Ok(Control::TAB),
            10 => Ok(Control::LF),
            11 => Ok(Control::VT),
            12 => Ok(Control::FF),
            13 => Ok(Control::CR),
            14 => Ok(Control::SO),
            15 => Ok(Control::SI),
            16 => Ok(Control::DLE),
            17 => Ok(Control::DC1),
            18 => Ok(Control::DC2),
            19 => Ok(Control::DC3),
            20 => Ok(Control::DC4),
            21 => Ok(Control::NAK),
            22 => Ok(Control::SYN),
            23 => Ok(Control::ETB),
            24 => Ok(Control::CAN),
            25 => Ok(Control::EM),
            26 => Ok(Control::SUB),
            27 => Ok(Control::ESC),
            28 => Ok(Control::FS),
            29 => Ok(Control::GS),
            30 => Ok(Control::RS),
            31 => Ok(Control::US),
            127 => Ok(Control::DEL),
            _ => Err(()),
        }
    }

    /// The control whose byte value is the low byte of `value` (the char is
    /// truncated to a byte first, as `char as u8` does).
    pub fn try_from_char(value: char) -> (r: Result<Control, ()>)
        ensures
            r matches Ok(c) ==> control_code(c) == (value as u32 % 256),
            r is Err <==> !((value as u32 % 256) < 32 || (value as u32 % 256) == 127),
    {
        let b = char_low_byte(value);
        Control::try_from_u8(b)
    }

    /// The canonical upper-case name of this control, as bytes.
    fn name_bytes_exec(self) -> (v: Vec<u8>)
        ensures
            v@ == name_bytes(control_name(self)),
    {
        let v: Vec<u8> = match self {
            Control::NUL => vec![78u8, 85u8, 76u8],
            Control::SOH => vec![83u8, 79u8, 72u8],
            Control::STX => vec![83u8, 84u8, 88u8],
            Control::ETX => vec![69u8, 84u8, 88u8],
            Control::EOT => vec![69u8, 79u8, 84u8],
            Control::ENQ => vec![69u8, 78u8, 81u8],
            Control::ACK => vec![65u8, 67u8, 75u8],
            Control::BEL => vec![66u8, 69u8, 76u8],
            Control::BS => vec![66u8, 83u8],
            Control::TAB => vec![84u8, 65u8, 66u8],
            Control::LF => vec![76u8, 70u8],
            Control::VT => vec![86u8, 84u8],
            Control::FF => vec![70u8, 70u8],
            Control::CR => vec![67u8, 82u8],
            Control::SO => vec![83u8, 79u8],
            Control::SI => vec![83u8, 73u8],
            Control::DLE => vec![68u8, 76u8, 69u8],
            Control::DC1 => vec![68u8, 67u8, 49u8],
            Control::DC2 => vec![68u8, 67u8, 50u8],
            Control::DC3 => vec![68u8, 67u8, 51u8],
            Control::DC4 => vec![68u8, 67u8, 52u8],
            Control::NAK => vec![78u8, 65u8, 75u8],
            Control::SYN => vec![83u8, 89u8, 78u8],
            Control::ETB => vec![69u8, 84u8, 66u8],
            Control::CAN => vec![67u8, 65u8, 78u8],
            Control::EM => vec![69u8, 77u8],
            Control::SUB => vec![83u8, 85u8, 66u8],
            Control::ESC => vec![69u8, 83u8, 67u8],
            Control::FS => vec![70u8, 83u8],
            Control::GS => vec![71u8, 83u8],
            Control::RS => vec![82u8, 83u8],
            Control::US => vec![85u8, 83u8],
            Control::DEL => vec![68u8, 69u8, 76u8],
        };
        proof {
            assert(v@ =~= name_bytes(control_name(self)));
        }
        v
    }

    /// Parses a control from its name, ignoring ASCII case (`"esc"` and
    /// `"ESC"` both give `ESC`).
    pub fn from_str(s: &str) -> (r: Result<Control, derive_more::FromStrError>)
        ensures
            r matches Ok(c) ==> name_bytes(control_name(c)) == ascii_upper_seq(s.spec_bytes()),
            r is Err <==> (forall|c: Control| name_bytes(control_name(c)) != ascii_upper_seq(s.spec_bytes())),
            r matches Err(e) ==> e == from_str_error_value("Control"@),
    {
        let bytes = s.as_bytes();
        let upper = ascii_uppercase(bytes);
        let all: [Control; 33] = [
            Control::NUL, Control::SOH, Control::STX, Control::ETX, Control::EOT, Control::ENQ, Control::ACK, Control::BEL, Control::BS, Control::TAB, Control::LF, Control::VT, Control::FF, Control::CR, Control::SO, Control::SI, Control::DLE, Control::DC1, Control::DC2, Control::DC3, Control::DC4, Control::NAK, Control::SYN, Control::ETB, Control::CAN, Control::EM, Control::SUB, Control::ESC, Control::FS, Control::GS, Control::RS, Control::US, Control::DEL,
        ];
        assert(all@ =~= all_controls());
        let mut i: usize = 0;
        while i < 33
            invariant
                0 <= i <= 33,
                all@ == all_controls(),
                upper@ == ascii_upper_seq(s.spec_bytes()),
                forall|j: int| 0 <= j < i ==> name_bytes(control_name(#[trigger] all_controls()[j])) != upper@,
            decreases 33 - i,
        {
            let c = all[i];
            let name = c.name_bytes_exec();
            if bytes_eq(&name, &upper) {
                return Ok(c);
            }
            i += 1;
        }
        proof {
            assert forall|c: Control| name_bytes(control_name(c)) != ascii_upper_seq(s.spec_bytes()) by {
                let j = control_index(c);
                assert(all_controls()[j] == c);
            }
        }
        Err(from_str_error("Control"))
    }

    /// The two-letter label of this control.
    pub fn to_string(&self) -> (s: String)
        ensures
            s@ == control_label(*self),
    {
        let label: &str = match self {
            Control::NUL => "NU",
            Control::SOH => "SO",
            Control::STX => "ST",
            Control::ETX => "ET",
            Control::EOT => "EO",
            Control::ENQ => "EN",
            Control::ACK => "AC",
            Control::BEL => "BE",
            Control::BS => "BS",
            Control::TAB => "TA",
            Control::LF => "LF",
            Control::VT => "VT",
            Control::FF => "FF",
            Control::CR => "CR",
            Control::SO => "SO",
            Control::SI => "SI",
            Control::DLE => "DL",
            Control::DC1 => "DC",
            Control::DC2 => "DC",
            Control::DC3 => "DC",
            Control::DC4 => "DC",
            Control::NAK => "NA",
            Control::SYN => "SY",
            Control::ETB => "ET",
            Control::CAN => "CA",
            Control::EM => "EM",
            Control::SUB => "SU",
            Control::ESC => "ES",
            Control::FS => "FS",
            Control::GS => "GS",
            Control::RS => "RS",
            Control::US => "US",
            Control::DEL => "DE",
        };
        label.to_owned()
    }

    /// Whether this control has byte value `other`.
    pub fn eq_u8(&self, other: u8) -> (r: bool)
        ensures
            r == (control_code(*self) == other),
    {
        self.as_u8() == other
    }

    /// Whether this control has the byte value of `other` truncated to a byte.
    pub fn eq_char(&self, other: char) -> (r: bool)
        ensures
            r == (control_code(*self) == (other as u32 % 256)),
    {
        self.as_u8() == char_low_byte(other)
    }
}

/// The position of a control in `all_controls`.
pub open spec fn control_index(c: Control) -> int {
    let b = control_code(c) as int;
    if b == 127 { 32 } else { b }
}

/// The low byte of a char's scalar value.
fn char_low_byte(c: char) -> (b: u8)
    ensures
        b == (c as u32 % 256),
{
    let v = c as u32;
    (v % 256) as u8
}

/// ASCII upper-casing of a byte string.
fn ascii_uppercase(bytes: &[u8]) -> (v: Vec<u8>)
    ensures
        v@ == ascii_upper_seq(bytes@),
{
    let mut v: Vec<u8> = Vec::new();
    let mut i: usize = 0;
    while i < bytes.len()
        invariant
            0 <= i <= bytes.len(),
            v@ == ascii_upper_seq(bytes@.take(i as int)),
        decreases bytes.len() - i,
    {
        let b = bytes[i];
        let u = if 97 <= b && b <= 122 { b - 32 } else { b };
        v.push(u);
        i += 1;
        assert(bytes@.take(i as int) =~= bytes@.take(i - 1).push(b));
        assert(v@ =~= ascii_upper_seq(bytes@.take(i as int)));
    }
    assert(bytes@.take(i as int) =~= bytes@);
    v
}

/// Byte-wise equality of two byte strings.
pub fn bytes_eq(a: &Vec<u8>, b: &Vec<u8>) -> (r: bool)
    ensures
        r == (a@ == b@),
{
    if a.len() != b.len() {
        return false;
    }
    let mut i: usize = 0;
    while i < a.len()
        invariant
            0 <= i <= a.len(),
            a.len() == b.len(),
            forall|j: int| 0 <= j < i ==> a@[j] == b@[j],
        decreases a.len() - i,
    {
        if a[i] != b[i] {
            return false;
        }
        i += 1;
    }
    assert(a@ =~= b@);
    true
}

} // verus!
