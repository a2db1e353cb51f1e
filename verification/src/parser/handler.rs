//! What the parser reports, and the callbacks that receive it.
use vstd::prelude::*;
use vstd::slice::slice_to_vec;
use crate::params::{Param, Parameters};
use crate::utf8::decoder::char_from_u32;
use vstd::utf8::is_scalar;

verus! {

/// One report of the parser.
#[derive(Clone, PartialEq, Eq, Debug)]
pub enum Record {
    /// A run of printable bytes.
    Print(Vec<u8>),
    /// A C0 control.
    Execute(u8),
    /// An escape sequence: its intermediates and final byte.
    Esc(Vec<u8>, u8),
    /// A control sequence: parameters, intermediates, final character.
    Csi(Parameters, Vec<u8>, char),
    /// The start of a device control string: parameters, intermediates,
    /// final character.
    Dcs(Parameters, Vec<u8>, char),
    /// A run of device control string data.
    DcsData(Vec<u8>),
    /// The end of a device control string, with the byte that ended it.
    DcsEnd(u8),
    /// The start of an operating system command.
    Osc,
    /// A run of operating system command data.
    OscData(Vec<u8>),
    /// The end of an operating system command, with the byte that ended it.
    OscEnd(u8),
}

/// A [`Record`] as a mathematical value.
pub ghost enum RecordView {
    Print(Seq<u8>),
    Execute(u8),
    Esc(Seq<u8>, u8),
    Csi(Seq<Param>, Seq<u8>, char),
    Dcs(Seq<Param>, Seq<u8>, char),
    DcsData(Seq<u8>),
    DcsEnd(u8),
    Osc,
    OscData(Seq<u8>),
    OscEnd(u8),
    /// One decoded character, told to a [`Utf8Handler`].
    Char(char),
}

impl View for Record {
    type V = RecordView;

    open spec fn view(&self) -> RecordView {
        match self {
            Record::Print(b) => RecordView::Print(b@),
            Record::Execute(b) => RecordView::Execute(*b),
            Record::Esc(i, b) => RecordView::Esc(i@, *b),
            Record::Csi(p, i, c) => RecordView::Csi(p@, i@, *c),
            Record::Dcs(p, i, c) => RecordView::Dcs(p@, i@, *c),
            Record::DcsData(b) => RecordView::DcsData(b@),
            Record::DcsEnd(b) => RecordView::DcsEnd(*b),
            Record::Osc => RecordView::Osc,
            Record::OscData(b) => RecordView::OscData(b@),
            Record::OscEnd(b) => RecordView::OscEnd(*b),
        }
    }
}

/// The views of a sequence of records.
pub open spec fn records_view(s: Seq<Record>) -> Seq<RecordView> {
    s.map_values(|r: Record| r@)
}

/// The code of a character is a scalar value that gives the character back.
proof fn lemma_char_code(c: char)
    ensures
        is_scalar(c as u32),
        (c as u32) as char == c,
{
}

/// Appending a record appends its view.
pub proof fn lemma_records_view_push(s: Seq<Record>, r: Record)
    ensures
        records_view(s.push(r)) == records_view(s).push(r@),
{
    assert(records_view(s.push(r)) =~= records_view(s).push(r@));
}

/// Callbacks for what the parser finds. What a handler has been told is
/// its log: each callback appends its report.
pub trait Handler {
    /// The reports told to this handler so far, in order. A handler whose
    /// callbacks are to meet their contracts defines it; this default only
    /// serves handlers written outside of verified code.
    open spec fn log(&self) -> Seq<RecordView> {
        Seq::empty()
    }

    /// A run of printable bytes.
    fn print(&mut self, bytes: &[u8])
        ensures
            final(self).log() == old(self).log().push(RecordView::Print(bytes@)),
    ;

    /// A C0 control.
    fn control(&mut self, byte: u8)
        ensures
            final(self).log() == old(self).log().push(RecordView::Execute(byte)),
    ;

    /// An escape sequence.
    fn esc(&mut self, intermediates: &[u8], final_byte: u8)
        ensures
            final(self).log() == old(self).log().push(RecordView::Esc(intermediates@, final_byte)),
    ;

    /// A control sequence.
    fn csi(&mut self, params: &[Param], intermediates: &[u8], final_char: char)
        ensures
            final(self).log() == old(self).log().push(RecordView::Csi(params@, intermediates@, final_char)),
    ;

    /// The start of a device control string.
    fn dcs(&mut self, params: &[Param], intermediates: &[u8], final_char: char)
        ensures
            final(self).log() == old(self).log().push(RecordView::Dcs(params@, intermediates@, final_char)),
    ;

    /// A run of device control string data.
    fn dcs_data(&mut self, bytes: &[u8])
        ensures
            final(self).log() == old(self).log().push(RecordView::DcsData(bytes@)),
    ;

    /// The end of a device control string.
    fn dcs_end(&mut self, byte: u8)
        ensures
            final(self).log() == old(self).log().push(RecordView::DcsEnd(byte)),
    ;

    /// The start of an operating system command.
    fn osc(&mut self)
        ensures
            final(self).log() == old(self).log().push(RecordView::Osc),
    ;

    /// A run of operating system command data.
    fn osc_data(&mut self, bytes: &[u8])
        ensures
            final(self).log() == old(self).log().push(RecordView::OscData(bytes@)),
    ;

    /// The end of an operating system command.
    fn osc_end(&mut self, byte: u8)
        ensures
            final(self).log() == old(self).log().push(RecordView::OscEnd(byte)),
    ;
}

/// A handler that also receives decoded characters.
pub trait Utf8Handler: Handler {
    /// One decoded character.
    fn char(&mut self, c: char)
        ensures
            final(self).log() == old(self).log().push(RecordView::Char(c)),
    ;
}

/// Hands each record to the matching callback of `handler`, in order.
pub fn dispatch<H: Handler>(handler: &mut H, records: &[Record])
    ensures
        final(handler).log() == old(handler).log() + records_view(records@),
{
    let mut k: usize = 0;
    assert(records@.take(0) =~= Seq::<Record>::empty());
    assert(old(handler).log() + records_view(records@.take(0)) =~= old(handler).log());
    while k < records.len()
        invariant
            k <= records@.len(),
            handler.log() == old(handler).log() + records_view(records@.take(k as int)),
        decreases records.len() - k,
    {
        match &records[k] {
            Record::Print(b) => handler.print(b.as_slice()),
            Record::Execute(b) => handler.control(*b),
            Record::Esc(i, b) => handler.esc(i.as_slice(), *b),
            Record::Csi(p, i, c) => handler.csi(p.as_slice(), i.as_slice(), *c),
            Record::Dcs(p, i, c) => handler.dcs(p.as_slice(), i.as_slice(), *c),
            Record::DcsData(b) => handler.dcs_data(b.as_slice()),
            Record::DcsEnd(b) => handler.dcs_end(*b),
            Record::Osc => handler.osc(),
            Record::OscData(b) => handler.osc_data(b.as_slice()),
            Record::OscEnd(b) => handler.osc_end(*b),
        }
        proof {
            assert(records@.take(k + 1) =~= records@.take(k as int).push(records@[k as int]));
            lemma_records_view_push(records@.take(k as int), records@[k as int]);
            assert(old(handler).log() + records_view(records@.take(k + 1)) =~= (old(handler).log()
                + records_view(records@.take(k as int))).push(records@[k as int]@));
        }
        k = k + 1;
    }
    assert(records@.take(k as int) =~= records@);
}

/// A handler that keeps every report as a [`Record`].
pub struct Recorder {
    pub records: Vec<Record>,
}

impl Recorder {
    /// A recorder that has seen nothing.
    pub fn new() -> (r: Recorder)
        ensures
            r.records@ == Seq::<Record>::empty(),
    {
        Recorder { records: Vec::new() }
    }

    /// A recorder that has seen nothing.
    pub fn default() -> (r: Recorder)
        ensures
            r.records@ == Seq::<Record>::empty(),
    {
        Recorder::new()
    }

    /// The records so far, in order.
    pub fn as_slice(&self) -> (s: &[Record])
        ensures
            s@ == self.records@,
    {
        self.records.as_slice()
    }

    /// Keeps a control sequence (`csi`) or the start of a device control
    /// string whose final character has the scalar value `code`.
    fn keep_sequence(&mut self, csi: bool, params: &[Param], intermediates: &[u8], code: u32)
        requires
            is_scalar(code),
        ensures
            records_view(final(self).records@) == records_view(old(self).records@).push(
                if csi {
                    RecordView::Csi(params@, intermediates@, code as char)
                } else {
                    RecordView::Dcs(params@, intermediates@, code as char)
                },
            ),
    {
        let c = match char_from_u32(code) {
            Some(c) => c,
            None => ' ',
        };
        let p = Parameters(slice_to_vec(params));
        let i = slice_to_vec(intermediates);
        let r = if csi { Record::Csi(p, i, c) } else { Record::Dcs(p, i, c) };
        self.keep(r);
    }

    fn keep(&mut self, r: Record)
        ensures
            records_view(final(self).records@) == records_view(old(self).records@).push(r@),
    {
        proof { lemma_records_view_push(self.records@, r); }
        self.records.push(r);
    }
}

impl Handler for Recorder {
    open spec fn log(&self) -> Seq<RecordView> {
        records_view(self.records@)
    }

    fn print(&mut self, bytes: &[u8])
    {
        let r = Record::Print(slice_to_vec(bytes));
        proof { lemma_records_view_push(self.records@, r); }
        self.keep(r);
    }

    fn control(&mut self, byte: u8)
    {
        let r = Record::Execute(byte);
        proof { lemma_records_view_push(self.records@, r); }
        self.keep(r);
    }

    fn esc(&mut self, intermediates: &[u8], final_byte: u8)
    {
        let r = Record::Esc(slice_to_vec(intermediates), final_byte);
        proof { lemma_records_view_push(self.records@, r); }
        self.keep(r);
    }

    fn csi(&mut self, params: &[Param], intermediates: &[u8], final_char: char)
    {
        let code = final_char as u32;
        proof { lemma_char_code(final_char); }
        self.keep_sequence(true, params, intermediates, code);
    }

    fn dcs(&mut self, params: &[Param], intermediates: &[u8], final_char: char)
    {
        let code = final_char as u32;
        proof { lemma_char_code(final_char); }
        self.keep_sequence(false, params, intermediates, code);
    }

    fn dcs_data(&mut self, bytes: &[u8])
    {
        let r = Record::DcsData(slice_to_vec(bytes));
        proof { lemma_records_view_push(self.records@, r); }
        self.keep(r);
    }

    fn dcs_end(&mut self, byte: u8)
    {
        let r = Record::DcsEnd(byte);
        proof { lemma_records_view_push(self.records@, r); }
        self.keep(r);
    }

    fn osc(&mut self)
    {
        let r = Record::Osc;
        proof { lemma_records_view_push(self.records@, r); }
        self.keep(r);
    }

    fn osc_data(&mut self, bytes: &[u8])
    {
        let r = Record::OscData(slice_to_vec(bytes));
        proof { lemma_records_view_push(self.records@, r); }
        self.keep(r);
    }

    fn osc_end(&mut self, byte: u8)
    {
        let r = Record::OscEnd(byte);
        proof { lemma_records_view_push(self.records@, r); }
        self.keep(r);
    }
}

} // verus!
