//! Operating system commands (OSC): color and clipboard replies.
use vstd::prelude::*;
use vstd::slice::slice_subrange;
use vstd::slice::slice_to_vec;
use super::keys::Key;
use super::decode::{
    Decoder, Event, EventView, CAN, ESC, ST, SUB, first_of, lemma_first_of, press_mod,
    press_mod_spec, result_view, st_data_start,
};
use super::base64::{b64_decode, b64_decode_spec};
use crate::utf8::lossy::{lossy_chars, lossy_string};

verus! {

/// The 8-bit operating system command introducer.
pub const OSC: u8 = 0x9d;

/// The bell, which also ends an OSC string.
pub const BEL: u8 = 0x07;

/// A byte that ends the data of an OSC string: BEL, ESC, ST, CAN or SUB.
pub open spec fn is_osc_stop(x: u8) -> bool {
    x == BEL || x == ESC || x == ST || x == CAN || x == SUB
}

/// The first index from `i` whose byte ends OSC data, or the length.
pub open spec fn first_osc_stop(b: Seq<u8>, i: int) -> int
    decreases b.len() - i,
{
    if i < 0 || i >= b.len() {
        b.len() as int
    } else if is_osc_stop(b[i]) {
        i
    } else {
        first_osc_stop(b, i + 1)
    }
}

pub proof fn lemma_first_osc_stop(b: Seq<u8>, i: int)
    requires
        0 <= i <= b.len(),
    ensures
        i <= first_osc_stop(b, i) <= b.len(),
        first_osc_stop(b, i) < b.len() ==> is_osc_stop(b[first_osc_stop(b, i)]),
    decreases b.len() - i,
{
    if i < b.len() && !is_osc_stop(b[i]) {
        lemma_first_osc_stop(b, i + 1);
    }
}

pub open spec fn is_digit(x: u8) -> bool {
    0x30 <= x <= 0x39
}

/// The first index from `i` that does not hold an ASCII digit, or the length.
pub open spec fn first_non_digit(b: Seq<u8>, i: int) -> int
    decreases b.len() - i,
{
    if i < 0 || i >= b.len() {
        b.len() as int
    } else if !is_digit(b[i]) {
        i
    } else {
        first_non_digit(b, i + 1)
    }
}

pub proof fn lemma_first_non_digit(b: Seq<u8>, i: int)
    requires
        0 <= i <= b.len(),
    ensures
        i <= first_non_digit(b, i) <= b.len(),
        forall|k: int| i <= k < first_non_digit(b, i) ==> is_digit(#[trigger] b[k]),
    decreases b.len() - i,
{
    if i < b.len() && is_digit(b[i]) {
        lemma_first_non_digit(b, i + 1);
    }
}

/// The decimal number that the digits `b[i..j]` spell.
pub open spec fn digits_value(b: Seq<u8>, i: int, j: int) -> int
    decreases j - i,
{
    if j <= i {
        0
    } else {
        digits_value(b, i, j - 1) * 10 + (b[j - 1] - 0x30)
    }
}

/// ESC `]` alone, or an OSC cut short: Alt and the byte after ESC.
pub open spec fn osc_default_key(b: Seq<u8>) -> (int, Option<EventView>) {
    (2, Some(EventView::Key(press_mod_spec(Key::Char(b[1] as char), 4))))
}

/// A clipboard reply (`52;selection;base64`): the first byte of the
/// selection and the decoded content, read lossily as UTF-8; content that is
/// not base64 is read as it is. Without a selection or a payload, an empty
/// reply.
pub open spec fn clipboard_spec(data: Seq<u8>) -> EventView {
    let sc = first_of(data, 0x3b, 0);
    if sc == 0 || sc >= data.len() {
        EventView::Clipboard(None, Seq::empty())
    } else {
        let payload = data.skip(sc + 1);
        EventView::Clipboard(
            Some(data[0] as char),
            match b64_decode_spec(payload) {
                Some(bytes) => lossy_chars(bytes),
                None => lossy_chars(payload),
            },
        )
    }
}

/// The event of an OSC with command `cmd` and data `data`; `whole` is the
/// sequence. Commands 10, 11 and 12 report colors, 52 the clipboard.
pub open spec fn osc_event(cmd: int, data: Seq<u8>, whole: Seq<u8>) -> EventView {
    if cmd == 10 {
        EventView::ForegroundColor(data)
    } else if cmd == 11 {
        EventView::BackgroundColor(data)
    } else if cmd == 12 {
        EventView::CursorColor(data)
    } else if cmd == 52 {
        clipboard_spec(data)
    } else {
        EventView::Unknown(whole)
    }
}

/// An OSC read from the start of `b`: how many bytes it takes and the
/// event. The command number (-1 when there is none) may be followed by `;`
/// and the data, which BEL, ST or `ESC \` end; CAN or SUB cancel the
/// sequence; an ESC not followed by `\` ends a cancelled sequence, or makes
/// the introducer Alt+`]` when there was no command or no data.
pub open spec fn osc_spec(b: Seq<u8>) -> (int, Option<EventView>) {
    if b.len() == 2 && b[0] == ESC {
        osc_default_key(b)
    } else {
        let i0 = st_data_start(0x5d, b);
        let d = first_non_digit(b, i0);
        let cmd = if d == i0 { -1 } else { digits_value(b, i0, d) };
        let has_semi = d < b.len() && b[d] == 0x3b;
        let start = if has_semi { d + 1 } else { 0 };
        let end = first_osc_stop(b, if has_semi { d + 1 } else { d });
        if end >= b.len() {
            (end, Some(EventView::Unknown(b.take(end))))
        } else {
            let i = end + 1;
            if b[end] == CAN || b[end] == SUB {
                (i, Some(EventView::Ignored(b.take(i))))
            } else if b[end] == ESC && (i >= b.len() || b[i] != 0x5c) {
                if cmd == -1 || (start == 0 && end == 2) {
                    osc_default_key(b)
                } else {
                    (i, Some(EventView::Ignored(b.take(i))))
                }
            } else {
                let j = if b[end] == ESC { i + 1 } else { i };
                if end <= start {
                    (j, Some(EventView::Unknown(b.take(j))))
                } else {
                    (j, Some(osc_event(cmd, b.subrange(start, end), b.take(j))))
                }
            }
        }
    }
}

fn osc_default_key_exec(b: &[u8]) -> (r: (usize, Option<Event>))
    requires
        b@.len() >= 2,
    ensures
        result_view(r) == osc_default_key(b@),
{
    (2, Some(Event::Key(press_mod(Key::Char(b[1] as char), 4))))
}

fn prefix_event(b: &[u8], n: usize, ignored: bool) -> (e: Event)
    requires
        n <= b@.len(),
    ensures
        e@ == (if ignored { EventView::Ignored(b@.take(n as int)) } else { EventView::Unknown(b@.take(n as int)) }),
{
    let v = slice_to_vec(slice_subrange(b, 0, n));
    proof { assert(v@ =~= b@.take(n as int)); }
    if ignored { Event::Ignored(v) } else { Event::Unknown(v) }
}

fn clipboard(data: &[u8]) -> (e: Event)
    ensures
        e@ == clipboard_spec(data@),
{
    let mut sc: usize = 0;
    while sc < data.len() && data[sc] != 0x3b
        invariant
            sc <= data@.len(),
            first_of(data@, 0x3b, 0) == first_of(data@, 0x3b, sc as int),
        decreases data@.len() - sc,
    {
        sc = sc + 1;
    }
    if sc == 0 || sc >= data.len() {
        return Event::Clipboard { selection: None, content: String::new() };
    }
    let payload = slice_subrange(data, sc + 1, data.len());
    proof { assert(payload@ =~= data@.skip(sc + 1)); }
    let content = match b64_decode(payload) {
        Some(bytes) => lossy_string(bytes.as_slice()),
        None => lossy_string(payload),
    };
    Event::Clipboard { selection: Some(data[0] as char), content }
}

fn osc_event_exec(cmd: u32, data: &[u8], whole: &[u8]) -> (e: Event)
    ensures
        e@ == osc_event(cmd as int, data@, whole@),
{
    if cmd == 10 {
        Event::ForegroundColor(slice_to_vec(data))
    } else if cmd == 11 {
        Event::BackgroundColor(slice_to_vec(data))
    } else if cmd == 12 {
        Event::CursorColor(slice_to_vec(data))
    } else if cmd == 52 {
        clipboard(data)
    } else {
        Event::Unknown(slice_to_vec(whole))
    }
}

impl Decoder {
    /// Reads an OSC from the start of `b`, which starts with OSC or ESC:
    /// colour and clipboard replies become their events, other commands
    /// `Unknown`; ESC `]` alone is Alt+`]`.
    pub fn parse_osc(&mut self, b: &[u8]) -> (r: (usize, Option<Event>))
        requires
            b@.len() > 0,
            b@[0] == OSC || b@[0] == ESC,
        ensures
            result_view(r) == osc_spec(b@),
            1 <= r.0,
            r.1 is Some,
            r.0 <= b@.len(),
            *final(self) == *old(self),
    {
        if b.len() == 2 && b[0] == ESC {
            return osc_default_key_exec(b);
        }
        let mut i: usize = 1;
        if i < b.len() && b[0] == ESC && b[1] == 0x5d {
            i = 2;
        }
        let i0 = i;
        proof { lemma_first_non_digit(b@, i0 as int); }
        // The command number, held at most 1000: only 10, 11, 12 and 52
        // mean something.
        let mut cmd: u32 = 0;
        while i < b.len() && 0x30 <= b[i] && b[i] <= 0x39
            invariant
                i0 <= i <= b@.len(),
                first_non_digit(b@, i0 as int) == first_non_digit(b@, i as int),
                cmd as int == if digits_value(b@, i0 as int, i as int) < 1000 {
                    digits_value(b@, i0 as int, i as int)
                } else {
                    1000
                },
                digits_value(b@, i0 as int, i as int) >= 0,
            decreases b@.len() - i,
        {
            let v = cmd * 10 + (b[i] - 0x30) as u32;
            cmd = if v < 1000 { v } else { 1000 };
            i = i + 1;
        }
        let d = i;
        let no_cmd = d == i0;
        let has_semi = d < b.len() && b[d] == 0x3b;
        let start: usize = if has_semi { d + 1 } else { 0 };
        i = if has_semi { d + 1 } else { d };
        proof { lemma_first_osc_stop(b@, i as int); }
        while i < b.len() && !(b[i] == BEL || b[i] == ESC || b[i] == ST || b[i] == CAN || b[i] == SUB)
            invariant
                i <= b@.len(),
                first_osc_stop(b@, if has_semi { d + 1 } else { d as int }) == first_osc_stop(b@, i as int),
            decreases b@.len() - i,
        {
            i = i + 1;
        }
        if i >= b.len() {
            return (i, Some(prefix_event(b, i, false)));
        }
        let end = i;
        i = i + 1;
        if b[end] == CAN || b[end] == SUB {
            return (i, Some(prefix_event(b, i, true)));
        }
        if b[end] == ESC {
            if i >= b.len() || b[i] != 0x5c {
                if no_cmd || (start == 0 && end == 2) {
                    return osc_default_key_exec(b);
                }
                return (i, Some(prefix_event(b, i, true)));
            }
            i = i + 1;
        }
        if end <= start {
            return (i, Some(prefix_event(b, i, false)));
        }
        let data = slice_subrange(b, start, end);
        let whole = slice_subrange(b, 0, i);
        proof {
            assert(data@ =~= b@.subrange(start as int, end as int));
            assert(whole@ =~= b@.take(i as int));
        }
        (i, Some(osc_event_exec(cmd, data, whole)))
    }
}

proof fn lemma_first_osc_stop_skip(b: Seq<u8>, k: int, m: int)
    requires
        0 <= k <= m <= b.len(),
        forall|i: int| k <= i < m ==> 0x20 <= #[trigger] b[i] <= 0x7e,
    ensures
        first_osc_stop(b, k) == first_osc_stop(b, m),
    decreases m - k,
{
    if k < m {
        lemma_first_osc_stop_skip(b, k + 1, m);
    }
}

/// Color replies: `ESC ] 10 ; text BEL` reports the foreground color
/// `text`, `11` the background and `12` the cursor color, for any
/// printable, nonempty text; the sequence takes all its bytes.
pub proof fn lemma_osc_color_replies(d: u8, text: Seq<u8>)
    requires
        0x30 <= d <= 0x32,
        text.len() > 0,
        forall|i: int| 0 <= i < text.len() ==> 0x20 <= #[trigger] text[i] <= 0x7e,
    ensures
        ({
            let b = seq![ESC, 0x5du8, 0x31u8, d, 0x3bu8] + text + seq![BEL];
            osc_spec(b) == (b.len() as int, Some(
                if d == 0x30 { EventView::ForegroundColor(text) }
                else if d == 0x31 { EventView::BackgroundColor(text) }
                else { EventView::CursorColor(text) }))
        }),
{
    let b = seq![ESC, 0x5du8, 0x31u8, d, 0x3bu8] + text + seq![BEL];
    let l = text.len() as int;
    assert(b[0] == ESC && b[1] == 0x5d && b[2] == 0x31 && b[3] == d && b[4] == 0x3b && b[5 + l] == BEL);
    assert forall|i: int| 5 <= i < 5 + l implies 0x20 <= #[trigger] b[i] <= 0x7e by {
        assert(b[i] == text[i - 5]);
    }
    assert(first_non_digit(b, 4) == 4);
    assert(first_non_digit(b, 3) == 4);
    assert(first_non_digit(b, 2) == 4);
    assert(digits_value(b, 2, 2) == 0);
    assert(digits_value(b, 2, 3) == 1);
    assert(digits_value(b, 2, 4) == 10 + (d - 0x30));
    lemma_first_osc_stop_skip(b, 5, 5 + l);
    assert(first_osc_stop(b, 5) == 5 + l);
    assert(b.subrange(5, 5 + l) =~= text);
    assert(b.take(6 + l) =~= b);
}

} // verus!
