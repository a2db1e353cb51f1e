//! Decoding one event from the start of terminal input.
use vstd::prelude::*;
use vstd::utf8::*;
use vstd::slice::slice_subrange;
use vstd::slice::slice_to_vec;
use crate::events::Meta;
use crate::params::string_push;
use crate::utf8::decoder::char_from_u32;
use crate::utf8::lossy::{lossy_chars, lossy_string};
use super::keys::{Key, KeyKind};
use super::decode::{
    APC, DCS, Decoder, ESC, Event, EventView, KeyEvent, KeyEventView, PM, SOS, dcs_spec,
    press_mod, press_mod_spec, result_view, st_spec,
};
use super::controls::control_spec;
use super::csi::{CSI, csi_spec, lemma_csi_editing_keys, lemma_csi_cursor_keys};
use super::osc::{OSC, osc_spec};
use super::ss3::{SS3, ss3_spec, lemma_ss3_keys};

verus! {

/// The first character encoded at the start of `b` and its length in
/// bytes, when `b` starts with a well-formed UTF-8 scalar.
pub open spec fn first_char_spec(b: Seq<u8>) -> Option<(char, int)> {
    if b.len() > 0 && valid_first_scalar(b) {
        Some((decode_first_scalar(b) as char, length_of_first_scalar(b)))
    } else {
        None
    }
}

/// The first character encoded at the start of `b` and its length, or
/// `None` when `b` does not start with a well-formed UTF-8 scalar.
pub fn first_char(b: &[u8]) -> (r: Option<(char, usize)>)
    ensures
        match r {
            Some((c, n)) => first_char_spec(b@) == Some((c, n as int)),
            None => first_char_spec(b@) is None,
        },
{
    if b.len() == 0 {
        return None;
    }
    let b0 = b[0];
    let cp: u32;
    let n: usize;
    if b0 <= 0x7f {
        cp = (b0 & 0x7f) as u32;
        n = 1;
    } else if 0xc0 <= b0 && b0 <= 0xdf {
        if b.len() < 2 || !(0x80 <= b[1] && b[1] <= 0xbf) {
            return None;
        }
        cp = (((b0 & 0x1f) as u32) << 6) | ((b[1] & 0x3f) as u32);
        n = 2;
    } else if 0xe0 <= b0 && b0 <= 0xef {
        if b.len() < 3 || !(0x80 <= b[1] && b[1] <= 0xbf) || !(0x80 <= b[2] && b[2] <= 0xbf) {
            return None;
        }
        cp = (((b0 & 0x0f) as u32) << 12) | (((b[1] & 0x3f) as u32) << 6) | ((b[2] & 0x3f) as u32);
        n = 3;
    } else if 0xf0 <= b0 && b0 <= 0xf7 {
        if b.len() < 4 || !(0x80 <= b[1] && b[1] <= 0xbf) || !(0x80 <= b[2] && b[2] <= 0xbf) || !(0x80 <= b[3] && b[3] <= 0xbf) {
            return None;
        }
        cp = (((b0 & 0x07) as u32) << 18) | (((b[1] & 0x3f) as u32) << 12) | (((b[2] & 0x3f) as u32) << 6) | ((b[3] & 0x3f) as u32);
        n = 4;
    } else {
        return None;
    }
    assert(cp == decode_first_codepoint(b@) && n as int == length_of_first_codepoint(b@));
    if n == 2 && cp < 0x80 {
        return None;
    }
    if n == 3 && cp < 0x800 {
        return None;
    }
    if n == 4 && (cp < 0x10000 || cp > 0x10ffff) {
        return None;
    }
    if 0xd800 <= cp && cp <= 0xdfff {
        return None;
    }
    proof {
        if n == 1 {
            assert((b0 & 0x7f) as u32 <= 0x7f) by (bit_vector);
        } else if n == 2 {
            let x = b0;
            let y = b@[1];
            assert(((((x & 0x1f) as u32) << 6) | ((y & 0x3f) as u32)) <= 0x7ff) by (bit_vector);
        } else if n == 3 {
            let x = b0;
            let y = b@[1];
            let z = b@[2];
            assert(((((x & 0x0f) as u32) << 12) | (((y & 0x3f) as u32) << 6) | ((z & 0x3f) as u32)) <= 0xffff) by (bit_vector);
        }
        assert(is_scalar(cp));
    }
    match char_from_u32(cp) {
        Some(c) => Some((c, n)),
        None => None,
    }
}

/// An ASCII letter in uppercase.
pub open spec fn is_ascii_upper(c: u8) -> bool {
    0x41 <= c <= 0x5a
}

/// A printable character at the start of `b` (which does not start with a
/// control byte): an ASCII character types itself, an uppercase letter as
/// Shift and the lowercase key; otherwise the first grapheme cluster, of
/// `cluster` bytes, is the text, and its key is the character, or
/// `Extended` when the cluster holds several. Bytes that do not start a
/// well-formed character are unknown.
pub open spec fn utf8_key_spec(b: Seq<u8>, cluster: int) -> (int, Option<EventView>) {
    let c = b[0];
    if c < 0x7f {
        if is_ascii_upper(c) {
            (1, Some(EventView::Key(KeyEventView {
                key: Key::Char((c + 0x20) as char),
                kind: KeyKind::Press,
                meta: Meta { bits: 1 },
                text: Some(seq![c as char]),
                shifted_key: Some(c as char),
                base_key: None,
            })))
        } else {
            (1, Some(EventView::Key(KeyEventView { text: Some(seq![c as char]), ..press_mod_spec(Key::Char(c as char), 0) })))
        }
    } else {
        match first_char_spec(b) {
            None => (1, Some(EventView::Unknown(b.take(1)))),
            Some((ch, _)) => {
                let text = lossy_chars(b.take(cluster));
                (cluster, Some(EventView::Key(KeyEventView {
                    text: Some(text),
                    ..press_mod_spec(if text.len() > 1 { Key::Extended } else { Key::Char(ch) }, 0)
                })))
            },
        }
    }
}

/// The first event of terminal input `b` and how many bytes it takes, under
/// the decoder's `flags`; `clusters[k]` is the length in bytes of the first
/// grapheme cluster of `b` from `k`. ESC with a byte that starts no sequence
/// is Alt and the key that byte stands for; a lone ESC is Escape.
pub open spec fn event_spec(flags: u32, b: Seq<u8>, clusters: Seq<usize>) -> (int, Option<EventView>)
    decreases b.len(),
{
    if b.len() == 0 {
        (0, None)
    } else if b[0] == ESC {
        if b.len() == 1 {
            (1, Some(EventView::Key(press_mod_spec(Key::Escape, 0))))
        } else if b[1] == 0x4f {
            ss3_spec(b)
        } else if b[1] == 0x50 {
            dcs_spec(b)
        } else if b[1] == 0x5b {
            csi_spec(flags, b)
        } else if b[1] == 0x5d {
            osc_spec(b)
        } else if b[1] == 0x5f {
            st_spec(APC, 0x5f, true, b)
        } else if b[1] == 0x5e {
            st_spec(PM, 0x5e, false, b)
        } else if b[1] == 0x58 {
            st_spec(SOS, 0x58, false, b)
        } else {
            match event_spec(flags, b.skip(1), clusters.skip(1)) {
                (n, Some(EventView::Key(k))) => if k.kind == KeyKind::Press {
                    (n + 1, Some(EventView::Key(KeyEventView { text: None, meta: Meta { bits: k.meta.bits | 4 }, ..k })))
                } else {
                    (1, Some(EventView::Key(press_mod_spec(Key::Escape, 0))))
                },
                _ => (1, Some(EventView::Key(press_mod_spec(Key::Escape, 0)))),
            }
        }
    } else if b[0] == SS3 {
        ss3_spec(b)
    } else if b[0] == DCS {
        dcs_spec(b)
    } else if b[0] == CSI {
        csi_spec(flags, b)
    } else if b[0] == OSC {
        osc_spec(b)
    } else if b[0] == APC {
        st_spec(APC, 0x5f, true, b)
    } else if b[0] == PM {
        st_spec(PM, 0x5e, false, b)
    } else if b[0] == SOS {
        st_spec(SOS, 0x58, false, b)
    } else if b[0] <= 0x1f || b[0] == 0x7f || b[0] == 0x20 {
        (1, Some(control_spec(flags, b[0])))
    } else if 0x80 <= b[0] <= 0x9f {
        (1, Some(EventView::Key(press_mod_spec(Key::Char((b[0] - 0x40) as char), 6))))
    } else {
        utf8_key_spec(b, clusters[0] as int)
    }
}

/// The lengths that `clusters` may hold for `b`: one per byte, each a
/// nonempty run that stays inside `b`.
pub open spec fn clusters_fit(b: Seq<u8>, clusters: Seq<usize>) -> bool {
    &&& clusters.len() == b.len()
    &&& forall|k: int| 0 <= k < b.len() ==> 1 <= #[trigger] clusters[k] <= b.len() - k
}

impl Decoder {
    fn parse_utf8_key(&self, b: &[u8], cluster: usize) -> (r: (usize, Option<Event>))
        requires
            b@.len() > 0,
            1 <= cluster <= b@.len(),
            !(b@[0] <= 0x1f || b@[0] == 0x7f),
        ensures
            result_view(r) == utf8_key_spec(b@, cluster as int),
            1 <= r.0 <= b@.len(),
            r.1 is Some,
    {
        let c = b[0];
        if c < 0x7f {
            let mut t = String::new();
            string_push(&mut t, c as char);
            if 0x41 <= c && c <= 0x5a {
                return (1, Some(Event::Key(KeyEvent {
                    key: Key::Char((c + 0x20) as char),
                    kind: KeyKind::Press,
                    meta: Meta { bits: 1 },
                    text: Some(t),
                    shifted_key: Some(c as char),
                    base_key: None,
                })));
            }
            return (1, Some(Event::Key(KeyEvent {
                key: Key::Char(c as char),
                kind: KeyKind::Press,
                meta: Meta { bits: 0 },
                text: Some(t),
                shifted_key: None,
                base_key: None,
            })));
        }
        match first_char(b) {
            None => {
                let v = slice_to_vec(slice_subrange(b, 0, 1));
                proof { assert(v@ =~= b@.take(1)); }
                (1, Some(Event::Unknown(v)))
            },
            Some((ch, _)) => {
                let bytes = slice_subrange(b, 0, cluster);
                proof { assert(bytes@ =~= b@.take(cluster as int)); }
                let text = lossy_string(bytes);
                let key = if text.as_str().unicode_len() > 1 { Key::Extended } else { Key::Char(ch) };
                (cluster, Some(Event::Key(KeyEvent {
                    key,
                    kind: KeyKind::Press,
                    meta: Meta { bits: 0 },
                    text: Some(text),
                    shifted_key: None,
                    base_key: None,
                })))
            },
        }
    }

    /// Decodes the first event of terminal input `buf`: how many bytes it
    /// takes and the event, `(0, None)` for empty input, `Unknown` for a
    /// sequence that is not understood. `clusters[k]` is the length in bytes
    /// of the first grapheme cluster of `buf` from `k`.
    pub fn decode(&mut self, buf: &[u8], clusters: &[usize]) -> (r: (usize, Option<Event>))
        requires
            clusters_fit(buf@, clusters@),
        ensures
            result_view(r) == event_spec(old(self).flags, buf@, clusters@),
            buf@.len() > 0 ==> 1 <= r.0 && r.1 is Some,
            r.0 <= buf@.len(),
            *final(self) == *old(self),
        decreases buf@.len(),
    {
        if buf.len() == 0 {
            return (0, None);
        }
        let b0 = buf[0];
        if b0 == ESC {
            if buf.len() == 1 {
                return (1, Some(Event::Key(press_mod(Key::Escape, 0))));
            }
            let b1 = buf[1];
            if b1 == 0x4f {
                return self.parse_ss3(buf);
            } else if b1 == 0x50 {
                return self.parse_dcs(buf);
            } else if b1 == 0x5b {
                return self.parse_csi(buf);
            } else if b1 == 0x5d {
                return self.parse_osc(buf);
            } else if b1 == 0x5f {
                return self.parse_apc(buf);
            } else if b1 == 0x5e {
                return self.parse_st_terminated(PM, 0x5e, false, buf);
            } else if b1 == 0x58 {
                return self.parse_st_terminated(SOS, 0x58, false, buf);
            }
            let rest = slice_subrange(buf, 1, buf.len());
            let rest_clusters = slice_subrange(clusters, 1, clusters.len());
            proof {
                assert(rest@ =~= buf@.skip(1));
                assert(rest_clusters@ =~= clusters@.skip(1));
                assert forall|k: int| 0 <= k < rest@.len() implies 1 <= #[trigger] rest_clusters@[k] <= rest@.len() - k by {
                    assert(rest_clusters@[k] == clusters@[k + 1]);
                }
            }
            let (n, ev) = self.decode(rest, rest_clusters);
            match ev {
                Some(Event::Key(k)) => {
                    if k.kind == KeyKind::Press {
                        let mut k = k;
                        k.text = None;
                        k.meta = Meta { bits: k.meta.bits | 4 };
                        return (n + 1, Some(Event::Key(k)));
                    }
                },
                _ => {},
            }
            return (1, Some(Event::Key(press_mod(Key::Escape, 0))));
        }
        if b0 == SS3 {
            self.parse_ss3(buf)
        } else if b0 == DCS {
            self.parse_dcs(buf)
        } else if b0 == CSI {
            self.parse_csi(buf)
        } else if b0 == OSC {
            self.parse_osc(buf)
        } else if b0 == APC {
            self.parse_apc(buf)
        } else if b0 == PM {
            self.parse_st_terminated(PM, 0x5e, false, buf)
        } else if b0 == SOS {
            self.parse_st_terminated(SOS, 0x58, false, buf)
        } else if b0 <= 0x1f || b0 == 0x7f || b0 == 0x20 {
            (1, Some(self.parse_control(b0)))
        } else if 0x80 <= b0 && b0 <= 0x9f {
            (1, Some(Event::Key(press_mod(Key::Char((b0 - 0x40) as char), 6))))
        } else {
            self.parse_utf8_key(buf, clusters[0])
        }
    }
}

/// One printable ASCII byte types itself: a lowercase letter or other
/// character is its own key, an uppercase letter is Shift and the
/// lowercase key (its shifted key the uppercase one). After ESC, a
/// lowercase letter is the same key with Alt and no text. A lone ESC is
/// Escape and empty input is no event.
pub proof fn lemma_decode_ascii(flags: u32, c: u8)
    requires
        0x21 <= c <= 0x7e,
    ensures
        !(0x41 <= c <= 0x5a) ==> event_spec(flags, seq![c], seq![1usize]) == (1int, Some(EventView::Key(KeyEventView {
            key: Key::Char(c as char),
            kind: KeyKind::Press,
            meta: Meta { bits: 0 },
            text: Some(seq![c as char]),
            shifted_key: None,
            base_key: None,
        }))),
        0x41 <= c <= 0x5a ==> event_spec(flags, seq![c], seq![1usize]) == (1int, Some(EventView::Key(KeyEventView {
            key: Key::Char((c + 0x20) as char),
            kind: KeyKind::Press,
            meta: Meta { bits: 1 },
            text: Some(seq![c as char]),
            shifted_key: Some(c as char),
            base_key: None,
        }))),
        0x61 <= c <= 0x7a ==> event_spec(flags, seq![ESC, c], seq![1usize, 1usize]) == (2int, Some(EventView::Key(
            press_mod_spec(Key::Char(c as char), 4)))),
        event_spec(flags, seq![ESC], seq![1usize]) == (1int, Some(EventView::Key(press_mod_spec(Key::Escape, 0)))),
        event_spec(flags, Seq::<u8>::empty(), Seq::<usize>::empty()) == (0int, None::<EventView>),
{
    assert((0u16 | 4u16) == 4u16) by (bit_vector);
    let inner = event_spec(flags, seq![c], seq![1usize]);
    assert(inner.0 == 1 && inner.1 is Some);
    assert(seq![ESC, c].skip(1) =~= seq![c]);
    assert(seq![1usize, 1usize].skip(1) =~= seq![1usize]);
    assert(event_spec(flags, seq![ESC, c].skip(1), seq![1usize, 1usize].skip(1)) == event_spec(flags, seq![c], seq![1usize]));
}

/// A C1 control byte that starts no sequence is Ctrl+Alt and the byte less
/// 0x40.
pub proof fn lemma_decode_c1(flags: u32, b: u8)
    requires
        0x80 <= b <= 0x9f,
        b != SS3 && b != DCS && b != CSI && b != OSC && b != APC && b != PM && b != SOS,
    ensures
        event_spec(flags, seq![b], seq![1usize]) == (1int, Some(EventView::Key(press_mod_spec(Key::Char((b - 0x40) as char), 6)))),
{
}

/// Decoding `ESC [ 5 ~` gives a Page Up press and `ESC [ 6 ~` a Page Down
/// press, `ESC [ A` an Up press, and `ESC O P` F1, whatever the cluster
/// lengths.
#[verifier::rlimit(50)]
pub proof fn lemma_decode_navigation_keys(flags: u32, cl: Seq<usize>)
    ensures
        event_spec(flags, seq![ESC, 0x5bu8, 0x35u8, 0x7eu8], cl) == (4int, Some(EventView::Key(press_mod_spec(Key::PageUp, 0)))),
        event_spec(flags, seq![ESC, 0x5bu8, 0x36u8, 0x7eu8], cl) == (4int, Some(EventView::Key(press_mod_spec(Key::PageDown, 0)))),
        event_spec(flags, seq![ESC, 0x5bu8, 0x41u8], cl) == (3int, Some(EventView::Key(press_mod_spec(Key::Up, 0)))),
        event_spec(flags, seq![ESC, 0x4fu8, 0x50u8], cl) == (3int, Some(EventView::Key(press_mod_spec(Key::F(1), 0)))),
{
    let b1 = seq![ESC, 0x5bu8, 0x35u8, 0x7eu8];
    let b2 = seq![ESC, 0x5bu8, 0x36u8, 0x7eu8];
    let b3 = seq![ESC, 0x5bu8, 0x41u8];
    let b4 = seq![ESC, 0x4fu8, 0x50u8];
    assert(event_spec(flags, b1, cl) == csi_spec(flags, b1));
    assert(event_spec(flags, b2, cl) == csi_spec(flags, b2));
    assert(event_spec(flags, b3, cl) == csi_spec(flags, b3));
    assert(event_spec(flags, b4, cl) == ss3_spec(b4));
    lemma_csi_editing_keys(flags);
    lemma_csi_cursor_keys(flags);
    lemma_ss3_keys(0x70);
}

} // verus!
