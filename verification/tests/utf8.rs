use ansi::parser::utf8_parser;
use ansi::utf8::decoder::{Codepoint, Decoder, Event};
use ansi::utf8::dfa::{State, step, step_decode, validate, validate_dual, validate_triple};

fn from_utf8_ours(bytes: &[u8]) -> String {
    let mut decoder = Decoder::new();
    let mut out = String::new();
    for codepoint in decoder.decode(bytes) {
        match codepoint {
            Codepoint::Scalar(c) => out.push(c),
            Codepoint::Invalid => out.push(char::REPLACEMENT_CHARACTER),
        }
    }
    if let Some(Event::Incomplete) = decoder.flush() {
        out.push(char::REPLACEMENT_CHARACTER);
    }
    out
}

fn assert_lossy(bytes: &[u8]) {
    let expected = String::from_utf8_lossy(bytes);
    let actual = from_utf8_ours(bytes);
    assert_eq!(actual, expected, "for {:02X?}", bytes);
}

fn assert_decodes_to(bytes: &[u8], expected: &str) {
    assert_eq!(from_utf8_ours(bytes), expected, "for {:02X?}", bytes);
}

#[test]
fn test_valid_ascii() {
    let mut state = State::accept();
    for &byte in b"Hello, World!" {
        state = step(state, byte);
        assert!(!state.is_reject());
    }
    assert!(state.is_accept());
}

#[test]
fn test_valid_utf8() {
    let bytes = "Hello, 世界! 😀".as_bytes();
    let mut state = State::accept();
    for &byte in bytes {
        state = step(state, byte);
        assert!(!state.is_reject());
    }
    assert!(state.is_accept());
}

#[test]
fn test_decode() {
    let bytes = "A世".as_bytes();
    let mut state = State::accept();
    let mut codepoint = 0u32;
    let mut codepoints = Vec::new();
    for &byte in bytes {
        state = step_decode(state, byte, &mut codepoint);
        if state.is_accept() {
            codepoints.push(codepoint);
            codepoint = 0;
        }
    }
    assert_eq!(codepoints, vec![0x41, 0x4E16]);
}

#[test]
fn test_validate_slice() {
    assert!(validate(State::accept(), b"Hello").is_accept());
    assert!(validate(State::accept(), b"Hello, \xF0\x9F\x98\x80!").is_accept());
}

#[test]
fn test_invalid_utf8() {
    let mut state = State::accept();
    state = step(state, 0xC2);
    state = step(state, 0x7F);
    assert!(state.is_reject());

    state = State::accept();
    state = step(state, 0xE0);
    state = step(state, 0x9F);
    assert!(state.is_reject());
}

#[test]
fn test_validate_dual() {
    let valid = "Hello, World! This is a test of parallel validation.".as_bytes();
    assert!(validate_dual(State::accept(), valid).is_accept());
}

#[test]
fn validators_agree_on_invalid_input() {
    let bytes = b"abc\xE0\x80def ghijklmnopqrstuvwxyz 0123456789";
    assert!(validate(State::accept(), bytes).is_reject());
    assert!(validate_dual(State::accept(), bytes).is_reject());
    assert!(validate_triple(State::accept(), bytes).is_reject());
}

#[test]
fn validate_triple_accepts_text() {
    let valid = "Triple validation of a longer text: 世界 😀 and some more ASCII.".as_bytes();
    assert!(validate_triple(State::accept(), valid).is_accept());
}

#[test]
fn decoder_ascii() {
    assert_lossy(b"Hello, World!");
}

#[test]
fn decoder_multibyte_scalars() {
    let s = "héllo → € ｗｉｄｅ 𝄞 🦀 \u{7FF}\u{800}\u{FFFF}\u{10000}\u{10FFFF}";
    assert_decodes_to(s.as_bytes(), s);
}

#[test]
fn decoder_pending_across_feeds() {
    let mut p = Decoder::default();
    let crab = "🦀".as_bytes();
    assert_eq!(p.next(crab[0]), Event::Incomplete);
    assert!(p.is_incomplete());
    assert_eq!(p.next(crab[1]), Event::Incomplete);
    assert_eq!(p.next(crab[2]), Event::Incomplete);
    assert_eq!(p.next(crab[3]), Event::Complete('🦀'));
    assert!(!p.is_incomplete());
}

#[test]
fn decoder_unicode_table_3_11_maximal_subparts() {
    assert_eq!(from_utf8_ours(b"\x61\xF1\x80\x80\xE1\x80\xC2\x62"), "a\u{FFFD}\u{FFFD}\u{FFFD}b");
}

#[test]
fn advance_incomplete_yields_nothing() {
    let mut p = Decoder::default();
    let crab = "🦀".as_bytes();
    for &b in &crab[..3] {
        assert_eq!(p.advance(b).len(), 0);
        assert!(p.is_incomplete());
    }
    assert_eq!(p.advance(crab[3]).to_vec(), vec![Codepoint::Scalar('🦀')]);
}

#[test]
fn advance_invalid_then_reprocess() {
    let mut p = Decoder::default();
    assert_eq!(p.advance(0xC3).len(), 0);
    assert_eq!(p.advance(b'A').to_vec(), vec![Codepoint::Invalid, Codepoint::Scalar('A')]);
}

#[test]
fn decoder_classic_ill_formed_sequences() {
    assert_decodes_to(b"\x80", "\u{FFFD}");
    assert_decodes_to(b"\xC0\xAF", "\u{FFFD}\u{FFFD}");
    assert_lossy(b"\xE0\x80\xAF");
    assert_decodes_to(b"\xED\xA0\x80", "\u{FFFD}\u{FFFD}\u{FFFD}");
    assert_lossy(b"\xF4\x90\x80\x80");
    assert_decodes_to(b"\xFE\xFFok", "\u{FFFD}\u{FFFD}ok");
}

#[test]
fn decoder_truncated_at_eof_flushes_invalid() {
    assert_decodes_to(b"ok\xE2\x82", "ok\u{FFFD}");
    assert_decodes_to(b"\xF0\x9F\xA6", "\u{FFFD}");
}

#[test]
fn decoder_reset_discards_pending_silently() {
    let mut p = Decoder::default();
    p.advance(0xE2);
    assert!(p.is_incomplete());
    p.clear();
    assert!(!p.is_incomplete());
    assert_eq!(p.flush(), None);
    assert_eq!(p.advance(b'x').to_vec(), vec![Codepoint::Scalar('x')]);
}

#[test]
fn decoder_exhaustive_short_inputs() {
    for a in 0..=255u8 {
        assert_lossy(&[a]);
        for b in 0..=255u8 {
            assert_lossy(&[a, b]);
        }
    }
}

fn lossy_parser(bytes: &[u8]) -> String {
    let mut parser = utf8_parser::Parser::default();
    let mut out = String::new();
    for &byte in bytes {
        let mut events = parser.advance(byte);
        while let Some(event) = events.next() {
            match event {
                utf8_parser::Event::Char(c) => out.push(c),
                utf8_parser::Event::Invalid => out.push(char::REPLACEMENT_CHARACTER),
            }
        }
    }
    if parser.flush() == Some(utf8_parser::Event::Invalid) {
        out.push(char::REPLACEMENT_CHARACTER);
    }
    out
}

#[test]
fn utf8_parser_exhaustive_short_inputs() {
    for a in 0..=255u8 {
        assert_eq!(lossy_parser(&[a]), String::from_utf8_lossy(&[a]), "for {:02X?}", [a]);
        for b in 0..=255u8 {
            assert_eq!(lossy_parser(&[a, b]), String::from_utf8_lossy(&[a, b]), "for {:02X?}", [a, b]);
        }
    }
}

#[test]
fn utf8_parser_example() {
    assert_eq!(lossy_parser(b"a\xF0\x9F\xA6\x80b\x80"), "a🦀b\u{FFFD}");
}

#[test]
fn utf8_parser_unicode_table_3_11_maximal_subparts() {
    assert_eq!(lossy_parser(b"\x61\xF1\x80\x80\xE1\x80\xC2\x62"), "a\u{FFFD}\u{FFFD}\u{FFFD}b");
}

#[test]
fn invalid_then_char_in_one_advance() {
    let mut p = utf8_parser::Parser::default();
    assert_eq!(p.advance(0xC3).next(), None); // pending 2-byte seq
    let mut steps = p.advance(b'A'); // not a continuation
    assert_eq!(steps.len(), 2);
    assert_eq!(steps.next(), Some(utf8_parser::Event::Invalid));
    assert_eq!(steps.next(), Some(utf8_parser::Event::Char('A')));
    assert_eq!(steps.next(), None);
}

#[test]
fn invalid_then_char_after_truncated_four_byte() {
    let mut p = utf8_parser::Parser::new();
    assert!(p.advance(0xF1).is_none());
    assert!(p.advance(0x80).is_pending());
    let mut events = p.advance(b'A');
    assert_eq!(events.len(), 2);
    assert_eq!(events.next(), Some(utf8_parser::Event::Invalid));
    assert_eq!(events.next(), Some(utf8_parser::Event::Char('A')));
    assert_eq!(events.next(), None);
    assert_eq!(events.len(), 0);
}

#[test]
fn utf8_parser_ascii() {
    assert_eq!(lossy_parser(b"hello, world"), "hello, world");
}

#[test]
fn utf8_parser_multibyte_scalars() {
    // 2-, 3-, 4-byte sequences incl. BMP edges and astral plane.
    let s = "héllo → € ｗｉｄｅ 𝄞 🦀 \u{7FF}\u{800}\u{FFFF}\u{10000}\u{10FFFF}";
    assert_eq!(lossy_parser(s.as_bytes()), s);
}

#[test]
fn utf8_parser_pending_across_feeds() {
    let mut p = utf8_parser::Parser::default();
    let crab = "🦀".as_bytes(); // F0 9F A6 80

    assert_eq!(p.advance(crab[0]).next(), None);
    assert!(p.is_pending());
    assert_eq!(p.advance(crab[1]).next(), None);
    assert_eq!(p.advance(crab[2]).next(), None);
    assert_eq!(p.advance(crab[3]).next(), Some(utf8_parser::Event::Char('🦀')));
    assert!(!p.is_pending());
}

fn assert_lossy_parser(bytes: &[u8]) {
    assert_eq!(lossy_parser(bytes), String::from_utf8_lossy(bytes), "diverged from std on {:02X?}", bytes);
}

#[test]
fn utf8_parser_classic_ill_formed_sequences() {
    // Stray continuation byte.
    assert_eq!(lossy_parser(b"\x80"), "\u{FFFD}");
    // Overlong "/" (C0 AF): C0 invalid outright, AF stray.
    assert_eq!(lossy_parser(b"\xC0\xAF"), "\u{FFFD}\u{FFFD}");
    // Overlong via E0.
    assert_lossy_parser(b"\xE0\x80\xAF");
    // CESU-8 surrogate half ED A0 80.
    assert_eq!(lossy_parser(b"\xED\xA0\x80"), "\u{FFFD}\u{FFFD}\u{FFFD}");
    // Above U+10FFFF.
    assert_lossy_parser(b"\xF4\x90\x80\x80");
    // Never-valid bytes.
    assert_eq!(lossy_parser(b"\xFE\xFFok"), "\u{FFFD}\u{FFFD}ok");
}

#[test]
fn utf8_parser_truncated_at_eof_flushes_invalid() {
    assert_eq!(lossy_parser(b"ok\xE2\x82"), "ok\u{FFFD}"); // half a euro sign
    assert_eq!(lossy_parser(b"\xF0\x9F\xA6"), "\u{FFFD}"); // three quarters of a crab
}

#[test]
fn utf8_parser_reset_discards_pending_silently() {
    let mut p = utf8_parser::Parser::default();
    p.advance(0xE2);
    assert!(p.is_pending());
    p.reset();
    assert!(!p.is_pending());
    assert_eq!(p.flush(), None);
    assert_eq!(p.advance(b'x').next(), Some(utf8_parser::Event::Char('x')));
}

/// Pseudo-random buffers mixing garbage with valid UTF-8 fragments.
fn fuzz_buffers() -> Vec<Vec<u8>> {
    let mut rng: u64 = 0x9E37_79B9_7F4A_7C15;
    let mut next = move || {
        rng ^= rng << 13;
        rng ^= rng >> 7;
        rng ^= rng << 17;
        rng
    };
    let fragments: &[&[u8]] = &[
        "é".as_bytes(),
        "€".as_bytes(),
        "🦀".as_bytes(),
        "\u{10FFFF}".as_bytes(),
        b"\xED\xA0\x80",
        b"\xF4\x90\x80\x80",
    ];
    let mut out = Vec::new();
    for _ in 0..2_000 {
        let len = (next() % 48) as usize;
        let mut buf = Vec::with_capacity(len + 4);
        while buf.len() < len {
            let r = next();
            if r % 3 == 0 {
                buf.extend_from_slice(fragments[(r >> 8) as usize % fragments.len()]);
            } else {
                buf.push((r >> 16) as u8);
            }
        }
        out.push(buf);
    }
    out
}

#[test]
fn utf8_parser_fuzz_against_from_utf8_lossy() {
    for buf in fuzz_buffers() {
        assert_lossy_parser(&buf);
    }
}

#[test]
fn decoder_fuzz_against_from_utf8_lossy() {
    for buf in fuzz_buffers() {
        assert_lossy(&buf);
    }
}

#[test]
fn chunks_all_incomplete_is_empty_with_zero_lower_bound() {
    // Three bytes of a 4-byte sequence produce no codepoints.
    let mut p = Decoder::default();
    let it = p.decode(b"\xF0\x9F\xA6");
    assert_eq!(it.len(), 0);
    assert!(p.is_incomplete());
}

#[test]
fn utf8_parser_advance_one_reports_reprocess() {
    let mut p = utf8_parser::Parser::new();
    assert_eq!(p.advance_one(0xE2), utf8_parser::Status::Pending);
    assert_eq!(p.advance_one(b'x'), utf8_parser::Status::Reprocess);
    assert_eq!(p.advance_one(b'x'), utf8_parser::Status::Char('x'));
    assert_eq!(p.advance_one(0x80), utf8_parser::Status::Invalid);
}

#[test]
fn test111() {
    let bytes = "é".as_bytes();
    let mut p = Decoder::default();
    let events: Vec<Event> = bytes.iter().copied().map(|b| p.next(b)).take(4).collect();
    assert_eq!(events, vec![Event::Incomplete, Event::Complete('é')]);
}
