use ansi::color::Color;
use ansi::events::{Code, KeyEvent, KeyKind};
use ansi::params::Param;
use ansi::parser::accumulator::ParametersAccumulator;
use ansi::parser::collectors::Utf8 as Utf8Bytes;
use ansi::parser::debug::debug_byte;
use ansi::parser::handler::{Handler, Record, Recorder, Utf8Handler};
use ansi::parser::internals::Utf8;
use ansi::parser::parser::{InputParser, Utf8Parser};

#[test]
fn pack_named_index_and_specials() {
    assert_eq!(Color::Unset.pack(), 0);
    assert_eq!(Color::Reset.pack(), 1);
    assert_eq!(Color::Red.pack(), (1 << 2) | 2);
    assert_eq!(Color::Index(200).pack(), (200 << 2) | 2);
    assert_eq!(Color::Rgb(1, 2, 3).pack(), (0x010203 << 2) | 3);
}

#[test]
fn unpack_reads_back_indices() {
    assert_eq!(Color::unpack(Color::Unset.pack()), Color::Unset);
    assert_eq!(Color::unpack(Color::Reset.pack()), Color::Reset);
    assert_eq!(Color::unpack(Color::Index(77).pack()), Color::Index(77));
    assert_eq!(Color::unpack(Color::Blue.pack()), Color::Index(4));
}

#[test]
fn key_events() {
    let up = KeyEvent::Up(Code::Char('a'));
    assert_eq!(up.kind, KeyKind::Up);
    assert_eq!(up.code, Code::Char('a'));
    assert!(!up.repeat);
    let down = KeyEvent::Down(Code::F(5));
    assert_eq!(down.kind, KeyKind::Down);
    assert_eq!(down.meta.bits, 0);
}

#[test]
fn debug_byte_formats_hex() {
    assert_eq!(debug_byte(0x1b), "\x1b[33m[0x1B]\x1b[0m");
    assert_eq!(debug_byte(0x07), "\x1b[33m[0x07]\x1b[0m");
}

#[test]
fn accumulator_follows_ecma48() {
    let mut acc = ParametersAccumulator::new();
    acc.push_digit(b'1');
    acc.push_sub();
    acc.push_sub();
    acc.push_digit(b'3');
    acc.flush();
    assert_eq!(acc.as_slice(), &[Param::Main(1), Param::Sub(0), Param::Sub(3)]);
    acc.clear();
    acc.flush();
    assert!(acc.as_slice().is_empty());
    acc.push_digit(b'4');
    acc.push_main();
    acc.flush();
    assert_eq!(acc.as_slice(), &[Param::Main(4), Param::Main(0)]);
}

#[test]
fn accumulator_saturates() {
    let mut acc = ParametersAccumulator::new();
    for _ in 0..8 {
        acc.push_digit(b'9');
    }
    acc.flush();
    assert_eq!(acc.as_slice(), &[Param::Main(65535)]);
}

#[test]
fn utf8_assembles_a_character() {
    let mut u = Utf8::new();
    u.set_byte_2_top(0xC3);
    assert!(u.is_partial());
    u.set_byte_1(0xA9);
    assert!(!u.is_partial());
    assert_eq!(u.as_char(), 'é');
    assert_eq!(u.as_bytes(), &[0xC3, 0xA9]);
    u.clear();
    assert!(u.is_empty());
    let r = Utf8::replacement_character();
    assert_eq!(r.as_char(), '\u{FFFD}');
    assert_eq!(r.as_bytes(), "\u{FFFD}".as_bytes());
}

#[test]
fn utf8_bytes_buffer() {
    let mut b = Utf8Bytes::default();
    assert!(b.is_empty());
    b.set_len(2);
    assert_eq!(b.len(), 2);
    assert_eq!(b.as_bytes(), &[0, 0]);
    b.clear();
    assert!(b.is_empty());
}

#[test]
fn input_parser_lone_escape_is_a_key() {
    let mut parser = InputParser::new();
    let mut recorder = Recorder::new();
    assert_eq!(parser.advance(&mut recorder, b"\x1b"), 1);
    assert_eq!(recorder.records, vec![Record::Esc(Vec::new(), 0x1b)]);
    parser.advance(&mut recorder, b"\x1b[A");
    assert_eq!(recorder.records.len(), 2);
}

/// Counts what a `Utf8Parser` reports.
#[derive(Default)]
struct Counter {
    prints: usize,
    csis: usize,
    chars: Vec<char>,
}

impl Handler for Counter {
    fn print(&mut self, _bytes: &[u8]) {
        self.prints += 1;
    }

    fn csi(&mut self, _params: &[Param], _intermediates: &[u8], _final_char: char) {
        self.csis += 1;
    }

    fn control(&mut self, _byte: u8) {}
    fn esc(&mut self, _intermediates: &[u8], _final_byte: u8) {}
    fn dcs(&mut self, _params: &[Param], _intermediates: &[u8], _final_char: char) {}
    fn dcs_data(&mut self, _bytes: &[u8]) {}
    fn dcs_end(&mut self, _byte: u8) {}
    fn osc(&mut self) {}
    fn osc_data(&mut self, _bytes: &[u8]) {}
    fn osc_end(&mut self, _byte: u8) {}
}

impl Utf8Handler for Counter {
    fn char(&mut self, c: char) {
        self.chars.push(c);
    }
}

#[test]
fn utf8_parser_parses_like_parser() {
    let mut parser = Utf8Parser::new();
    let mut counter = Counter::default();
    parser.advance(&mut counter, b"ab\x1b[1m");
    parser.flush(&mut counter);
    assert_eq!(counter.prints, 1);
    assert_eq!(counter.csis, 1);
    assert!(counter.chars.is_empty());
    parser.clear();
}

#[test]
fn utf8_bytes_change_in_place() {
    let mut b = Utf8Bytes::default();
    b.set_len(2);
    {
        let bytes = b.as_mut_bytes();
        assert_eq!(bytes.len(), 2);
        bytes[0] = 0xC3;
        bytes[1] = 0xA9;
    }
    assert_eq!(b.as_bytes(), &[0xC3, 0xA9]);
    assert_eq!(b.len(), 2);
}
