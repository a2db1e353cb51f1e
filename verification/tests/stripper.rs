use ansi::parser::stripper::{State, StrippingParser, strip};
use ansi::parser2::transitions::Action;

#[test]
fn test_strip() {
    let input = b"\x1b[31mHello\x1b[0m World!";
    assert_eq!(strip(input), b"Hello World!".to_vec());
}

#[test]
fn strip_without_escapes_keeps_everything() {
    assert_eq!(strip(b"plain text"), b"plain text".to_vec());
    assert_eq!(strip(b""), Vec::<u8>::new());
}

#[test]
fn strip_trailing_escape_keeps_the_prefix() {
    assert_eq!(strip(b"abc\x1b[0m"), b"abc".to_vec());
}

#[test]
fn strip_keeps_the_prefix_when_nothing_prints_after() {
    assert_eq!(strip(b"\x1b[m\x18"), Vec::<u8>::new());
    assert_eq!(strip(b"a\x1b]0;title\x07b"), b"a".to_vec());
}

#[test]
fn strip_skips_string_bodies() {
    assert_eq!(strip(b"x\x1b]0;title\x1b\\y"), b"xy".to_vec());
}

#[test]
fn stripping_parser_states() {
    let mut p = StrippingParser::new();
    assert_eq!(p.state(), State::Ground);
    assert!(p.is_ground());
    assert_eq!(p.advance(b'a'), Action::Print);
    assert_eq!(p.advance(0x1b), Action::Ignore);
    assert_eq!(p.state(), State::Escape);
    assert_eq!(p.advance(b']'), Action::Ignore);
    assert!(p.is_passthrough());
    assert_eq!(p.advance(0x1b), Action::Ignore);
    assert_eq!(p.advance(b'\\'), Action::Ignore);
    assert!(p.is_ground());
    p.reset();
    assert_eq!(p.state(), State::Ground);
    assert!(p.is_ground());
}
