use ansi::events::{ColorScheme, Meta};
use ansi::input::decode::{Decoder, Event, KeyEvent, Mode, Size, hex_decode, parse_termcap};
use ansi::input::mouse::{Point, PointerButton, PointerEvent, PointerKind, ScrollEvent, ScrollKind, parse_mouse_button, MouseButton};
use ansi::input::controls::FLAG_FIND;
use ansi::input::decoding::first_char;
use ansi::input::keys::{Key, KeyKind, from_kitty_mod, kitty_key};
use ansi::input::kitty::{Param, parse_kitty_keyboard};
use ansi::input::base64::b64_decode;
use ansi::utf8::lossy::lossy_string;

fn press(key: Key, bits: u16) -> Event {
    Event::Key(KeyEvent { key, kind: KeyKind::Press, meta: Meta { bits }, text: None, shifted_key: None, base_key: None })
}

#[test]
fn kitty_functional_keys() {
    assert_eq!(kitty_key(57344), Some((Key::Escape, Meta { bits: 0 })));
    assert_eq!(kitty_key(57364), Some((Key::F(1), Meta { bits: 0 })));
    assert_eq!(kitty_key(57398), Some((Key::F(35), Meta { bits: 0 })));
    assert_eq!(kitty_key(57402), Some((Key::Kp(3), Meta { bits: 0 })));
    assert_eq!(kitty_key(0x7F), Some((Key::Backspace, Meta { bits: 0 })));
    assert_eq!(kitty_key(0x00), Some((Key::Space, Meta { bits: 2 })));
    assert_eq!(kitty_key(0x01), Some((Key::Char('a'), Meta { bits: 2 })));
    assert_eq!(kitty_key(0x1C), Some((Key::Char('\\'), Meta { bits: 2 })));
    assert_eq!(kitty_key(57454), Some((Key::IsoLevel5Shift, Meta { bits: 0 })));
    assert_eq!(kitty_key(0x41), None);
    assert_eq!(kitty_key(57455), None);
}

#[test]
fn kitty_modifiers() {
    // shift, alt, ctrl in Kitty order map to Shift(1), Alt(4), Ctrl(2).
    assert_eq!(from_kitty_mod(0b111), Meta { bits: 7 });
    assert_eq!(from_kitty_mod(0b10), Meta { bits: 4 });
    assert_eq!(from_kitty_mod(0b1000_0000), Meta { bits: 128 });
}

#[test]
fn string_sequences() {
    let mut d = Decoder { flags: 0 };
    // PM with 7-bit ST.
    assert_eq!(d.parse_st_terminated(0x9e, b'^', false, b"\x1b^hello\x1b\\"), (9, Some(Event::Unknown(b"\x1b^hello\x1b\\".to_vec()))));
    // Cancelled by CAN.
    assert_eq!(d.parse_st_terminated(0x98, b'X', false, b"\x1bXab\x18rest"), (5, Some(Event::Ignored(b"\x1bXab\x18".to_vec()))));
    // ESC X alone is Shift+Alt+x.
    assert_eq!(d.parse_st_terminated(0x98, b'X', false, b"\x1bX"), (2, Some(press(Key::Char('x'), 5))));
    // Unterminated.
    assert_eq!(d.parse_st_terminated(0x9e, b'^', false, b"\x1b^abc"), (5, Some(Event::Unknown(b"\x1b^abc".to_vec()))));
    // Kitty graphics reply in an APC.
    assert_eq!(
        d.parse_apc(b"\x1b_Gi=31;OK\x1b\\"),
        (12, Some(Event::KittyGraphics { options: b"i=31".to_vec(), payload: b"OK".to_vec() }))
    );
    assert_eq!(d.parse_apc(b"\x1b_"), (2, Some(press(Key::Char('_'), 4))));
}

#[test]
fn hex_pairs() {
    assert_eq!(hex_decode(b"5463"), Some(b"Tc".to_vec()));
    assert_eq!(hex_decode(b"4a6B"), Some(vec![0x4a, 0x6b]));
    assert_eq!(hex_decode(b"546"), None);
    assert_eq!(hex_decode(b"zz"), None);
    assert_eq!(hex_decode(b""), Some(vec![]));
}

#[test]
fn termcap_fields() {
    assert_eq!(parse_termcap(b"5463=31;524742"), Event::Capability("Tc=1;RGB".to_string()));
    assert_eq!(parse_termcap(b""), Event::Capability(String::new()));
    assert_eq!(parse_termcap(b"zz=31;5463"), Event::Capability("Tc".to_string()));
}

#[test]
fn device_control_strings() {
    let mut d = Decoder { flags: 0 };
    assert_eq!(d.parse_dcs(b"\x1bP1+r5463=31\x1b\\"), (14, Some(Event::Capability("Tc=1".to_string()))));
    assert_eq!(d.parse_dcs(b"\x1bP>|kitty(0.36)\x1b\\"), (17, Some(Event::TerminalVersion("kitty(0.36)".to_string()))));
    assert_eq!(d.parse_dcs(b"\x1bP!|00000000\x1b\\"), (14, Some(Event::TertiaryDeviceAttributes(vec![0, 0, 0, 0]))));
    assert_eq!(d.parse_dcs(b"\x1bP0+r5463\x1b\\"), (11, Some(Event::Unknown(b"\x1bP0+r5463\x1b\\".to_vec()))));
    assert_eq!(d.parse_dcs(b"\x1bP"), (2, Some(press(Key::Char('p'), 5))));
}

#[test]
fn lossy_text() {
    assert_eq!(lossy_string(b"a\xF0\x9F\xA6\x80b\x80"), "a🦀b\u{FFFD}");
    assert_eq!(lossy_string(b"ok\xE2\x82"), String::from_utf8_lossy(b"ok\xE2\x82"));
    assert_eq!(lossy_string(b"\x61\xF1\x80\x80\xE1\x80\xC2\x62"), "a\u{FFFD}\u{FFFD}\u{FFFD}b");
}

fn p(value: u16, has_more: bool) -> Param {
    Param { value, missing: false, has_more }
}

fn key_event(key: Key, kind: KeyKind, bits: u16, text: Option<&str>, shifted_key: Option<char>) -> Event {
    Event::Key(KeyEvent { key, kind, meta: Meta { bits }, text: text.map(|t| t.to_string()), shifted_key, base_key: None })
}

#[test]
fn kitty_keyboard_reports() {
    // CSI 97 u: a plain 'a' types itself.
    assert_eq!(parse_kitty_keyboard(&[p(97, false)]), key_event(Key::Char('a'), KeyKind::Press, 0, Some("a"), None));
    // CSI 97;2 u: Shift+a types the uppercase letter.
    assert_eq!(parse_kitty_keyboard(&[p(97, false), p(2, false)]), key_event(Key::Char('a'), KeyKind::Press, 1, Some("A"), None));
    // CSI 97:65;2 u: the reported shifted key is used.
    assert_eq!(
        parse_kitty_keyboard(&[p(97, true), p(65, false), p(2, false)]),
        key_event(Key::Char('a'), KeyKind::Press, 1, Some("A"), Some('A'))
    );
    // CSI 97;1:3 u: a release.
    assert_eq!(parse_kitty_keyboard(&[p(97, false), p(1, true), p(3, false)]), key_event(Key::Char('a'), KeyKind::Release, 0, Some("a"), None));
    // CSI 97;1:2 u: a repeat.
    assert_eq!(parse_kitty_keyboard(&[p(97, false), p(1, true), p(2, false)]), key_event(Key::Char('a'), KeyKind::Repeat, 0, Some("a"), None));
    // CSI 97;5 u: Ctrl+a types nothing.
    assert_eq!(parse_kitty_keyboard(&[p(97, false), p(5, false)]), key_event(Key::Char('a'), KeyKind::Press, 2, None, None));
    // CSI 57402 u: keypad 3 types "3".
    assert_eq!(parse_kitty_keyboard(&[p(57402, false)]), key_event(Key::Kp(3), KeyKind::Press, 0, Some("3"), None));
    // CSI 97;;104:105 u: the associated text wins.
    assert_eq!(
        parse_kitty_keyboard(&[p(97, false), Param { value: 0, missing: true, has_more: false }, p(104, true), p(105, false)]),
        key_event(Key::Char('a'), KeyKind::Press, 0, Some("hi"), None)
    );
    // CSI u with no parameter: U+0001 is Ctrl+a.
    assert_eq!(
        parse_kitty_keyboard(&[Param { value: 0, missing: true, has_more: false }]),
        key_event(Key::Char('a'), KeyKind::Press, 2, None, None)
    );
}

#[test]
fn base64_payloads() {
    assert_eq!(b64_decode(b"aGVsbG8="), Some(b"hello".to_vec()));
    assert_eq!(b64_decode(b"aGk="), Some(b"hi".to_vec()));
    assert_eq!(b64_decode(b"aGVsbG8h"), Some(b"hello!".to_vec()));
    assert_eq!(b64_decode(b"aA=="), Some(vec![0x68]));
    assert_eq!(b64_decode(b""), Some(vec![]));
    assert_eq!(b64_decode(b"abc"), None);
    assert_eq!(b64_decode(b"a!bc"), None);
    assert_eq!(b64_decode(b"aA==aGk="), None);
}

#[test]
fn operating_system_commands() {
    let mut d = Decoder { flags: 0 };
    // ESC ] alone is Alt+].
    assert_eq!(d.parse_osc(b"\x1b]"), (2, Some(press(Key::Char(']'), 4))));
    // Foreground color, BEL-terminated.
    let s = b"\x1b]10;rgb:ffff/0000/0000\x07";
    assert_eq!(d.parse_osc(s), (s.len(), Some(Event::ForegroundColor(b"rgb:ffff/0000/0000".to_vec()))));
    // Background color, 8-bit introducer, 7-bit ST.
    let s = b"\x9d11;rgb:0/0/0\x1b\\";
    assert_eq!(d.parse_osc(s), (s.len(), Some(Event::BackgroundColor(b"rgb:0/0/0".to_vec()))));
    // Cursor color, 8-bit ST.
    let s = b"\x1b]12;#fff\x9c";
    assert_eq!(d.parse_osc(s), (s.len(), Some(Event::CursorColor(b"#fff".to_vec()))));
    // Clipboard with base64 content.
    let s = b"\x1b]52;c;aGVsbG8=\x07";
    assert_eq!(d.parse_osc(s), (s.len(), Some(Event::Clipboard { selection: Some('c'), content: "hello".to_string() })));
    // Clipboard content that is not base64 is kept as it is.
    let s = b"\x1b]52;p;!!\x07";
    assert_eq!(d.parse_osc(s), (s.len(), Some(Event::Clipboard { selection: Some('p'), content: "!!".to_string() })));
    // Clipboard without a payload.
    let s = b"\x1b]52;c\x07";
    assert_eq!(d.parse_osc(s), (s.len(), Some(Event::Clipboard { selection: None, content: String::new() })));
    // An unknown command.
    let s = b"\x1b]99;x\x07";
    assert_eq!(d.parse_osc(s), (s.len(), Some(Event::Unknown(s.to_vec()))));
    // Cancelled by CAN.
    let s = b"\x1b]10;abc\x18rest";
    assert_eq!(d.parse_osc(s), (9, Some(Event::Ignored(s[..9].to_vec()))));
    // Unterminated.
    let s = b"\x1b]10;abc";
    assert_eq!(d.parse_osc(s), (s.len(), Some(Event::Unknown(s.to_vec()))));
    // ESC right after the introducer, not ST: the introducer is Alt+].
    assert_eq!(d.parse_osc(b"\x1b]\x1bx"), (2, Some(press(Key::Char(']'), 4))));
    // ESC after data, not ST: a cancelled sequence.
    let s = b"\x1b]10;ab\x1bx";
    assert_eq!(d.parse_osc(s), (8, Some(Event::Ignored(s[..8].to_vec()))));
    // A very long command number is an unknown command.
    let s = b"\x1b]99999999999999999999;x\x07";
    assert_eq!(d.parse_osc(s), (s.len(), Some(Event::Unknown(s.to_vec()))));
}

#[test]
fn single_shift_three_keys() {
    let mut d = Decoder { flags: 0 };
    // ESC O alone is Shift+Alt+o.
    assert_eq!(d.parse_ss3(b"\x1bO"), (2, Some(press(Key::Char('o'), 5))));
    assert_eq!(d.parse_ss3(b"\x1bOA"), (3, Some(press(Key::Up, 0))));
    assert_eq!(d.parse_ss3(b"\x8fB"), (2, Some(press(Key::Down, 0))));
    assert_eq!(d.parse_ss3(b"\x1bOa"), (3, Some(press(Key::Up, 2))));
    // Modifier numbers: 5 is Ctrl, 2 Shift, 3 Alt, 9 Meta, 17 none.
    assert_eq!(d.parse_ss3(b"\x1bO5A"), (4, Some(press(Key::Up, 2))));
    assert_eq!(d.parse_ss3(b"\x1bO2P"), (4, Some(press(Key::F(1), 1))));
    assert_eq!(d.parse_ss3(b"\x1bO3a"), (4, Some(press(Key::Up, 6))));
    assert_eq!(d.parse_ss3(b"\x1bO9D"), (4, Some(press(Key::Left, 32))));
    assert_eq!(d.parse_ss3(b"\x1bO17A"), (5, Some(press(Key::Up, 0))));
    assert_eq!(d.parse_ss3(b"\x1bOS"), (3, Some(press(Key::F(4), 0))));
    assert_eq!(d.parse_ss3(b"\x1bOp"), (3, Some(press(Key::Kp(0), 0))));
    assert_eq!(d.parse_ss3(b"\x1bOy"), (3, Some(press(Key::Kp(9), 0))));
    assert_eq!(d.parse_ss3(b"\x1bOl"), (3, Some(press(Key::KpComma, 0))));
    assert_eq!(d.parse_ss3(b"\x1bOM"), (3, Some(press(Key::KpEnter, 0))));
    // A graphic byte that names no key.
    assert_eq!(d.parse_ss3(b"\x1bOz"), (3, Some(Event::Unknown(b"\x1bOz".to_vec()))));
    // Digits up to the end.
    assert_eq!(d.parse_ss3(b"\x1bO12"), (4, Some(Event::Unknown(b"\x1bO12".to_vec()))));
    // A byte that is not graphic.
    assert_eq!(d.parse_ss3(b"\x1bO\x01x"), (2, Some(Event::Unknown(b"\x1bO".to_vec()))));
}

fn key_of(key: Key, kind: KeyKind, bits: u16) -> Event {
    Event::Key(KeyEvent { key, kind, meta: Meta { bits }, text: None, shifted_key: None, base_key: None })
}

#[test]
fn control_sequence_keys() {
    let mut d = Decoder { flags: 0 };
    assert_eq!(d.parse_csi(b"\x1b["), (2, Some(press(Key::Char('['), 4))));
    assert_eq!(d.parse_csi(b"\x1b[A"), (3, Some(press(Key::Up, 0))));
    assert_eq!(d.parse_csi(b"\x9bA"), (2, Some(press(Key::Up, 0))));
    assert_eq!(d.parse_csi(b"\x1b[1;5A"), (6, Some(press(Key::Up, 2))));
    assert_eq!(d.parse_csi(b"\x1b[Z"), (3, Some(press(Key::Tab, 1))));
    assert_eq!(d.parse_csi(b"\x1b[3~"), (4, Some(press(Key::Delete, 0))));
    assert_eq!(d.parse_csi(b"\x1b[3;2~"), (6, Some(press(Key::Delete, 1))));
    assert_eq!(d.parse_csi(b"\x1b[15~"), (5, Some(press(Key::F(5), 0))));
    assert_eq!(d.parse_csi(b"\x1b[2^"), (4, Some(press(Key::Insert, 2))));
    assert_eq!(d.parse_csi(b"\x1b[2@"), (4, Some(press(Key::Insert, 3))));
    assert_eq!(d.parse_csi(b"\x1b[200~"), (6, Some(Event::PasteStart)));
    assert_eq!(d.parse_csi(b"\x1b[201~"), (6, Some(Event::PasteEnd)));
    // modifyOtherKeys: Ctrl+a types nothing, a plain a types itself.
    assert_eq!(d.parse_csi(b"\x1b[27;5;97~"), (10, Some(press(Key::Char('a'), 2))));
    assert_eq!(
        d.parse_csi(b"\x1b[27;1;97~"),
        (10, Some(Event::Key(KeyEvent { key: Key::Char('a'), kind: KeyKind::Press, meta: Meta { bits: 0 }, text: Some("a".to_string()), shifted_key: None, base_key: None })))
    );
    // Kitty keyboard protocol.
    assert_eq!(
        d.parse_csi(b"\x1b[97u"),
        (5, Some(Event::Key(KeyEvent { key: Key::Char('a'), kind: KeyKind::Press, meta: Meta { bits: 0 }, text: Some("a".to_string()), shifted_key: None, base_key: None })))
    );
    assert_eq!(d.parse_csi(b"\x1b[u"), (3, Some(Event::Unknown(b"\x1b[u".to_vec()))));
    // The Kitty event type on a legacy key: Shift+Up released.
    assert_eq!(d.parse_csi(b"\x1b[1;2:3A"), (8, Some(key_of(Key::Up, KeyKind::Release, 1))));
    // A third parameter without the event type form is not a key.
    assert_eq!(d.parse_csi(b"\x1b[1;2;3A"), (8, Some(Event::Unknown(b"\x1b[1;2;3A".to_vec()))));
    // URxvt's Shift+Delete.
    assert_eq!(d.parse_csi(b"\x1b[3$"), (4, Some(press(Key::Delete, 1))));
    // An unknown final byte.
    assert_eq!(d.parse_csi(b"\x1b[5x"), (4, Some(Event::Unknown(b"\x1b[5x".to_vec()))));
    // Without a final byte.
    assert_eq!(d.parse_csi(b"\x1b[12;"), (5, Some(Event::Unknown(b"\x1b[12;".to_vec()))));
    // Find instead of Home.
    let mut f = Decoder { flags: FLAG_FIND };
    assert_eq!(f.parse_csi(b"\x1b[1~"), (4, Some(press(Key::Find, 0))));
    assert_eq!(d.parse_csi(b"\x1b[1~"), (4, Some(press(Key::Home, 0))));
}

#[test]
fn control_sequence_replies() {
    let mut d = Decoder { flags: 0 };
    assert_eq!(d.parse_csi(b"\x1b[I"), (3, Some(Event::Focus)));
    assert_eq!(d.parse_csi(b"\x1b[O"), (3, Some(Event::Blur)));
    assert_eq!(d.parse_csi(b"\x1b[5;10R"), (7, Some(Event::CursorPosition(Point { x: 9, y: 4 }))));
    assert_eq!(d.parse_csi(b"\x1b[?5;10R"), (8, Some(Event::CursorPosition(Point { x: 9, y: 4 }))));
    // Row 1: also modified F3.
    assert_eq!(
        d.parse_csi(b"\x1b[1;5R"),
        (6, Some(Event::Multi(vec![press(Key::F(3), 2), Event::CursorPosition(Point { x: 4, y: 0 })])))
    );
    assert_eq!(d.parse_csi(b"\x1b[R"), (3, Some(press(Key::F(3), 0))));
    assert_eq!(d.parse_csi(b"\x1b[?1;2c"), (7, Some(Event::PrimaryDeviceAttributes(vec![1, 2]))));
    assert_eq!(d.parse_csi(b"\x1b[>1;2c"), (7, Some(Event::SecondaryDeviceAttributes(vec![1, 2]))));
    assert_eq!(d.parse_csi(b"\x1b[?31u"), (6, Some(Event::KeyboardEnhancements(31))));
    assert_eq!(d.parse_csi(b"\x1b[?997;1n"), (9, Some(Event::ColorScheme(ColorScheme::Dark))));
    assert_eq!(d.parse_csi(b"\x1b[?997;2n"), (9, Some(Event::ColorScheme(ColorScheme::Light))));
    assert_eq!(d.parse_csi(b"\x1b[?1049;1$y"), (11, Some(Event::ModeReport { mode: Mode::Dec(1049), value: 1 })));
    assert_eq!(d.parse_csi(b"\x1b[4;2$y"), (7, Some(Event::ModeReport { mode: Mode::Ansi(4), value: 2 })));
    assert_eq!(d.parse_csi(b"\x1b[>4;2m"), (7, Some(Event::ModifyOtherKeys(2))));
    assert_eq!(d.parse_csi(b"\x1b[8;24;80t"), (10, Some(Event::WindowSize(Size { width: 80, height: 24 }))));
    assert_eq!(
        d.parse_csi(b"\x1b[48;24;80;480;800t"),
        (19, Some(Event::Multi(vec![Event::WindowSize(Size { width: 80, height: 24 }), Event::PixelSize(Size { width: 800, height: 480 })])))
    );
    assert_eq!(d.parse_csi(b"\x1b[22;1;2t"), (9, Some(Event::WindowOp { op: 22, args: vec![1, 2] })));
}

#[test]
fn mouse_reports() {
    let mut d = Decoder { flags: 0 };
    let left = |kind: PointerKind, x: i32, y: i32| Event::Pointer(PointerEvent { button: PointerButton::Left, kind, meta: Meta { bits: 0 }, position: Point { x, y } });
    assert_eq!(d.parse_csi(b"\x1b[<0;10;20M"), (11, Some(left(PointerKind::Press, 9, 19))));
    assert_eq!(d.parse_csi(b"\x1b[<0;10;20m"), (11, Some(left(PointerKind::Release, 9, 19))));
    assert_eq!(
        d.parse_csi(b"\x1b[<64;1;1M"),
        (10, Some(Event::Scroll(ScrollEvent { kind: ScrollKind::Up, meta: Meta { bits: 0 }, position: Point { x: 0, y: 0 } })))
    );
    // X10: button 0 at (0, 0).
    assert_eq!(d.parse_csi(b"\x1b[M !!"), (6, Some(left(PointerKind::Press, 0, 0))));
    assert_eq!(d.parse_csi(b"\x1b[M"), (3, Some(Event::Unknown(b"\x1b[M".to_vec()))));
    // Shift (4), Alt (8) and Ctrl (16) with motion (32) on the middle button.
    assert_eq!(parse_mouse_button(1 | 4 | 8 | 16 | 32), (Meta { bits: 7 }, MouseButton::Middle, false, true));
    // Wheel events report no motion.
    assert_eq!(parse_mouse_button(64 | 32 | 1), (Meta { bits: 0 }, MouseButton::WheelDown, false, false));
    assert_eq!(parse_mouse_button(3), (Meta { bits: 0 }, MouseButton::NoButton, true, false));
    assert_eq!(parse_mouse_button(128 | 2), (Meta { bits: 0 }, MouseButton::Button10, false, false));
}

#[test]
fn control_bytes() {
    let d = Decoder { flags: 0 };
    assert_eq!(d.parse_control(0x00), press(Key::Space, 2));
    assert_eq!(d.parse_control(0x08), press(Key::Char('h'), 2));
    assert_eq!(d.parse_control(0x09), press(Key::Tab, 0));
    assert_eq!(d.parse_control(0x0d), press(Key::Enter, 0));
    assert_eq!(d.parse_control(0x1b), press(Key::Escape, 0));
    assert_eq!(d.parse_control(0x7f), press(Key::Backspace, 0));
    assert_eq!(d.parse_control(0x01), press(Key::Char('a'), 2));
    assert_eq!(d.parse_control(0x1c), press(Key::Char('\\'), 2));
    assert_eq!(
        d.parse_control(0x20),
        Event::Key(KeyEvent { key: Key::Space, kind: KeyKind::Press, meta: Meta { bits: 0 }, text: Some(" ".to_string()), shifted_key: None, base_key: None })
    );
    assert_eq!(d.parse_control(b'a'), Event::Unknown(vec![b'a']));
    let all = Decoder { flags: 0x1f };
    assert_eq!(all.parse_control(0x00), press(Key::Char('@'), 2));
    assert_eq!(all.parse_control(0x09), press(Key::Char('i'), 2));
    assert_eq!(all.parse_control(0x0d), press(Key::Char('m'), 2));
    assert_eq!(all.parse_control(0x1b), press(Key::Char('['), 2));
    assert_eq!(all.parse_control(0x7f), press(Key::Delete, 0));
}

fn ones(n: usize) -> Vec<usize> {
    vec![1; n]
}

#[test]
fn decode_events() {
    let mut d = Decoder { flags: 0 };
    assert_eq!(d.decode(b"", &[]), (0, None));
    let typed = |key: Key, bits: u16, text: &str, shifted: Option<char>| {
        Event::Key(KeyEvent { key, kind: KeyKind::Press, meta: Meta { bits }, text: Some(text.to_string()), shifted_key: shifted, base_key: None })
    };
    assert_eq!(d.decode(b"a", &ones(1)), (1, Some(typed(Key::Char('a'), 0, "a", None))));
    assert_eq!(d.decode(b"A", &ones(1)), (1, Some(typed(Key::Char('a'), 1, "A", Some('A')))));
    assert_eq!(d.decode(b" ", &ones(1)), (1, Some(typed(Key::Space, 0, " ", None))));
    assert_eq!(d.decode(b"\x1b", &ones(1)), (1, Some(press(Key::Escape, 0))));
    // Alt+a: the text goes.
    assert_eq!(d.decode(b"\x1ba", &ones(2)), (2, Some(press(Key::Char('a'), 4))));
    assert_eq!(d.decode(b"\x1b\x1b", &ones(2)), (2, Some(press(Key::Escape, 4))));
    assert_eq!(d.decode(b"\x1b[A", &ones(3)), (3, Some(press(Key::Up, 0))));
    assert_eq!(d.decode(b"\x1bOP", &ones(3)), (3, Some(press(Key::F(1), 0))));
    assert_eq!(d.decode(b"\x01", &ones(1)), (1, Some(press(Key::Char('a'), 2))));
    // A C1 byte is Ctrl+Alt and the byte less 0x40.
    assert_eq!(d.decode(b"\x85", &ones(1)), (1, Some(press(Key::Char('E'), 6))));
    // A two-byte character.
    assert_eq!(d.decode("é!".as_bytes(), &[2, 2, 1]), (2, Some(typed(Key::Char('é'), 0, "é", None))));
    // A cluster of two characters is one Extended key.
    assert_eq!(d.decode("é\u{301}".as_bytes(), &[4, 3, 2, 1]), (4, Some(typed(Key::Extended, 0, "é\u{301}", None))));
    // A byte that starts no character.
    assert_eq!(d.decode(b"\xffx", &ones(2)), (1, Some(Event::Unknown(vec![0xff]))));
    // ESC before a string sequence introducer reads the sequence.
    assert_eq!(d.decode(b"\x1b]10;x\x07", &ones(7)), (7, Some(Event::ForegroundColor(b"x".to_vec()))));
    assert_eq!(first_char("€".as_bytes()), Some(('€', 3)));
    assert_eq!(first_char(b"\xed\xa0\x80"), None);
    assert_eq!(first_char(b"\xc0\x80"), None);
    assert_eq!(first_char(b"\xf0\x9f\xa6\x80"), Some(('🦀', 4)));
    assert_eq!(first_char(b"\xe2\x82"), None);
}

#[test]
fn parameter_defaults() {
    assert_eq!(Param { value: 7, missing: false, has_more: false }.value_or(1), 7);
    assert_eq!(Param { value: 0, missing: true, has_more: false }.value_or(-1), -1);
}
