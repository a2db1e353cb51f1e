use ansi::params::{Param, Parameters};
use ansi::parser::handler::{Handler, Record, Recorder};
use ansi::parser::parser::Parser;

fn params(groups: &[&[u16]]) -> Parameters {
    let mut p = Parameters::new();
    for g in groups {
        p.push_group(g);
    }
    p
}

fn record(bytes: &[u8]) -> Vec<Record> {
    Recorder::record(bytes).records
}

fn no_intermediates() -> Vec<u8> {
    Vec::new()
}

#[test]
fn parse_osc() {
    assert_eq!(
        record(b"\x1b]2;jwilm@jwilm-desk: ~/code/alacritty\x07"),
        vec![
            Record::Osc,
            Record::OscData(b"2;jwilm@jwilm-desk: ~/code/alacritty".to_vec()),
            Record::OscEnd(0x07),
        ],
    );
}

#[test]
fn parse_empty_osc() {
    assert_eq!(record(b"\x1b]\x07"), vec![Record::Osc, Record::OscEnd(0x07)]);
}

#[test]
fn osc_bell_terminated() {
    assert_eq!(
        record(b"\x1b]11;ff/00/ff\x07"),
        vec![Record::Osc, Record::OscData(b"11;ff/00/ff".to_vec()), Record::OscEnd(0x07)],
    );
}

#[test]
fn osc_c0_st_terminated() {
    assert_eq!(
        record(b"\x1b]11;ff/00/ff\x1b\\"),
        vec![
            Record::Osc,
            Record::OscData(b"11;ff/00/ff".to_vec()),
            Record::OscEnd(0x1b),
            Record::Esc(no_intermediates(), b'\\'),
        ],
    );
}

#[test]
fn parse_osc_with_utf8_arguments() {
    assert_eq!(
        record(&[
            0x0D, 0x1B, 0x5D, 0x32, 0x3B, 0x65, 0x63, 0x68, 0x6F, 0x20, 0x27, 0xC2, 0xAF, 0x5C, 0x5F, 0x28,
            0xE3, 0x83, 0x84, 0x29, 0x5F, 0x2F, 0xC2, 0xAF, 0x27, 0x20, 0x26, 0x26, 0x20, 0x73, 0x6C, 0x65,
            0x65, 0x70, 0x20, 0x31, 0x07,
        ]),
        vec![
            Record::Execute(b'\r'),
            Record::Osc,
            Record::OscData(String::from("2;echo '¯\\_(ツ)_/¯' && sleep 1").as_bytes().to_vec()),
            Record::OscEnd(0x07),
        ],
    );
}

#[test]
fn osc_containing_string_terminator() {
    let input: &[u8] = b"\x1b]2;\xe6\x9c\xab\x1b\\";
    assert_eq!(
        record(input),
        vec![
            Record::Osc,
            Record::OscData(b"2;\xe6\x9c\xab".to_vec()),
            Record::OscEnd(0x1b),
            Record::Esc(no_intermediates(), b'\\'),
        ],
    );
}

#[test]
fn osc_semicolons_are_verbatim() {
    assert_eq!(
        record(b"\x1b];;;;;;;;;;;;;;;;;\x1b\\"),
        vec![
            Record::Osc,
            Record::OscData(b";;;;;;;;;;;;;;;;;".to_vec()),
            Record::OscEnd(0x1b),
            Record::Esc(no_intermediates(), b'\\'),
        ],
    );
}

#[test]
fn large_osc_payload_is_not_truncated() {
    let num_bytes: usize = 4096;
    let mut input = Vec::from(b"\x1b]52;".as_slice());
    input.extend(std::iter::repeat(b'a').take(num_bytes));
    input.push(0x07);

    let mut payload = Vec::from(b"52;".as_slice());
    payload.extend(std::iter::repeat(b'a').take(num_bytes));
    assert_eq!(record(&input), vec![Record::Osc, Record::OscData(payload), Record::OscEnd(0x07)]);
}

#[test]
fn trailing_semicolon() {
    assert_eq!(record(b"\x1b[4;m"), vec![Record::Csi(params(&[&[4], &[0]]), no_intermediates(), 'm')]);
}

#[test]
fn leading_semicolon() {
    assert_eq!(record(b"\x1b[;4m"), vec![Record::Csi(params(&[&[0], &[4]]), no_intermediates(), 'm')]);
}

#[test]
fn long_param_saturates() {
    assert_eq!(
        record(b"\x1b[9223372036854775808m"),
        vec![Record::Csi(params(&[&[65535]]), no_intermediates(), 'm')],
    );
}

#[test]
fn reset_on_embedded_esc() {
    assert_eq!(record(b"\x1b[3;1\x1b[?1049h"), vec![Record::Csi(params(&[&[1049]]), b"?".to_vec(), 'h')]);
}

#[test]
fn subparameters() {
    assert_eq!(
        record(b"\x1b[38:2:255:0:255;1m"),
        vec![Record::Csi(params(&[&[38, 2, 255, 0, 255], &[1]]), no_intermediates(), 'm')],
    );
}

#[test]
fn overflow_dispatches_capped() {
    let mut input = Vec::from(b"\x1b[".as_slice());
    for _ in 0..40 {
        input.extend_from_slice(b"1;");
    }
    input.push(b'm');

    let events = record(&input);
    assert_eq!(events.len(), 1);
    match &events[0] {
        Record::Csi(params, intermediates, c) => {
            assert_eq!(*c, 'm');
            assert!(intermediates.is_empty());
            assert_eq!(params.len(), 32);
        },
        other => panic!("expected a single Csi dispatch, got {other:?}"),
    }
}

#[test]
fn params_within_capacity() {
    assert_eq!(
        record(b"\x1b[1;2;3;4;5;6;7;8;9;10;11;12;13;14;15;16m"),
        vec![Record::Csi(
            params(&[
                &[1], &[2], &[3], &[4], &[5], &[6], &[7], &[8], &[9], &[10], &[11], &[12], &[13], &[14], &[15],
                &[16],
            ]),
            no_intermediates(),
            'm',
        )],
    );
}

#[test]
fn leading_colon_is_ignored() {
    assert_eq!(record(b"\x1b[::::::::x"), vec![]);
}

#[test]
fn del_inside_param_is_ignored() {
    assert_eq!(record(b"\x1b[1;2\x7fm"), vec![Record::Csi(params(&[&[1], &[2]]), no_intermediates(), 'm')]);
}

#[test]
fn private_marker() {
    assert_eq!(record(b"\x1b[?25h"), vec![Record::Csi(params(&[&[25]]), b"?".to_vec(), 'h')]);
}

#[test]
fn intermediate() {
    assert_eq!(record(b"\x1b[2 q"), vec![Record::Csi(params(&[&[2]]), b" ".to_vec(), 'q')]);
}

#[test]
fn parser_reset() {
    assert_eq!(record(b"\x1b[3;1\x1b(A"), vec![Record::Esc(b"(".to_vec(), b'A')]);
}

#[test]
fn reset_intermediates() {
    assert_eq!(
        record(b"\x1b[?2004l\x1b#8"),
        vec![
            Record::Csi(params(&[&[2004]]), b"?".to_vec(), 'l'),
            Record::Esc(b"#".to_vec(), b'8'),
        ],
    );
}

#[test]
fn parse_dcs() {
    assert_eq!(
        record(b"\x1bP0;1|17/ab\x1b\\"),
        vec![
            Record::Dcs(params(&[&[0], &[1]]), no_intermediates(), '|'),
            Record::DcsData(b"17/ab".to_vec()),
            Record::DcsEnd(0x1b),
            Record::Esc(no_intermediates(), b'\\'),
        ],
    );
}

#[test]
fn dcs_reset() {
    assert_eq!(
        record(b"\x1b[3;1\x1bP1$tx\x1b\\"),
        vec![
            Record::Dcs(params(&[&[1]]), b"$".to_vec(), 't'),
            Record::DcsData(b"x".to_vec()),
            Record::DcsEnd(0x1b),
            Record::Esc(no_intermediates(), b'\\'),
        ],
    );
}

#[test]
fn intermediate_reset_on_exit() {
    assert_eq!(
        record(b"\x1bP=1sZZZ\x1b+\x5c"),
        vec![
            Record::Dcs(params(&[&[1]]), b"=".to_vec(), 's'),
            Record::DcsData(b"ZZZ".to_vec()),
            Record::DcsEnd(0x1b),
            Record::Esc(b"+".to_vec(), b'\\'),
        ],
    );
}

#[test]
fn execute_anywhere() {
    assert_eq!(record(b"\x18\x1a"), vec![Record::Execute(0x18), Record::Execute(0x1a)]);
}

#[test]
fn c0_controls_execute() {
    assert_eq!(
        record(b"\x00\x1fa"),
        vec![Record::Execute(0x00), Record::Execute(0x1f), Record::Print(b"a".to_vec())],
    );
}

#[test]
fn raw_c1_bytes_are_printed() {
    let mut parser = Parser::new();
    let mut recorder = Recorder::new();
    parser.advance(&mut recorder, &[b'x', 0x9b, b'1', b'm']);
    assert_eq!(recorder.records, vec![Record::Print(b"x\x9b1m".to_vec())]);
}

#[test]
fn unicode() {
    let input: &[u8] = b"\xF0\x9F\x8E\x89_\xF0\x9F\xA6\x80\xF0\x9F\xA6\x80_\xF0\x9F\x8E\x89";
    assert_eq!(record(input), vec![Record::Print(input.to_vec())]);
}

#[test]
fn invalid_utf8() {
    let input: &[u8] = b"a\xEF\xBCb";
    assert_eq!(record(input), vec![Record::Print(input.to_vec())]);
}

#[test]
fn partial_utf8() {
    let input: &[u8] = b"\xF0\x9F\x9A\x80";
    assert_eq!(record(input), vec![Record::Print(input.to_vec())]);
}

#[test]
fn partial_utf8_separating_utf8() {
    let input: &[u8] = b"\xC4\xB8\xF0\x9F\x8E\x89";
    let mut recorder = Recorder::default();
    let mut parser = Parser::new();
    parser.advance(&mut recorder, &input[..1]);
    parser.advance(&mut recorder, &input[1..]);
    assert_eq!(recorder.records, vec![Record::Print(input[..1].to_vec()), Record::Print(input[1..].to_vec())]);
}

#[test]
fn space_prints_on_its_own() {
    assert_eq!(record(b"a b"), vec![
        Record::Print(b"a".to_vec()),
        Record::Print(b" ".to_vec()),
        Record::Print(b"b".to_vec()),
    ]);
}

#[test]
fn third_intermediate_does_not_fit() {
    let parser = Parser::new();
    assert!(parser.fits(b"\x1b[ !q"));
    assert!(!parser.fits(b"\x1b[ !#q"));
}

#[test]
fn flush_returns_to_ground() {
    let mut parser = Parser::new();
    let mut recorder = Recorder::new();
    parser.advance(&mut recorder, b"\x1b[12");
    parser.flush();
    parser.advance(&mut recorder, b"x");
    assert_eq!(recorder.records, vec![Record::Print(b"x".to_vec())]);
}

/// A handler that only counts control sequences.
struct CsiCounter {
    count: usize,
    last: Vec<Param>,
}

impl Handler for CsiCounter {
    fn csi(&mut self, params: &[Param], _intermediates: &[u8], _final_char: char) {
        self.count += 1;
        self.last = params.to_vec();
    }

    fn print(&mut self, _bytes: &[u8]) {}
    fn control(&mut self, _byte: u8) {}
    fn esc(&mut self, _intermediates: &[u8], _final_byte: u8) {}
    fn dcs(&mut self, _params: &[Param], _intermediates: &[u8], _final_char: char) {}
    fn dcs_data(&mut self, _bytes: &[u8]) {}
    fn dcs_end(&mut self, _byte: u8) {}
    fn osc(&mut self) {}
    fn osc_data(&mut self, _bytes: &[u8]) {}
    fn osc_end(&mut self, _byte: u8) {}
}

#[test]
fn custom_handler_sees_csi() {
    let mut parser = Parser::new();
    let mut counter = CsiCounter { count: 0, last: Vec::new() };
    parser.advance(&mut counter, b"ab\x1b[1:2;3mcd\x1b[K");
    assert_eq!(counter.count, 2);
    assert_eq!(counter.last, vec![]);
}
