use ansi::attribute::Attribute;

#[test]
fn empty_attributes() {
    let attrs = Attribute::empty();
    assert_eq!(attrs.bits(), 0);
    assert_eq!(attrs.sgr().len(), 0);
}

#[test]
fn single_attribute() {
    let bold = Attribute::Bold();
    assert!(bold.contains(Attribute::Bold()));
    assert!(!bold.contains(Attribute::Italic()));
}

#[test]
fn combine_attributes() {
    let styled = Attribute::Bold() | Attribute::Italic() | Attribute::Underline();
    assert!(styled.contains(Attribute::Bold()));
    assert!(styled.contains(Attribute::Italic()));
    assert!(styled.contains(Attribute::Underline()));
    assert!(!styled.contains(Attribute::Strikethrough()));
}

#[test]
fn sgr_single() {
    let bold = Attribute::Bold();
    let sgr: Vec<&str> = bold.sgr();
    assert_eq!(sgr, vec!["1"]);
}

#[test]
fn sgr_multiple() {
    let styled = Attribute::Bold() | Attribute::Italic() | Attribute::Underline();
    let sgr: Vec<&str> = styled.sgr();
    assert!(sgr.contains(&"1"));
    assert!(sgr.contains(&"3"));
    assert!(sgr.contains(&"4"));
    assert_eq!(sgr.len(), 3);
}

#[test]
fn sgr_underline_styles() {
    let single = Attribute::UnderlineStyleSingle();
    assert_eq!(single.sgr(), vec!["4:1"]);

    let double = Attribute::UnderlineStyleDouble();
    assert_eq!(double.sgr(), vec!["4:2"]);

    let curly = Attribute::UnderlineStyleCurly();
    assert_eq!(curly.sgr(), vec!["4:3"]);
}

#[test]
fn sgr_reset() {
    let reset = Attribute::Reset();
    assert_eq!(reset.sgr(), vec!["0"]);
}

#[test]
fn inverse_bold() {
    let inverse = Attribute::Bold().inverse();
    assert!(inverse.contains(Attribute::NoBold()));
    assert!(inverse.contains(Attribute::NormalIntensity()));
}

#[test]
fn inverse_italic() {
    let inverse = Attribute::Italic().inverse();
    assert!(inverse.contains(Attribute::NoItalic()));
    assert!(inverse.contains(Attribute::NormalIntensity()));
}

#[test]
fn inverse_underline() {
    let inverse = Attribute::Underline().inverse();
    assert!(inverse.contains(Attribute::NoUnderline()));
    assert!(inverse.contains(Attribute::UnderlineStyleNone()));
}

#[test]
fn inverse_no_bold() {
    let inverse = Attribute::NoBold().inverse();
    assert_eq!(inverse, Attribute::Bold());
}

#[test]
fn inverse_blink() {
    let inverse = Attribute::Blink().inverse();
    assert!(inverse.contains(Attribute::NoBlink()));
    assert!(inverse.contains(Attribute::RapidBlink()));
}

#[test]
fn inverse_frame() {
    let inverse = Attribute::Frame().inverse();
    assert!(inverse.contains(Attribute::NoFrameOrEncircle()));
    assert!(inverse.contains(Attribute::Encircle()));
}

#[test]
fn inverse_encircle() {
    let inverse = Attribute::Encircle().inverse();
    assert!(inverse.contains(Attribute::NoFrameOrEncircle()));
    assert!(inverse.contains(Attribute::Frame()));
}

#[test]
fn inverse_normal_intensity() {
    let inverse = Attribute::NormalIntensity().inverse();
    assert!(inverse.contains(Attribute::Faint()));
    assert!(inverse.contains(Attribute::Italic()));
    assert!(inverse.contains(Attribute::Bold()));
}

#[test]
fn inverse_empty() {
    let inverse = Attribute::empty().inverse();
    assert_eq!(inverse, Attribute::empty());
}

#[test]
fn constants_empty() {
    assert_eq!(Attribute::EMPTY(), Attribute::empty());
    assert_eq!(Attribute::EMPTY().bits(), 0);
}

#[test]
fn constants_all() {
    let all = Attribute::ALL();
    assert!(all.contains(Attribute::Reset()));
    assert!(all.contains(Attribute::Bold()));
    assert!(all.contains(Attribute::NoBold()));
    assert!(all.contains(Attribute::Italic()));
    assert!(all.contains(Attribute::NoItalic()));
}

#[test]
fn remove_using_inverse() {
    let mut attrs = Attribute::Bold() | Attribute::NoBold();
    attrs.remove(Attribute::Bold().inverse());
    assert_eq!(attrs, Attribute::Bold());
}

#[test]
fn double_inverse_identity() {
    let value = Attribute::Reverse();
    let double_inverted = value.inverse().inverse();
    assert_eq!(value, double_inverted);
}

#[test]
fn underline_style_variants() {
    let styles = vec![
        (Attribute::UnderlineStyleNone(), "4:0"),
        (Attribute::UnderlineStyleSingle(), "4:1"),
        (Attribute::UnderlineStyleDouble(), "4:2"),
        (Attribute::UnderlineStyleCurly(), "4:3"),
        (Attribute::UnderlineStyleDotted(), "4:4"),
        (Attribute::UnderlineStyleDashed(), "4:5"),
    ];

    for (attr, expected_sgr) in styles {
        let sgr: Vec<&str> = attr.sgr();
        assert_eq!(sgr, vec![expected_sgr]);
    }
}

#[test]
fn union_of_inverses_is_inverse_of_union() {
    let a = Attribute::Bold() | Attribute::Underline();
    let expected = Attribute::Bold().inverse() | Attribute::Underline().inverse();
    assert_eq!(a.inverse(), expected);
}

#[test]
fn insert_inclusive_adds_flags() {
    let mut a = Attribute::Bold();
    a.insert_inclusive(Attribute::Italic());
    assert!(a.contains(Attribute::Bold()));
    assert!(a.contains(Attribute::Italic()));
}

#[test]
fn no_italic_undoes_italic_only() {
    assert_eq!(Attribute::NoItalic().inverse(), Attribute::Italic());
}
