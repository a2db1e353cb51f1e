use ansi::attribute::Attribute;
use ansi::color::Color;

/// Whether a value is set, for comparing `Color` with `Attribute`.
#[derive(PartialEq, Eq, Clone, Copy, Debug)]
enum Bit {
    Off,
    On,
}

fn bit_of_attribute(a: Attribute) -> Bit {
    if a == Attribute::empty() { Bit::Off } else { Bit::On }
}

fn bit_of_color(c: Color) -> Bit {
    match c {
        Color::Unset => Bit::Off,
        _ => Bit::On,
    }
}

fn attribute_of(b: Bit) -> Attribute {
    match b {
        Bit::Off => Attribute::empty(),
        Bit::On => Attribute::Bold(),
    }
}

fn color_of(b: Bit) -> Color {
    match b {
        Bit::Off => Color::Unset,
        Bit::On => Color::Black,
    }
}

const CASES: [(Bit, Bit); 6] = [
    (Bit::Off, Bit::On),
    (Bit::Off, Bit::Off),
    (Bit::On, Bit::Off),
    (Bit::On, Bit::On),
    (Bit::Off, Bit::Off),
    (Bit::Off, Bit::On),
];

#[test]
fn lib_test_bitor() {
    for (lhs, rhs) in CASES {
        let color = color_of(lhs) | color_of(rhs);
        let attribute = attribute_of(lhs) | attribute_of(rhs);
        assert_eq!(bit_of_color(color), bit_of_attribute(attribute), "{:?} | {:?}", lhs, rhs);
    }
}

#[test]
fn lib_test_bitand() {
    for (lhs, rhs) in CASES {
        let color = color_of(lhs) & color_of(rhs);
        let attribute = attribute_of(lhs) & attribute_of(rhs);
        assert_eq!(bit_of_color(color), bit_of_attribute(attribute), "{:?} & {:?}", lhs, rhs);
    }
}

#[test]
fn color_or_keeps_the_left_color() {
    assert_eq!(Color::Red | Color::Blue, Color::Red);
    assert_eq!(Color::Unset | Color::Blue, Color::Blue);
}

#[test]
fn color_and_needs_both() {
    assert_eq!(Color::Red & Color::Red, Color::Red);
    assert_eq!(Color::Red & Color::Blue, Color::Unset);
    assert_eq!(Color::Red & Color::Unset, Color::Unset);
}

#[test]
fn mod_test_bitand() {
    for (lhs, rhs, expected) in [
        (Color::Unset, Color::Unset, Color::Unset),
        (Color::Unset, Color::Black, Color::Unset),
        (Color::Unset, Color::Reset, Color::Unset),
        (Color::Black, Color::Unset, Color::Unset),
        (Color::Black, Color::Black, Color::Black),
        (Color::Black, Color::Reset, Color::Unset),
        (Color::Reset, Color::Unset, Color::Unset),
        (Color::Reset, Color::Black, Color::Unset),
        (Color::Reset, Color::Reset, Color::Reset),
    ] {
        assert_eq!(lhs & rhs, expected, "{:?}.bitand({:?})", lhs, rhs);
    }
}

#[test]
fn mod_test_bitor() {
    let a = Attribute::Bold() | Attribute::Bold();
    assert_eq!(a, Attribute::Bold());
    for (lhs, rhs, expected) in [
        (Color::Unset, Color::Unset, Color::Unset),
        (Color::Unset, Color::Black, Color::Black),
        (Color::Unset, Color::Reset, Color::Reset),
        (Color::Black, Color::Unset, Color::Black),
        (Color::Black, Color::Black, Color::Black),
        (Color::Black, Color::Reset, Color::Black),
        (Color::Reset, Color::Unset, Color::Reset),
        (Color::Reset, Color::Black, Color::Black),
        (Color::Reset, Color::Reset, Color::Reset),
    ] {
        assert_eq!(lhs | rhs, expected, "{:?}.bitor({:?})", lhs, rhs);
    }
}

#[test]
fn test_bitxor() {
    for (lhs, rhs, expected) in [
        (Color::Unset, Color::Unset, Color::Unset),
        (Color::Unset, Color::Black, Color::Black),
        (Color::Unset, Color::Reset, Color::Reset),
        (Color::Black, Color::Unset, Color::Black),
        (Color::Black, Color::Black, Color::Unset),
        (Color::Black, Color::Reset, Color::Black),
        (Color::Reset, Color::Unset, Color::Reset),
        (Color::Reset, Color::Black, Color::Black),
        (Color::Reset, Color::Reset, Color::Unset),
    ] {
        assert_eq!(lhs ^ rhs, expected, "{:?}.bitxor({:?})", lhs, rhs);
    }
}

#[test]
fn test_not() {
    for (value, expected) in [
        (Color::Unset, Color::Reset),
        (Color::Reset, Color::Unset),
        (Color::Black, Color::Reset),
    ] {
        assert_eq!(!value, expected, "{:?}", value);
    }
}

#[test]
fn color_default_and_option() {
    assert!(Color::Reset.is_default());
    assert!(!Color::Red.is_default());
    assert_eq!(Color::Unset.as_option(), None);
    assert_eq!(Color::Red.as_option(), Some(&Color::Red));
    assert_eq!(Color::Unset.or_default(), Color::Reset);
    assert_eq!(Color::Blue.or_default(), Color::Blue);
}
