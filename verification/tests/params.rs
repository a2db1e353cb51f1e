use ansi::params::{Param, Parameters, ParseParamsError};

#[test]
fn param() {
    let main = Param::Main(16);
    let sub = Param::Sub(5);
    assert_eq!(main.value(), 16);
    assert!(main.is_main());
    assert!(!main.is_sub());
    assert_eq!(main, Param::Main(16));
    assert_eq!(sub.value(), 5);
    assert!(sub.is_sub());
    assert!(!sub.is_main());
    assert_eq!(sub, Param::Sub(5));
}

#[test]
fn display_roundtrip() {
    let mut params = Parameters::new();
    params.push(Param::Main(16));
    params.push(Param::Sub(5));
    params.push(Param::Sub(10));
    params.push(Param::Main(2));
    params.push(Param::Main(9));
    params.push(Param::Main(3));
    params.push(Param::Sub(4));

    let text = params.to_string();
    assert_eq!(text, "16:5:10;2;9;3:4");
    assert_eq!(params, Parameters::from_str(&text).unwrap());
}

#[test]
fn groups() {
    let params = Parameters::from_str("16:5:10;2;9;3:4").unwrap();
    let groups: Vec<Vec<u16>> = params
        .groups()
        .iter()
        .map(|group| group.iter().map(|p| p.value()).collect::<Vec<_>>())
        .collect();
    assert_eq!(groups, vec![vec![16, 5, 10], vec![2], vec![9], vec![3, 4]]);
}

#[test]
fn parse_empty_fields() {
    let params = Parameters::from_str("1;;2;3::4;5").unwrap();
    assert_eq!(
        params.as_slice(),
        &[
            Param::Main(1),
            Param::Main(0),
            Param::Main(2),
            Param::Main(3),
            Param::Sub(0),
            Param::Sub(4),
            Param::Main(5),
        ]
    );
}

#[test]
fn invalid() {
    let err = Parameters::from_str("1;A").unwrap_err();
    assert!(matches!(err, ParseParamsError::InvalidByte(..)));
}

#[test]
fn overflow() {
    let err = Parameters::from_str("999999").unwrap_err();
    assert!(matches!(err, ParseParamsError::Overflow(..)));
    assert_eq!(Parameters::from_str("65535").unwrap().as_slice(), &[Param::Main(65535)]);
}

#[test]
fn values_and_edges() {
    let params = Parameters::from_str("1:2;3").unwrap();
    assert_eq!(params.values(), vec![1, 2, 3]);
    assert_eq!(params.first(), Some(1));
    assert_eq!(params.last(), Some(3));
    assert_eq!(params.get(1), Some(2));
    assert_eq!(params.get(3), None);
    assert!(Parameters::from_str("").unwrap().is_empty());
}

#[test]
fn trailing_separator_is_an_empty_field() {
    let p = Parameters::from_str("1;").unwrap();
    assert_eq!(p.as_slice(), &[Param::Main(1), Param::Main(0)]);
    let p = Parameters::from_str("1:").unwrap();
    assert_eq!(p.as_slice(), &[Param::Main(1), Param::Sub(0)]);
    let p = Parameters::from_str(";").unwrap();
    assert_eq!(p.as_slice(), &[Param::Main(0), Param::Main(0)]);
}

#[test]
fn parsed_length_within_estimate() {
    for s in ["16:5:10;2;9;3:4", "1;", "1:", ";;", "1;;2;3::4;5", "7"] {
        let p = Parameters::from_str(s).unwrap();
        assert!(p.as_slice().len() <= ansi::params::estimate_param_count(s), "{}", s);
    }
    assert_eq!(ansi::params::estimate_param_count("16:5:10;2;9;3:4"), 7);
}
