use ansi::parser::nested::NestedSlice;
use ansi::parser::raw_parameters::{ParamsError, RawParameters};
use ansi::parser::parameters_builder::ParametersBuilder;

#[test]
fn t() {
    let mut p = RawParameters::<16, 8>::new();
    p.extend_one(1);
    p.extend_one(2);
    p.extend_one(3);
    p.extend_one(4);
    p.extend_one(5);
    assert_eq!(p.get(0), Some(&[1u16, 2, 3, 4, 5][..]));
    assert_eq!(p.len(), 1);
}

#[test]
fn groups_are_kept_apart() {
    let mut p = RawParameters::<16, 8>::new();
    p.push(&[38, 2]);
    p.push_one(1);
    p.extend(&[7]);
    assert_eq!(p.len(), 2);
    assert_eq!(p.first(), Some(&[38u16, 2][..]));
    assert_eq!(p.last(), Some(&[1u16, 7][..]));
    assert_eq!(p.values(), &[38, 2, 1, 7]);
    assert_eq!(p.get(2), None);
    p.clear();
    assert!(p.is_empty());
    assert_eq!(p.first(), None);
}

#[test]
fn overflow_keeps_what_fits() {
    let mut p = RawParameters::<3, 4>::new();
    assert_eq!(p.try_push(&[1, 2, 3, 4]), Err(ParamsError::Overflow));
    assert_eq!(p.as_slice(), &[1, 2, 3]);
    assert_eq!(p.try_push_one(5), Err(ParamsError::Overflow));
    assert_eq!(p.try_extend_one(5), Err(ParamsError::Overflow));
    assert_eq!(p.len(), 1);
}

#[test]
fn nested_slice_splits_values() {
    let indices = [0usize, 2, 2, 5];
    let values = [1u16, 2, 3, 4, 5];
    let n = NestedSlice::new(&indices, &values);
    assert_eq!(n.len(), 3);
    assert_eq!(n.count(), 5);
    assert!(!n.is_empty());
    assert_eq!(n.get(0), Some(&[1u16, 2][..]));
    assert_eq!(n.get(1), Some(&[][..]));
    assert_eq!(n.get(2), Some(&[3u16, 4, 5][..]));
    assert_eq!(n.get(3), None);
    let mut it = n.iter();
    assert_eq!(it.len(), 3);
    assert_eq!(it.next(), Some(&[1u16, 2][..]));
    assert_eq!(it.next(), Some(&[][..]));
    assert_eq!(it.next(), Some(&[3u16, 4, 5][..]));
    assert_eq!(it.next(), None);
    assert_eq!(n.as_indices(), &indices);
    assert_eq!(n.as_values(), &values);
}

#[test]
fn groups_change_in_place() {
    let mut p = RawParameters::<16, 8>::new();
    p.push(&[38, 2]);
    p.push_one(1);
    {
        let g = p.get_unchecked_mut(0);
        assert_eq!(g, &[38, 2]);
        g[1] = 5;
    }
    assert_eq!(p.get(0), Some(&[38u16, 5][..]));
    assert_eq!(p.get(1), Some(&[1u16][..]));
    if let Some(g) = p.get_mut(1) {
        g[0] = 7;
    }
    assert_eq!(p.get(1), Some(&[7u16][..]));
    assert!(p.get_mut(2).is_none());
    assert_eq!(p.values(), &[38, 5, 7]);
}

#[test]
fn nested_slices_from_both_ends() {
    let indices = [0usize, 2, 2, 5];
    let values = [1u16, 2, 3, 4, 5];
    let n = NestedSlice::new(&indices, &values);
    let mut it = n.iter();
    assert_eq!(it.next_back(), Some(&[3u16, 4, 5][..]));
    assert_eq!(it.len(), 2);
    assert_eq!(it.next(), Some(&[1u16, 2][..]));
    assert_eq!(it.next_back(), Some(&[][..]));
    assert_eq!(it.len(), 0);
    assert_eq!(it.next(), None);
    assert_eq!(it.next_back(), None);
}

#[test]
fn holds_m_groups() {
    let mut p = RawParameters::<4, 2>::new();
    p.push_one(1);
    p.push_one(2);
    assert_eq!(p.len(), 2);
    assert_eq!(p.get(0), Some(&[1u16][..]));
    assert_eq!(p.get(1), Some(&[2u16][..]));
    assert_eq!(p.try_push_one(3), Err(ParamsError::Overflow));
    assert_eq!(p.try_extend(&[3]), Err(ParamsError::Overflow));
}

#[test]
fn extends_the_last_of_m_minus_one_groups() {
    let mut p = RawParameters::<8, 3>::new();
    p.push(&[1]);
    p.push(&[2]);
    assert_eq!(p.try_extend(&[3, 4]), Ok(()));
    assert_eq!(p.len(), 2);
    assert_eq!(p.get(0), Some(&[1u16][..]));
    assert_eq!(p.get(1), Some(&[2u16, 3, 4][..]));
    assert_eq!(p.as_slice(), &[1, 2, 3, 4]);
}

fn build(bytes: &[u8]) -> Vec<Vec<u16>> {
    let mut b = ParametersBuilder::new();
    for &c in bytes {
        match c {
            b'0'..=b'9' => b.push_digit(c),
            b':' => b.push_sub(),
            b';' => b.push_main(),
            _ => {}
        }
    }
    b.finish();
    (0..b.inner.len()).map(|i| b.inner.get(i).unwrap().to_vec()).collect()
}

#[test]
fn builder_groups() {
    assert_eq!(build(b"1:2;3"), vec![vec![1, 2], vec![3]]);
    // Empty sub-parameters are 0.
    assert_eq!(build(b"1::3"), vec![vec![1, 0, 3]]);
    // An empty leading parameter is 0.
    assert_eq!(build(b";1"), vec![vec![0], vec![1]]);
    // A trailing ':' ends the list with a 0.
    assert_eq!(build(b"4:"), vec![vec![4, 0]]);
    // A trailing ';' leaves no extra parameter.
    assert_eq!(build(b"4;"), vec![vec![4]]);
    // Values are capped at 16383.
    assert_eq!(build(b"99999"), vec![vec![16383]]);
    assert_eq!(build(b""), Vec::<Vec<u16>>::new());
}

#[test]
fn builder_overflow_is_dropped() {
    let many: Vec<u8> = (0..40).flat_map(|_| b"1;".to_vec()).collect();
    let groups = build(&many);
    assert_eq!(groups.len(), 32);
    assert!(groups.iter().all(|g| g == &vec![1u16]));
    let mut b = ParametersBuilder::new();
    b.push_digit(b'7');
    b.clear();
    b.finish();
    assert_eq!(b.inner.len(), 0);
}
