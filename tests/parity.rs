use simple_lookup::{check_parity, first_difference, ParityMismatch};

#[test]
fn identical_proofs_match() {
    let a = vec![1u8, 2, 3, 4];
    assert_eq!(first_difference(&a, &a.clone()), None);
    assert_eq!(check_parity(&a, &a.clone()), Ok(()));
    assert_eq!(first_difference(&vec![], &vec![]), None);
}

#[test]
fn first_differing_byte_is_reported() {
    let a = vec![1u8, 2, 3, 4];
    let b = vec![1u8, 2, 7, 4, 9];
    assert_eq!(first_difference(&a, &b), Some(2));
    assert_eq!(
        check_parity(&a, &b),
        Err(ParityMismatch { offset: 2, left_len: 4, right_len: 5 })
    );
}

#[test]
fn prefix_differs_at_its_length() {
    let a = vec![5u8, 6];
    let b = vec![5u8, 6, 0];
    assert_eq!(first_difference(&a, &b), Some(2));
    assert_eq!(first_difference(&b, &a), Some(2));
    assert_eq!(first_difference(&vec![], &b), Some(0));
}
