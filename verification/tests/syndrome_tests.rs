use quantum_cryptography::syndrome::ErrorSyndrome;

#[test]
fn new_syndrome_is_all_false() {
    let s = ErrorSyndrome::new(4);
    assert_eq!(s.to_vec(), vec![false, false, false, false]);
    assert_eq!(s.len(), 4);
}

#[test]
fn set_bit_changes_one_bit() {
    let mut s = ErrorSyndrome::new(4);
    s.set_bit(2, true);
    assert_eq!(s.to_vec(), vec![false, false, true, false]);
    assert_eq!(s.get_bit(2), Some(true));
    assert_eq!(s.get_bit(1), Some(false));
    s.set_bit(2, false);
    assert_eq!(s.to_vec(), vec![false, false, false, false]);
}

#[test]
fn set_bit_past_the_end_is_ignored() {
    let mut s = ErrorSyndrome::new(3);
    s.set_bit(3, true);
    s.set_bit(100, true);
    assert_eq!(s.to_vec(), vec![false, false, false]);
    assert_eq!(s.get_bit(3), None);
}

#[test]
fn from_outcomes_keeps_the_order() {
    let outcomes = vec![true, false, false, true, true];
    let s = ErrorSyndrome::from_outcomes(&outcomes);
    assert_eq!(s.to_vec(), outcomes);
    assert_eq!(s.len(), 5);
    assert_eq!(s.get_bit(0), Some(true));
    assert_eq!(s.get_bit(4), Some(true));
    assert_eq!(s.get_bit(5), None);
    assert_eq!(s.clone().to_vec(), outcomes);
}

#[test]
fn empty_syndrome() {
    let s = ErrorSyndrome::new(0);
    assert_eq!(s.len(), 0);
    assert!(s.to_vec().is_empty());
    assert_eq!(s.get_bit(0), None);
}

#[test]
fn long_syndrome_spans_several_words() {
    let mut s = ErrorSyndrome::new(200);
    s.set_bit(0, true);
    s.set_bit(63, true);
    s.set_bit(64, true);
    s.set_bit(199, true);
    let bits = s.to_vec();
    assert_eq!(bits.len(), 200);
    for (i, b) in bits.iter().enumerate() {
        assert_eq!(*b, i == 0 || i == 63 || i == 64 || i == 199);
    }
}
