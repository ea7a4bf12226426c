use quantum_cryptography::pattern::{ErrorPattern, RecoveryOperation};
use quantum_cryptography::pauli::PauliOperator;
use quantum_cryptography::stabilizer::{LogicalOperator, OperatorType, Stabilizer};

#[test]
fn new_pattern_is_the_identity() {
    let e = ErrorPattern::new(5);
    assert_eq!(e.num_qubits(), 5);
    assert_eq!(e.weight(), 0);
    assert!(e.operations().is_empty());
    for q in 0..7 {
        assert_eq!(e.get_pauli(q), None);
    }
}

#[test]
fn add_pauli_places_and_replaces() {
    let mut e = ErrorPattern::new(4);
    e.add_pauli(2, PauliOperator::X);
    e.add_pauli(0, PauliOperator::Z);
    assert_eq!(e.get_pauli(2), Some(PauliOperator::X));
    assert_eq!(e.get_pauli(0), Some(PauliOperator::Z));
    assert_eq!(e.get_pauli(1), None);
    assert_eq!(e.weight(), 2);
    assert_eq!(
        e.operations(),
        vec![(0, PauliOperator::Z), (2, PauliOperator::X)]
    );
    e.add_pauli(2, PauliOperator::Y);
    assert_eq!(e.get_pauli(2), Some(PauliOperator::Y));
    assert_eq!(e.weight(), 2);
}

#[test]
fn add_pauli_outside_the_pattern_changes_nothing() {
    let mut e = ErrorPattern::new(3);
    e.add_pauli(3, PauliOperator::X);
    e.add_pauli(usize::MAX, PauliOperator::Y);
    assert_eq!(e.weight(), 0);
    assert_eq!(e.num_qubits(), 3);
    assert_eq!(e.get_pauli(3), None);
}

#[test]
fn compose_multiplies_qubit_by_qubit() {
    let mut a = ErrorPattern::new(3);
    a.add_pauli(0, PauliOperator::X);
    a.add_pauli(1, PauliOperator::Y);
    let mut b = ErrorPattern::new(4);
    b.add_pauli(0, PauliOperator::X);
    b.add_pauli(1, PauliOperator::Z);
    b.add_pauli(3, PauliOperator::Z);
    let c = a.compose(&b);
    assert_eq!(c.num_qubits(), 4);
    assert_eq!(
        c.operations(),
        vec![(1, PauliOperator::X), (3, PauliOperator::Z)]
    );
    let d = a.compose(&a);
    assert_eq!(d.num_qubits(), 3);
    assert_eq!(d.weight(), 0);
}

#[test]
fn same_as_compares_length_and_entries() {
    let mut a = ErrorPattern::new(3);
    a.add_pauli(1, PauliOperator::Y);
    let b = a.clone();
    assert!(a.same_as(&b));
    let mut c = a.clone();
    c.add_pauli(1, PauliOperator::Z);
    assert!(!a.same_as(&c));
    assert!(!ErrorPattern::new(3).same_as(&ErrorPattern::new(4)));
    assert!(ErrorPattern::new(0).same_as(&ErrorPattern::new(0)));
}

#[test]
fn recovery_keeps_the_operators_of_its_error() {
    let mut e = ErrorPattern::new(7);
    e.add_pauli(6, PauliOperator::Y);
    let r = RecoveryOperation::from_error(&e);
    assert_eq!(r.operations(), vec![(6, PauliOperator::Y)]);
    assert!(r.as_error().same_as(&e));
    assert!(!r.is_identity());
    assert!(r.clone().as_error().same_as(&e));
    assert!(RecoveryOperation::from_error(&ErrorPattern::new(7)).is_identity());
    assert!(RecoveryOperation::from_error(&ErrorPattern::new(0)).is_identity());
}

#[test]
fn stabilizer_hands_back_its_pairs() {
    let pairs = vec![(3, PauliOperator::Z), (1, PauliOperator::X)];
    let s = Stabilizer::new(pairs.clone());
    assert_eq!(s.iter().to_vec(), pairs);
    assert_eq!(s.len(), 2);
    assert_eq!(s.clone().iter().to_vec(), pairs);
    assert!(s.acts_within(4));
    assert!(!s.acts_within(3));
    assert!(Stabilizer::new(Vec::new()).acts_within(0));
}

#[test]
fn logical_operator_hands_back_its_parts() {
    let pairs = vec![(0, PauliOperator::X), (1, PauliOperator::X)];
    let l = LogicalOperator::new(pairs.clone(), OperatorType::X);
    assert_eq!(l.operators().to_vec(), pairs);
    assert_eq!(l.operator_type(), OperatorType::X);
    let m = l.clone();
    assert_eq!(m.operators().to_vec(), pairs);
    assert_eq!(m.operator_type(), OperatorType::X);
}
