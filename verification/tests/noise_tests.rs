use quantum_cryptography::noise::{
    correlated_errors, decoherence_errors, depolarizing_errors, PairError,
};
use quantum_cryptography::pauli::PauliOperator::{X, Y, Z};

#[test]
fn decoherence_flips_the_phase_of_each_hit_qubit() {
    assert_eq!(
        decoherence_errors(&[false, true, true, false, true]),
        vec![(1, Z), (2, Z), (4, Z)]
    );
    assert!(decoherence_errors(&[false, false]).is_empty());
    assert!(decoherence_errors(&[]).is_empty());
    assert_eq!(decoherence_errors(&[true]), vec![(0, Z)]);
}

#[test]
fn depolarization_applies_the_chosen_operator() {
    assert_eq!(
        depolarizing_errors(&[Some(X), None, Some(Z), Some(Y)]),
        vec![(0, X), (2, Z), (3, Y)]
    );
    assert!(depolarizing_errors(&[None, None, None]).is_empty());
    assert!(depolarizing_errors(&[]).is_empty());
}

#[test]
fn correlated_noise_visits_pairs_by_lower_then_higher_qubit() {
    let draws = [
        Some(PairError::XX),
        None,
        Some(PairError::ZZ),
        Some(PairError::ZZ),
        None,
        Some(PairError::XX),
    ];
    assert_eq!(
        correlated_errors(4, &draws),
        vec![
            (0, X),
            (1, X),
            (0, Z),
            (3, Z),
            (1, Z),
            (2, Z),
            (2, X),
            (3, X)
        ]
    );
}

#[test]
fn correlated_noise_edge_cases() {
    assert!(correlated_errors(0, &[Some(PairError::XX)]).is_empty());
    assert!(correlated_errors(1, &[Some(PairError::XX)]).is_empty());
    assert_eq!(
        correlated_errors(2, &[Some(PairError::ZZ), Some(PairError::XX)]),
        vec![(0, Z), (1, Z)]
    );
    assert_eq!(
        correlated_errors(3, &[Some(PairError::XX)]),
        vec![(0, X), (1, X)]
    );
    assert!(correlated_errors(3, &[]).is_empty());
    assert_eq!(
        correlated_errors(3, &[None, None, Some(PairError::XX)]),
        vec![(1, X), (2, X)]
    );
}
