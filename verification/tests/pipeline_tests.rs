use quantum_cryptography::basis::dimension;
use quantum_cryptography::code::ErrorCorrectionCode;
use quantum_cryptography::gate::QuantumGate;
use quantum_cryptography::noise::{correlated_errors, depolarizing_errors, PairError};
use quantum_cryptography::pauli::PauliOperator;
use quantum_cryptography::stabilizer::Stabilizer;

type Amplitudes = Vec<(f64, f64)>;

fn zero_state(num_qubits: usize) -> Amplitudes {
    let mut amplitudes = vec![(0.0, 0.0); dimension(num_qubits).unwrap() as usize];
    amplitudes[0] = (1.0, 0.0);
    amplitudes
}

fn turn(a: (f64, f64), quarter_turns: u8) -> (f64, f64) {
    match quarter_turns % 4 {
        0 => a,
        1 => (-a.1, a.0),
        2 => (-a.0, -a.1),
        _ => (a.1, -a.0),
    }
}

fn apply_pauli(state: &mut Amplitudes, num_qubits: usize, pauli: PauliOperator, qubit: usize) {
    let gate = QuantumGate::from_pauli(pauli);
    gate.check(qubit, num_qubits).unwrap();
    let old = state.clone();
    for (index, amplitude) in old.iter().enumerate() {
        let image = gate.basis_image(qubit, index as u64).unwrap();
        state[image.index as usize] = turn(*amplitude, image.quarter_turns);
    }
}

fn overlap_real_part(left: &Amplitudes, right: &Amplitudes) -> f64 {
    left.iter()
        .zip(right.iter())
        .map(|(a, b)| a.0 * b.0 + a.1 * b.1)
        .sum()
}

fn measure_stabilizer(state: &Amplitudes, num_qubits: usize, stabilizer: &Stabilizer) -> bool {
    let mut probe = state.clone();
    for (qubit, pauli) in stabilizer.iter() {
        apply_pauli(&mut probe, num_qubits, *pauli, *qubit);
    }
    overlap_real_part(&probe, state) < 0.0
}

fn correct(state: &mut Amplitudes, code: &ErrorCorrectionCode) -> Vec<(usize, PauliOperator)> {
    let outcomes: Vec<bool> = code
        .get_stabilizers()
        .iter()
        .map(|s| measure_stabilizer(state, code.num_qubits(), s))
        .collect();
    let recovery = code.correction_for(&outcomes).unwrap();
    let applied = recovery.operations();
    for (qubit, pauli) in applied.iter() {
        apply_pauli(state, code.num_qubits(), *pauli, *qubit);
    }
    applied
}

#[test]
fn bit_flip_on_qubit_zero_is_corrected() {
    let code = ErrorCorrectionCode::new_steane_code();
    let mut state = zero_state(7);
    let before = state.clone();
    let mut choices = vec![None; 7];
    choices[0] = Some(PauliOperator::X);
    let noise = depolarizing_errors(&choices);
    assert_eq!(noise, vec![(0, PauliOperator::X)]);
    for (qubit, pauli) in noise.iter() {
        apply_pauli(&mut state, 7, *pauli, *qubit);
    }
    assert_ne!(state, before);
    let applied = correct(&mut state, &code);
    assert_eq!(applied, vec![(0, PauliOperator::X)]);
    assert_eq!(state, before);
}

#[test]
fn every_single_bit_flip_is_corrected_up_to_a_stabilizer() {
    let code = ErrorCorrectionCode::new_steane_code();
    for qubit in 0..7 {
        let mut state = zero_state(7);
        apply_pauli(&mut state, 7, PauliOperator::X, qubit);
        let before = state.clone();
        let applied = correct(&mut state, &code);
        assert_eq!(applied.len(), 1);
        assert_eq!(applied[0].1, PauliOperator::X);
        let outcomes: Vec<bool> = code
            .get_stabilizers()
            .iter()
            .map(|s| measure_stabilizer(&state, 7, s))
            .collect();
        assert_eq!(outcomes, vec![false; 4]);
        assert_ne!(state, before);
    }
}

#[test]
fn measuring_a_stabilizer_leaves_the_state_alone() {
    let code = ErrorCorrectionCode::new_steane_code();
    let mut state = zero_state(7);
    apply_pauli(&mut state, 7, PauliOperator::Y, 3);
    let before = state.clone();
    for s in code.get_stabilizers().iter() {
        measure_stabilizer(&state, 7, s);
    }
    assert_eq!(state, before);
}

#[test]
fn correlated_pair_of_bit_flips_gets_the_lightest_recovery() {
    let code = ErrorCorrectionCode::new_steane_code();
    let mut state = zero_state(7);
    let mut draws = vec![None; 21];
    draws[0] = Some(PairError::XX);
    let noise = correlated_errors(7, &draws);
    assert_eq!(noise, vec![(0, PauliOperator::X), (1, PauliOperator::X)]);
    for (qubit, pauli) in noise.iter() {
        apply_pauli(&mut state, 7, *pauli, *qubit);
    }
    let applied = correct(&mut state, &code);
    assert_eq!(applied, vec![(6, PauliOperator::X)]);
    let outcomes: Vec<bool> = code
        .get_stabilizers()
        .iter()
        .map(|s| measure_stabilizer(&state, 7, s))
        .collect();
    assert_eq!(outcomes, vec![false; 4]);
}
