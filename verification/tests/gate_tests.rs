use quantum_cryptography::basis::{
    bit_is_set, check_same_dimension, dimension, partner_index, MAX_QUBITS,
};
use quantum_cryptography::error::QuantumError;
use quantum_cryptography::gate::{BasisImage, QuantumGate};
use quantum_cryptography::pauli::PauliOperator;

#[test]
fn dimension_is_a_power_of_two() {
    assert_eq!(dimension(0), Some(1));
    assert_eq!(dimension(1), Some(2));
    assert_eq!(dimension(7), Some(128));
    assert_eq!(dimension(MAX_QUBITS), Some(1u64 << 63));
    assert_eq!(dimension(64), None);
    assert_eq!(dimension(usize::MAX), None);
}

#[test]
fn partner_flips_one_bit() {
    assert_eq!(partner_index(0, 0), 1);
    assert_eq!(partner_index(1, 0), 0);
    assert_eq!(partner_index(0b1010, 2), 0b1110);
    assert_eq!(partner_index(0b1110, 2), 0b1010);
    assert_eq!(partner_index(0, 63), 1u64 << 63);
    assert!(bit_is_set(0b100, 2));
    assert!(!bit_is_set(0b100, 1));
    assert!(bit_is_set(u64::MAX, 63));
}

#[test]
fn states_of_different_size_do_not_compare() {
    assert_eq!(check_same_dimension(3, 3), Ok(()));
    assert_eq!(
        check_same_dimension(3, 4),
        Err(QuantumError::DimensionMismatch)
    );
}

#[test]
fn gates_outside_the_register_are_refused() {
    let gates = [
        QuantumGate::Hadamard,
        QuantumGate::PauliX,
        QuantumGate::PauliY,
        QuantumGate::PauliZ,
        QuantumGate::Phase(0),
        QuantumGate::CNOT(0),
    ];
    for gate in gates {
        assert_eq!(gate.check(0, 1), Ok(()));
        assert_eq!(gate.check(6, 7), Ok(()));
        assert_eq!(gate.check(7, 7), Err(QuantumError::InvalidQubitIndex));
        assert_eq!(gate.check(0, 0), Err(QuantumError::InvalidQubitIndex));
    }
    assert_eq!(
        QuantumGate::CNOT(7).check(0, 7),
        Err(QuantumError::InvalidQubitIndex)
    );
    assert_eq!(QuantumGate::CNOT(6).check(0, 7), Ok(()));
}

#[test]
fn pauli_gates_on_basis_states() {
    let image = |index, quarter_turns| Some(BasisImage { index, quarter_turns });
    assert_eq!(QuantumGate::PauliX.basis_image(1, 0b000), image(0b010, 0));
    assert_eq!(QuantumGate::PauliX.basis_image(1, 0b010), image(0b000, 0));
    assert_eq!(QuantumGate::PauliZ.basis_image(1, 0b000), image(0b000, 0));
    assert_eq!(QuantumGate::PauliZ.basis_image(1, 0b010), image(0b010, 2));
    assert_eq!(QuantumGate::PauliY.basis_image(1, 0b000), image(0b010, 1));
    assert_eq!(QuantumGate::PauliY.basis_image(1, 0b010), image(0b000, 3));
    assert_eq!(QuantumGate::Hadamard.basis_image(0, 0), None);
    assert_eq!(QuantumGate::Phase(7).basis_image(0, 0), None);
}

#[test]
fn controlled_not_flips_the_target_when_the_control_is_set() {
    let image = |index| Some(BasisImage { index, quarter_turns: 0 });
    assert_eq!(QuantumGate::CNOT(0).basis_image(1, 0b00), image(0b00));
    assert_eq!(QuantumGate::CNOT(0).basis_image(1, 0b01), image(0b11));
    assert_eq!(QuantumGate::CNOT(0).basis_image(1, 0b10), image(0b10));
    assert_eq!(QuantumGate::CNOT(0).basis_image(1, 0b11), image(0b01));
}

#[test]
fn pauli_operators_become_their_gates() {
    assert_eq!(QuantumGate::from_pauli(PauliOperator::X), QuantumGate::PauliX);
    assert_eq!(QuantumGate::from_pauli(PauliOperator::Y), QuantumGate::PauliY);
    assert_eq!(QuantumGate::from_pauli(PauliOperator::Z), QuantumGate::PauliZ);
}

#[test]
fn a_pauli_gate_twice_is_the_identity_on_every_basis_state() {
    for gate in [QuantumGate::PauliX, QuantumGate::PauliY, QuantumGate::PauliZ] {
        for target in 0..3 {
            for index in 0..8u64 {
                let once = gate.basis_image(target, index).unwrap();
                let twice = gate.basis_image(target, once.index).unwrap();
                assert_eq!(twice.index, index);
                assert_eq!((once.quarter_turns + twice.quarter_turns) % 4, 0);
            }
        }
    }
}

#[test]
fn controlled_not_on_its_own_control_flips_nothing() {
    for index in 0..4u64 {
        let image = QuantumGate::CNOT(1).basis_image(1, index).unwrap();
        assert_eq!(image.index, index);
        assert_eq!(image.quarter_turns, 0);
    }
}

#[test]
fn gates_with_basis_images_permute_the_basis() {
    let gates = [
        QuantumGate::PauliX,
        QuantumGate::PauliY,
        QuantumGate::PauliZ,
        QuantumGate::CNOT(0),
        QuantumGate::CNOT(2),
    ];
    for gate in gates {
        for target in 0..3 {
            let mut seen = vec![false; 8];
            for index in 0..8u64 {
                let image = gate.basis_image(target, index).unwrap();
                assert!(image.index < 8);
                assert!(!seen[image.index as usize]);
                seen[image.index as usize] = true;
            }
        }
    }
}
