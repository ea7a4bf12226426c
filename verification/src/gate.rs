//! Gates of a register: which applications are valid, and how the gates that
//! permute basis states act on a basis index.

use vstd::prelude::*;
use crate::basis::{
    bit_is_set, bit_set, dimension_of, law_partner_flips_one_bit, law_partner_is_involution,
    law_partner_stays_in_register, partner, partner_index, MAX_QUBITS,
};
use crate::error::QuantumError;
use crate::pauli::{commute, PauliOperator};

verus! {

/// A gate on one target qubit.
#[derive(Clone, Copy, Debug, PartialEq, Eq, Structural)]
pub enum QuantumGate {
    Hadamard,
    PauliX,
    PauliY,
    PauliZ,
    /// A phase rotation. The angle in radians is held as the bit pattern of
    /// a double-precision number.
    Phase(u64),
    /// A controlled NOT on the target, with the control qubit given here.
    CNOT(usize),
}

/// Where a gate sends a basis state: to the basis state `index`, multiplied
/// by the imaginary unit to the power `quarter_turns`.
#[derive(Clone, Copy, Debug, PartialEq, Eq, Structural)]
pub struct BasisImage {
    pub index: u64,
    pub quarter_turns: u8,
}

/// Whether a gate may be applied to `target` in a register of `num_qubits`
/// qubits: every qubit that it names is below `num_qubits`.
pub open spec fn applies_within(gate: QuantumGate, target: usize, num_qubits: usize) -> bool {
    &&& target < num_qubits
    &&& match gate {
        QuantumGate::CNOT(control) => control < num_qubits,
        _ => true,
    }
}

/// A Pauli operator as a gate.
pub open spec fn gate_of(pauli: PauliOperator) -> QuantumGate {
    match pauli {
        PauliOperator::X => QuantumGate::PauliX,
        PauliOperator::Y => QuantumGate::PauliY,
        PauliOperator::Z => QuantumGate::PauliZ,
    }
}

/// Where a Pauli operator on `qubit` sends the basis state `index`. X flips
/// the qubit. Z keeps the index and negates when the qubit is set. Y flips
/// the qubit and multiplies by the imaginary unit when the qubit was clear
/// and by its negative when it was set.
pub open spec fn pauli_image(pauli: PauliOperator, qubit: u64, index: u64) -> BasisImage {
    match pauli {
        PauliOperator::X => BasisImage { index: partner(index, qubit), quarter_turns: 0 },
        PauliOperator::Y => BasisImage {
            index: partner(index, qubit),
            quarter_turns: if bit_set(index, qubit) {
                3
            } else {
                1
            },
        },
        PauliOperator::Z => BasisImage {
            index,
            quarter_turns: if bit_set(index, qubit) {
                2
            } else {
                0
            },
        },
    }
}

/// Where a gate on `target` sends the basis state `index`, for the gates
/// that send each basis state to one basis state: the Pauli gates and the
/// controlled NOT, which flips the target when the control is set. A
/// controlled NOT whose control is its own target flips nothing. The
/// Hadamard gate and the phase rotation have no such image.
pub open spec fn image_of(gate: QuantumGate, target: u64, index: u64) -> Option<BasisImage> {
    match gate {
        QuantumGate::PauliX => Some(pauli_image(PauliOperator::X, target, index)),
        QuantumGate::PauliY => Some(pauli_image(PauliOperator::Y, target, index)),
        QuantumGate::PauliZ => Some(pauli_image(PauliOperator::Z, target, index)),
        QuantumGate::CNOT(control) => Some(
            BasisImage {
                index: if control as u64 != target && bit_set(index, control as u64) {
                    partner(index, target)
                } else {
                    index
                },
                quarter_turns: 0,
            },
        ),
        _ => None,
    }
}

impl QuantumGate {
    /// `pauli` as a gate.
    pub fn from_pauli(pauli: PauliOperator) -> (r: QuantumGate)
        ensures
            r == gate_of(pauli),
    {
        match pauli {
            PauliOperator::X => QuantumGate::PauliX,
            PauliOperator::Y => QuantumGate::PauliY,
            PauliOperator::Z => QuantumGate::PauliZ,
        }
    }

    /// Accepts the application of `self` to `target` in a register of
    /// `num_qubits` qubits, or refuses it when the target or the control is
    /// not a qubit of the register.
    pub fn check(&self, target: usize, num_qubits: usize) -> (r: Result<(), QuantumError>)
        ensures
            r == (if applies_within(*self, target, num_qubits) {
                Ok::<(), QuantumError>(())
            } else {
                Err::<(), QuantumError>(QuantumError::InvalidQubitIndex)
            }),
    {
        if target >= num_qubits {
            return Err(QuantumError::InvalidQubitIndex);
        }
        match self {
            QuantumGate::CNOT(control) => {
                if *control >= num_qubits {
                    return Err(QuantumError::InvalidQubitIndex);
                }
            },
            _ => {},
        }
        Ok(())
    }

    /// Where `self` on `target` sends the basis state `index`; `None` for
    /// the Hadamard gate and the phase rotation.
    pub fn basis_image(&self, target: usize, index: u64) -> (r: Option<BasisImage>)
        requires
            applies_within(*self, target, (MAX_QUBITS + 1) as usize),
        ensures
            r == image_of(*self, target as u64, index),
    {
        match self {
            QuantumGate::PauliX => Some(BasisImage { index: partner_index(index, target), quarter_turns: 0 }),
            QuantumGate::PauliY => {
                let turns: u8 = if bit_is_set(index, target) {
                    3
                } else {
                    1
                };
                Some(BasisImage { index: partner_index(index, target), quarter_turns: turns })
            },
            QuantumGate::PauliZ => {
                let turns: u8 = if bit_is_set(index, target) {
                    2
                } else {
                    0
                };
                Some(BasisImage { index, quarter_turns: turns })
            },
            QuantumGate::CNOT(control) => {
                let image: u64 = if *control != target && bit_is_set(index, *control) {
                    partner_index(index, target)
                } else {
                    index
                };
                Some(BasisImage { index: image, quarter_turns: 0 })
            },
            _ => None,
        }
    }
}

/// Where the basis state `index` goes when `first` and then `second` act on
/// `qubit`.
pub open spec fn pauli_image_twice(first: PauliOperator, second: PauliOperator, qubit: u64, index: u64) -> BasisImage {
    let a = pauli_image(first, qubit, index);
    let b = pauli_image(second, qubit, a.index);
    BasisImage { index: b.index, quarter_turns: ((a.quarter_turns + b.quarter_turns) % 4) as u8 }
}

/// A Pauli gate applied twice gives every basis state back unchanged.
pub proof fn law_pauli_gate_is_involution(pauli: PauliOperator, qubit: u64, index: u64)
    requires
        qubit <= MAX_QUBITS,
    ensures
        pauli_image_twice(pauli, pauli, qubit, index) == (BasisImage { index, quarter_turns: 0 }),
{
    law_partner_is_involution(index, qubit);
    law_partner_flips_one_bit(index, qubit, qubit);
}

/// Two Pauli gates on one qubit send a basis state to the same basis state
/// in either order. The two results agree when the operators commute and
/// differ by a sign when they do not.
pub proof fn law_gate_order_matches_commutation(a: PauliOperator, b: PauliOperator, qubit: u64, index: u64)
    requires
        qubit <= MAX_QUBITS,
    ensures
        pauli_image_twice(a, b, qubit, index).index == pauli_image_twice(b, a, qubit, index).index,
        commute(Some(a), Some(b)) ==> pauli_image_twice(a, b, qubit, index).quarter_turns == pauli_image_twice(
            b,
            a,
            qubit,
            index,
        ).quarter_turns,
        !commute(Some(a), Some(b)) ==> pauli_image_twice(a, b, qubit, index).quarter_turns == (pauli_image_twice(
            b,
            a,
            qubit,
            index,
        ).quarter_turns + 2) % 4,
{
    law_partner_is_involution(index, qubit);
    law_partner_flips_one_bit(index, qubit, qubit);
}

/// A gate that has basis images sends distinct basis states to distinct
/// basis states, and keeps every basis state of a register within the
/// register.
pub proof fn law_basis_images_permute(gate: QuantumGate, target: usize, num_qubits: usize, i: u64, j: u64)
    requires
        num_qubits <= MAX_QUBITS,
        applies_within(gate, target, num_qubits),
        image_of(gate, target as u64, i) is Some,
        i < dimension_of(num_qubits as u64),
    ensures
        image_of(gate, target as u64, j) is Some,
        image_of(gate, target as u64, i).unwrap().index < dimension_of(num_qubits as u64),
        image_of(gate, target as u64, i).unwrap().index == image_of(gate, target as u64, j).unwrap().index ==> i == j,
{
    let t = target as u64;
    let n = num_qubits as u64;
    law_partner_stays_in_register(i, t, n);
    assert((i ^ (1u64 << t)) == (j ^ (1u64 << t)) ==> i == j) by (bit_vector);
    match gate {
        QuantumGate::CNOT(control) => {
            let c = control as u64;
            assert(c != t && c < 64 && t < 64 ==> (((i ^ (1u64 << t)) & (1u64 << c) != 0) == (i & (1u64 << c) != 0)))
                by (bit_vector);
            assert(c != t && c < 64 && t < 64 ==> (((j ^ (1u64 << t)) & (1u64 << c) != 0) == (j & (1u64 << c) != 0)))
                by (bit_vector);
        },
        _ => {},
    }
}

} // verus!
