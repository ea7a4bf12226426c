//! Computational basis indices of a register, and how flipping one qubit
//! pairs them up.

use vstd::prelude::*;
use crate::error::QuantumError;

verus! {

/// The most qubits that a register can have: its basis indices must fit 64
/// bits.
pub const MAX_QUBITS: usize = 63;

/// The number of basis states of a register of `num_qubits` qubits, for
/// `num_qubits` up to `MAX_QUBITS`.
pub open spec fn dimension_of(num_qubits: u64) -> u64 {
    1u64 << num_qubits
}

/// The index that differs from `index` in bit `qubit` and nowhere else.
pub open spec fn partner(index: u64, qubit: u64) -> u64 {
    index ^ (1u64 << qubit)
}

/// Whether bit `qubit` of `index` is set.
pub open spec fn bit_set(index: u64, qubit: u64) -> bool {
    index & (1u64 << qubit) != 0
}

/// The number of basis states of a register of `num_qubits` qubits, or `None`
/// when the register has more than `MAX_QUBITS` qubits.
pub fn dimension(num_qubits: usize) -> (r: Option<u64>)
    ensures
        r == (if num_qubits <= MAX_QUBITS {
            Some(dimension_of(num_qubits as u64))
        } else {
            None
        }),
{
    if num_qubits <= MAX_QUBITS {
        Some(1u64 << (num_qubits as u64))
    } else {
        None
    }
}

/// Accepts two registers for a comparison when they have the same number of
/// qubits, and refuses them otherwise.
pub fn check_same_dimension(left_qubits: usize, right_qubits: usize) -> (r: Result<(), QuantumError>)
    ensures
        r == (if left_qubits == right_qubits {
            Ok::<(), QuantumError>(())
        } else {
            Err::<(), QuantumError>(QuantumError::DimensionMismatch)
        }),
{
    if left_qubits == right_qubits {
        Ok(())
    } else {
        Err(QuantumError::DimensionMismatch)
    }
}

/// The index that differs from `index` in bit `qubit` and nowhere else.
pub fn partner_index(index: u64, qubit: usize) -> (r: u64)
    requires
        qubit <= MAX_QUBITS,
    ensures
        r == partner(index, qubit as u64),
{
    index ^ (1u64 << (qubit as u64))
}

/// Whether bit `qubit` of `index` is set.
pub fn bit_is_set(index: u64, qubit: usize) -> (r: bool)
    requires
        qubit <= MAX_QUBITS,
    ensures
        r == bit_set(index, qubit as u64),
{
    index & (1u64 << (qubit as u64)) != 0
}

/// Flipping a qubit twice gives the index back.
pub proof fn law_partner_is_involution(index: u64, qubit: u64)
    requires
        qubit <= MAX_QUBITS,
    ensures
        partner(partner(index, qubit), qubit) == index,
{
    assert((index ^ (1u64 << qubit)) ^ (1u64 << qubit) == index) by (bit_vector);
}

/// Flipping a qubit changes that bit of the index and no other.
pub proof fn law_partner_flips_one_bit(index: u64, qubit: u64, other: u64)
    requires
        qubit <= MAX_QUBITS,
        other <= MAX_QUBITS,
    ensures
        bit_set(partner(index, qubit), other) == (bit_set(index, other) != (other == qubit)),
{
    assert(((index ^ (1u64 << qubit)) & (1u64 << other) != 0) == ((index & (1u64 << other) != 0) != (other
        == qubit))) by (bit_vector)
        requires
            qubit <= 63,
            other <= 63,
    ;
}

/// Flipping a qubit of a register keeps the index within the register.
pub proof fn law_partner_stays_in_register(index: u64, qubit: u64, num_qubits: u64)
    requires
        num_qubits <= MAX_QUBITS,
        qubit < num_qubits,
        index < dimension_of(num_qubits),
    ensures
        partner(index, qubit) < dimension_of(num_qubits),
{
    assert((index ^ (1u64 << qubit)) < (1u64 << num_qubits)) by (bit_vector)
        requires
            num_qubits <= 63,
            qubit < num_qubits,
            index < (1u64 << num_qubits),
    ;
}

} // verus!
