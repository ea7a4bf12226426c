//! The failures that operations on a register or a code report.

use vstd::prelude::*;

verus! {

/// Why an operation was refused.
#[derive(Clone, Copy, Debug, PartialEq, Eq, Structural)]
pub enum QuantumError {
    /// A qubit index is not below the number of qubits.
    InvalidQubitIndex,
    /// Two states of different qubit counts were compared.
    DimensionMismatch,
    /// No enumerated low-weight error produces the syndrome.
    UnknownSyndrome,
}

} // verus!
