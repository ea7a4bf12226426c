//! Stabilizer error correction for a small quantum register.
//!
//! Pauli algebra, stabilizers, syndromes and minimum-weight recovery tables,
//! how gates act on basis indices, and which Pauli errors a noise channel
//! applies for given random draws.

pub mod basis;
pub mod code;
pub mod coverage;
pub mod enumerate;
pub mod error;
pub mod gate;
pub mod noise;
pub mod parity;
pub mod pattern;
pub mod pauli;
pub mod stabilizer;
pub mod syndrome;
pub mod table;
