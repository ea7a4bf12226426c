//! Multi-qubit check operators and logical operators.

use vstd::prelude::*;
use crate::pauli::PauliOperator;

verus! {

/// A multi-qubit check operator: the Pauli operator that it applies at each
/// of the qubits it names, in the order given. One stabilizer yields one
/// syndrome bit.
#[derive(Debug)]
pub struct Stabilizer {
    operators: Vec<(usize, PauliOperator)>,
}

impl View for Stabilizer {
    type V = Seq<(usize, PauliOperator)>;

    closed spec fn view(&self) -> Seq<(usize, PauliOperator)> {
        self.operators@
    }
}

/// A copy of `source`, entry by entry.
pub fn copy_operators(source: &Vec<(usize, PauliOperator)>) -> (r: Vec<(usize, PauliOperator)>)
    ensures
        r@ == source@,
{
    let mut out: Vec<(usize, PauliOperator)> = Vec::new();
    let mut i: usize = 0;
    while i < source.len()
        invariant
            i <= source.len(),
            out@ == source@.take(i as int),
        decreases source.len() - i,
    {
        out.push(source[i]);
        i += 1;
    }
    out
}

impl Stabilizer {
    /// The stabilizer made of `operators`.
    pub fn new(operators: Vec<(usize, PauliOperator)>) -> (r: Self)
        ensures
            r@ == operators@,
    {
        Self { operators }
    }

    /// The `(qubit, operator)` pairs in the order given at construction.
    pub fn iter(&self) -> (r: &[(usize, PauliOperator)])
        ensures
            r@ == self@,
    {
        self.operators.as_slice()
    }

    /// The number of `(qubit, operator)` pairs.
    pub fn len(&self) -> (r: usize)
        ensures
            r == self@.len(),
    {
        self.operators.len()
    }

    /// Whether every qubit that the stabilizer names is below `num_qubits`.
    pub fn acts_within(&self, num_qubits: usize) -> (r: bool)
        ensures
            r == acts_within(self@, num_qubits as nat),
    {
        let mut i: usize = 0;
        while i < self.operators.len()
            invariant
                i <= self.operators.len(),
                forall|k: int| 0 <= k < i ==> (#[trigger] self.operators@[k]).0 < num_qubits,
            decreases self.operators.len() - i,
        {
            if self.operators[i].0 >= num_qubits {
                return false;
            }
            i += 1;
        }
        true
    }
}

/// Whether every qubit named in `operators` is below `num_qubits`.
pub open spec fn acts_within(operators: Seq<(usize, PauliOperator)>, num_qubits: nat) -> bool {
    forall|k: int| 0 <= k < operators.len() ==> (#[trigger] operators[k]).0 < num_qubits
}

impl Clone for Stabilizer {
    fn clone(&self) -> (r: Self)
        ensures
            r@ == self@,
    {
        Self { operators: copy_operators(&self.operators) }
    }
}

/// Which logical Pauli an operator on the encoded qubit stands for.
#[derive(Clone, Copy, Debug, PartialEq, Eq, Structural)]
pub enum OperatorType {
    X,
    Z,
}

/// An operator on the encoded qubit: shaped like a stabilizer, and tagged
/// with the logical Pauli that it performs.
#[derive(Debug)]
pub struct LogicalOperator {
    operators: Vec<(usize, PauliOperator)>,
    operator_type: OperatorType,
}

impl View for LogicalOperator {
    type V = (Seq<(usize, PauliOperator)>, OperatorType);

    closed spec fn view(&self) -> (Seq<(usize, PauliOperator)>, OperatorType) {
        (self.operators@, self.operator_type)
    }
}

impl LogicalOperator {
    /// The logical operator made of `operators`, tagged `operator_type`.
    pub fn new(operators: Vec<(usize, PauliOperator)>, operator_type: OperatorType) -> (r: Self)
        ensures
            r@ == (operators@, operator_type),
    {
        Self { operators, operator_type }
    }

    /// The `(qubit, operator)` pairs in the order given at construction.
    pub fn operators(&self) -> (r: &[(usize, PauliOperator)])
        ensures
            r@ == self@.0,
    {
        self.operators.as_slice()
    }

    /// The logical Pauli that the operator performs.
    pub fn operator_type(&self) -> (r: OperatorType)
        ensures
            r == self@.1,
    {
        self.operator_type
    }
}

impl Clone for LogicalOperator {
    fn clone(&self) -> (r: Self)
        ensures
            r@ == self@,
    {
        Self { operators: copy_operators(&self.operators), operator_type: self.operator_type }
    }
}

} // verus!
