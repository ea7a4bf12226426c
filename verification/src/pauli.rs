//! Single-qubit Pauli operators and their algebra up to a global phase.

use vstd::prelude::*;

verus! {

/// A single-qubit Pauli operator other than the identity.
#[derive(Clone, Copy, Debug, PartialEq, Eq, Structural)]
pub enum PauliOperator {
    X,
    Y,
    Z,
}

/// Whether two single-qubit operators commute. `None` stands for the identity.
/// Two operators commute when one of them is the identity or when they are
/// equal; two distinct operators other than the identity anticommute.
pub open spec fn commute(a: Option<PauliOperator>, b: Option<PauliOperator>) -> bool {
    a is None || b is None || a == b
}

/// The operator that differs from both of two distinct operators.
pub open spec fn remaining(a: PauliOperator, b: PauliOperator) -> PauliOperator {
    match (a, b) {
        (PauliOperator::X, PauliOperator::Y) | (PauliOperator::Y, PauliOperator::X) => PauliOperator::Z,
        (PauliOperator::X, PauliOperator::Z) | (PauliOperator::Z, PauliOperator::X) => PauliOperator::Y,
        _ => PauliOperator::X,
    }
}

/// The product of two single-qubit operators, up to a phase. `None` stands for
/// the identity.
pub open spec fn product(a: Option<PauliOperator>, b: Option<PauliOperator>) -> Option<PauliOperator> {
    match (a, b) {
        (None, _) => b,
        (_, None) => a,
        (Some(x), Some(y)) => if x == y {
            None
        } else {
            Some(remaining(x, y))
        },
    }
}

impl PauliOperator {
    /// Whether `self` commutes with `other`.
    pub fn commutes_with(self, other: Option<PauliOperator>) -> (r: bool)
        ensures
            r == commute(Some(self), other),
    {
        match other {
            None => true,
            Some(o) => self == o,
        }
    }

    /// The product of `a` and `b` up to a phase.
    pub fn multiply(a: Option<PauliOperator>, b: Option<PauliOperator>) -> (r: Option<PauliOperator>)
        ensures
            r == product(a, b),
    {
        match (a, b) {
            (None, _) => b,
            (_, None) => a,
            (Some(x), Some(y)) => {
                if x == y {
                    None
                } else {
                    match (x, y) {
                        (PauliOperator::X, PauliOperator::Y) | (PauliOperator::Y, PauliOperator::X) => Some(PauliOperator::Z),
                        (PauliOperator::X, PauliOperator::Z) | (PauliOperator::Z, PauliOperator::X) => Some(PauliOperator::Y),
                        _ => Some(PauliOperator::X),
                    }
                }
            },
        }
    }
}

/// An operator commutes with a product exactly when it commutes with both
/// factors or with neither.
pub proof fn lemma_commute_product(p: PauliOperator, a: Option<PauliOperator>, b: Option<PauliOperator>)
    ensures
        commute(Some(p), product(a, b)) == (commute(Some(p), a) == commute(Some(p), b)),
{
}

/// Every operator is its own inverse up to a phase, and the product has the
/// identity as its unit.
pub proof fn lemma_product_unit_and_square(a: Option<PauliOperator>)
    ensures
        product(a, a) is None,
        product(a, None) == a,
        product(None, a) == a,
{
}

} // verus!
