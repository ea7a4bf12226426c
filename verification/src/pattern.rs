//! Error patterns: which Pauli operator acts on which qubit.

use vstd::prelude::*;
use crate::pauli::{lemma_product_unit_and_square, product, PauliOperator};

verus! {

/// The operator that a pattern applies at qubit `q`. Qubits that the pattern
/// does not cover carry the identity, `None`.
pub open spec fn pauli_at(e: Seq<Option<PauliOperator>>, q: int) -> Option<PauliOperator> {
    if 0 <= q < e.len() {
        e[q]
    } else {
        None
    }
}

/// The pattern on `n` qubits that applies nothing.
pub open spec fn identity_pattern(n: nat) -> Seq<Option<PauliOperator>> {
    Seq::new(n, |q: int| None)
}

/// The number of qubits on which a pattern applies an operator.
pub open spec fn weight(e: Seq<Option<PauliOperator>>) -> nat
    decreases e.len(),
{
    if e.len() == 0 {
        0
    } else {
        weight(e.drop_last()) + if e.last() is Some {
            1nat
        } else {
            0nat
        }
    }
}

/// The `(qubit, operator)` pairs of a pattern, by ascending qubit.
pub open spec fn entries(e: Seq<Option<PauliOperator>>) -> Seq<(usize, PauliOperator)>
    decreases e.len(),
{
    if e.len() == 0 {
        Seq::empty()
    } else {
        match e.last() {
            Some(p) => entries(e.drop_last()).push(((e.len() - 1) as usize, p)),
            None => entries(e.drop_last()),
        }
    }
}

/// The pattern that applies `b` and then `a`, qubit by qubit and up to a
/// phase. It covers as many qubits as the longer of the two.
pub open spec fn compose(a: Seq<Option<PauliOperator>>, b: Seq<Option<PauliOperator>>) -> Seq<Option<PauliOperator>> {
    Seq::new(
        if a.len() >= b.len() {
            a.len()
        } else {
            b.len()
        },
        |q: int| product(pauli_at(a, q), pauli_at(b, q)),
    )
}

/// A pattern applied twice is the identity up to a phase: every pattern
/// undoes itself.
pub proof fn law_pattern_undoes_itself(e: Seq<Option<PauliOperator>>)
    ensures
        compose(e, e) == identity_pattern(e.len()),
{
    assert forall|q: int| 0 <= q < e.len() implies compose(e, e)[q] == identity_pattern(e.len())[q] by {
        lemma_product_unit_and_square(e[q]);
    }
    assert(compose(e, e) =~= identity_pattern(e.len()));
}

/// Composing with the identity pattern on the same qubits changes nothing.
pub proof fn law_identity_is_neutral(e: Seq<Option<PauliOperator>>)
    ensures
        compose(e, identity_pattern(e.len())) == e,
        compose(identity_pattern(e.len()), e) == e,
{
    assert(compose(e, identity_pattern(e.len())) =~= e);
    assert(compose(identity_pattern(e.len()), e) =~= e);
}

/// A hypothesized physical error: a mapping from qubit index to the Pauli
/// operator applied there. Qubits without an entry carry the identity.
#[derive(Debug)]
pub struct ErrorPattern {
    paulis: Vec<Option<PauliOperator>>,
}

impl View for ErrorPattern {
    type V = Seq<Option<PauliOperator>>;

    closed spec fn view(&self) -> Seq<Option<PauliOperator>> {
        self.paulis@
    }
}

/// The views of the patterns in `v`, in order.
pub open spec fn pattern_views(v: Seq<ErrorPattern>) -> Seq<Seq<Option<PauliOperator>>> {
    Seq::new(v.len(), |i: int| v[i]@)
}

impl ErrorPattern {
    /// The pattern on `num_qubits` qubits that applies nothing.
    pub fn new(num_qubits: usize) -> (r: Self)
        ensures
            r@ == identity_pattern(num_qubits as nat),
    {
        let mut paulis: Vec<Option<PauliOperator>> = Vec::new();
        let mut i: usize = 0;
        while i < num_qubits
            invariant
                i <= num_qubits,
                paulis@ == identity_pattern(i as nat),
            decreases num_qubits - i,
        {
            paulis.push(None);
            i += 1;
            assert(paulis@ =~= identity_pattern(i as nat));
        }
        Self { paulis }
    }

    /// The number of qubits that the pattern covers.
    pub fn num_qubits(&self) -> (r: usize)
        ensures
            r == self@.len(),
    {
        self.paulis.len()
    }

    /// Lets the pattern apply `pauli` at `qubit`, in place of what it applied
    /// there. A qubit that the pattern does not cover changes nothing.
    pub fn add_pauli(&mut self, qubit: usize, pauli: PauliOperator)
        ensures
            qubit < old(self)@.len() ==> final(self)@ == old(self)@.update(qubit as int, Some(pauli)),
            qubit >= old(self)@.len() ==> final(self)@ == old(self)@,
    {
        if qubit < self.paulis.len() {
            self.paulis.set(qubit, Some(pauli));
        }
    }

    /// The operator applied at `qubit`, or `None` for the identity.
    pub fn get_pauli(&self, qubit: usize) -> (r: Option<PauliOperator>)
        ensures
            r == pauli_at(self@, qubit as int),
    {
        if qubit < self.paulis.len() {
            self.paulis[qubit]
        } else {
            None
        }
    }

    /// The number of qubits on which the pattern applies an operator.
    pub fn weight(&self) -> (r: usize)
        ensures
            r == weight(self@),
    {
        let mut count: usize = 0;
        let mut i: usize = 0;
        while i < self.paulis.len()
            invariant
                i <= self.paulis.len(),
                count <= i,
                count == weight(self.paulis@.take(i as int)),
            decreases self.paulis.len() - i,
        {
            proof {
                let next = self.paulis@.take(i + 1);
                assert(next.drop_last() =~= self.paulis@.take(i as int));
                assert(next.last() == self.paulis@[i as int]);
            }
            if self.paulis[i].is_some() {
                count += 1;
            }
            i += 1;
        }
        proof {
            assert(self.paulis@.take(i as int) =~= self.paulis@);
        }
        count
    }

    /// The `(qubit, operator)` pairs of the pattern, by ascending qubit.
    pub fn operations(&self) -> (r: Vec<(usize, PauliOperator)>)
        ensures
            r@ == entries(self@),
    {
        let mut out: Vec<(usize, PauliOperator)> = Vec::new();
        let mut i: usize = 0;
        while i < self.paulis.len()
            invariant
                i <= self.paulis.len(),
                out@ == entries(self.paulis@.take(i as int)),
            decreases self.paulis.len() - i,
        {
            proof {
                let next = self.paulis@.take(i + 1);
                assert(next.drop_last() =~= self.paulis@.take(i as int));
                assert(next.last() == self.paulis@[i as int]);
            }
            match self.paulis[i] {
                Some(p) => {
                    out.push((i, p));
                },
                None => {},
            }
            i += 1;
        }
        proof {
            assert(self.paulis@.take(i as int) =~= self.paulis@);
        }
        out
    }

    /// The pattern that applies `other` and then `self`, up to a phase.
    pub fn compose(&self, other: &ErrorPattern) -> (r: ErrorPattern)
        ensures
            r@ == compose(self@, other@),
    {
        let n: usize = if self.paulis.len() >= other.paulis.len() {
            self.paulis.len()
        } else {
            other.paulis.len()
        };
        let mut paulis: Vec<Option<PauliOperator>> = Vec::new();
        let mut i: usize = 0;
        while i < n
            invariant
                i <= n,
                n == compose(self@, other@).len(),
                paulis@ == compose(self@, other@).take(i as int),
            decreases n - i,
        {
            let p = PauliOperator::multiply(self.get_pauli(i), other.get_pauli(i));
            paulis.push(p);
            i += 1;
            assert(paulis@ =~= compose(self@, other@).take(i as int));
        }
        proof {
            assert(compose(self@, other@).take(i as int) =~= compose(self@, other@));
        }
        ErrorPattern { paulis }
    }

    /// Whether `self` and `other` cover the same qubits and apply the same
    /// operator at each of them.
    pub fn same_as(&self, other: &ErrorPattern) -> (r: bool)
        ensures
            r == (self@ == other@),
    {
        if self.paulis.len() != other.paulis.len() {
            return false;
        }
        let mut i: usize = 0;
        while i < self.paulis.len()
            invariant
                i <= self.paulis.len(),
                self.paulis.len() == other.paulis.len(),
                forall|k: int| 0 <= k < i ==> self.paulis@[k] == other.paulis@[k],
            decreases self.paulis.len() - i,
        {
            if self.paulis[i] != other.paulis[i] {
                return false;
            }
            i += 1;
        }
        proof {
            assert(self.paulis@ =~= other.paulis@);
        }
        true
    }
}

impl Clone for ErrorPattern {
    fn clone(&self) -> (r: Self)
        ensures
            r@ == self@,
    {
        let mut paulis: Vec<Option<PauliOperator>> = Vec::new();
        let mut i: usize = 0;
        while i < self.paulis.len()
            invariant
                i <= self.paulis.len(),
                paulis@ == self.paulis@.take(i as int),
            decreases self.paulis.len() - i,
        {
            paulis.push(self.paulis[i]);
            i += 1;
        }
        Self { paulis }
    }
}

/// The correction chosen for a syndrome: the lowest-weight error pattern that
/// produces the syndrome. Applying it undoes that error up to a phase.
#[derive(Debug)]
pub struct RecoveryOperation {
    error: ErrorPattern,
}

impl View for RecoveryOperation {
    type V = Seq<Option<PauliOperator>>;

    closed spec fn view(&self) -> Seq<Option<PauliOperator>> {
        self.error@
    }
}

impl RecoveryOperation {
    /// The recovery that applies the same operators as `error`.
    pub fn from_error(error: &ErrorPattern) -> (r: Self)
        ensures
            r@ == error@,
    {
        Self { error: error.clone() }
    }

    /// The recovery as an error pattern.
    pub fn as_error(&self) -> (r: &ErrorPattern)
        ensures
            r@ == self@,
    {
        &self.error
    }

    /// The `(qubit, operator)` pairs to apply, by ascending qubit.
    pub fn operations(&self) -> (r: Vec<(usize, PauliOperator)>)
        ensures
            r@ == entries(self@),
    {
        self.error.operations()
    }

    /// Whether the recovery applies nothing.
    pub fn is_identity(&self) -> (r: bool)
        ensures
            r == (self@ == identity_pattern(self@.len())),
    {
        let mut i: usize = 0;
        while i < self.error.num_qubits()
            invariant
                i <= self@.len(),
                forall|k: int| 0 <= k < i ==> self@[k] is None,
            decreases self@.len() - i,
        {
            if self.error.get_pauli(i).is_some() {
                return false;
            }
            i += 1;
        }
        proof {
            assert(self@ =~= identity_pattern(self@.len()));
        }
        true
    }
}

impl Clone for RecoveryOperation {
    fn clone(&self) -> (r: Self)
        ensures
            r@ == self@,
    {
        Self { error: self.error.clone() }
    }
}

} // verus!
