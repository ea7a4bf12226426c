//! Stabilizer codes: the Steane code, decoding by table lookup, and the
//! laws of decoding.

use vstd::prelude::*;
use std::collections::HashMap;
use crate::coverage::{lemma_identity_comes_first, lemma_patterns_below_complete, lemma_patterns_below_sorted};
use crate::enumerate::{enumerate_errors, patterns_below};
use crate::error::QuantumError;
use crate::parity::{
    lemma_parity_of_composition, lemma_parity_of_identity, stabilizer_parity, stabilizer_views, syndrome_for,
    syndrome_of, syndromes_of, zero_syndrome,
};
use crate::pattern::{compose, identity_pattern, pattern_views, weight, ErrorPattern, RecoveryOperation};
use crate::pauli::{commute, PauliOperator};
use crate::stabilizer::{acts_within, LogicalOperator, OperatorType, Stabilizer};
use crate::syndrome::ErrorSyndrome;
use crate::table::{
    first_index, lemma_first_index, lemma_first_index_at_most, lemma_first_index_by_key,
    lemma_first_index_wrong_length, precompute_recovery_operations, table_holds, table_key,
};

verus! {

/// The views of the logical operators in `v`, in order.
pub open spec fn logical_views(v: Seq<LogicalOperator>) -> Seq<(Seq<(usize, PauliOperator)>, OperatorType)> {
    Seq::new(v.len(), |i: int| v[i]@)
}

/// The four stabilizer generators of the seven-qubit Steane code.
pub open spec fn steane_stabilizers() -> Seq<Seq<(usize, PauliOperator)>> {
    seq![
        seq![(0usize, PauliOperator::X), (2usize, PauliOperator::X), (4usize, PauliOperator::X), (6usize, PauliOperator::X)],
        seq![(1usize, PauliOperator::X), (3usize, PauliOperator::X), (5usize, PauliOperator::X), (6usize, PauliOperator::X)],
        seq![(0usize, PauliOperator::Z), (2usize, PauliOperator::Z), (4usize, PauliOperator::Z), (6usize, PauliOperator::Z)],
        seq![(1usize, PauliOperator::Z), (3usize, PauliOperator::Z), (5usize, PauliOperator::Z), (6usize, PauliOperator::Z)],
    ]
}

/// The two logical operators of the seven-qubit Steane code.
pub open spec fn steane_logical_operators() -> Seq<(Seq<(usize, PauliOperator)>, OperatorType)> {
    seq![
        (
            seq![(0usize, PauliOperator::X), (1usize, PauliOperator::X), (2usize, PauliOperator::X), (3usize, PauliOperator::X)],
            OperatorType::X,
        ),
        (
            seq![(0usize, PauliOperator::Z), (1usize, PauliOperator::Z), (2usize, PauliOperator::Z), (3usize, PauliOperator::Z)],
            OperatorType::Z,
        ),
    ]
}

/// A stabilizer code: its distance, its stabilizer generators and logical
/// operators, and the table that maps each syndrome of a low-weight error to
/// the recovery for it. The table is built at construction and never changes.
#[derive(Debug)]
pub struct ErrorCorrectionCode {
    distance: usize,
    num_qubits: usize,
    stabilizers: Vec<Stabilizer>,
    logical_operators: Vec<LogicalOperator>,
    recovery_lookup: HashMap<u64, RecoveryOperation>,
}

impl ErrorCorrectionCode {
    /// The code distance.
    pub closed spec fn spec_distance(&self) -> nat {
        self.distance as nat
    }

    /// The number of physical qubits.
    pub closed spec fn spec_num_qubits(&self) -> nat {
        self.num_qubits as nat
    }

    /// The stabilizer generators, in declaration order.
    pub closed spec fn spec_stabilizers(&self) -> Seq<Seq<(usize, PauliOperator)>> {
        stabilizer_views(self.stabilizers@)
    }

    /// The logical operators, in declaration order.
    pub closed spec fn spec_logical_operators(&self) -> Seq<(Seq<(usize, PauliOperator)>, OperatorType)> {
        logical_views(self.logical_operators@)
    }

    /// The error patterns that the code can tell apart: every pattern on its
    /// qubits of weight below the distance, in enumeration order.
    pub open spec fn likely_errors(&self) -> Seq<Seq<Option<PauliOperator>>> {
        patterns_below(self.spec_num_qubits(), self.spec_distance())
    }

    /// The syndrome that the code assigns to an error pattern.
    pub open spec fn syndrome(&self, e: Seq<Option<PauliOperator>>) -> Seq<bool> {
        syndrome_of(self.spec_stabilizers(), e)
    }

    /// Where in `likely_errors` the first pattern with syndrome `s` stands;
    /// the length of `likely_errors` when none has it.
    pub open spec fn first_with_syndrome(&self, s: Seq<bool>) -> int {
        first_index(syndromes_of(self.spec_stabilizers(), self.likely_errors()), s)
    }

    /// What decoding gives for the syndrome `s`: the first of the likely
    /// errors that produces `s`, or `None` when none of them does.
    pub open spec fn decoded(&self, s: Seq<bool>) -> Option<Seq<Option<PauliOperator>>> {
        if self.first_with_syndrome(s) < self.likely_errors().len() {
            Some(self.likely_errors()[self.first_with_syndrome(s)])
        } else {
            None
        }
    }

    /// Validity of a code: it has at most 64 stabilizers, each of which names
    /// only qubits of the code; its distance is at least one; it assigns the
    /// all-zero syndrome to the identity pattern; and its table files exactly
    /// the first likely error for each syndrome that a likely error produces.
    pub closed spec fn wf(&self) -> bool {
        &&& self.stabilizers.len() <= 64
        &&& forall|i: int| 0 <= i < self.stabilizers.len() ==> acts_within(#[trigger] self.stabilizers[i]@, self.num_qubits as nat)
        &&& self.distance >= 1
        &&& syndrome_of(stabilizer_views(self.stabilizers@), identity_pattern(self.num_qubits as nat)) == zero_syndrome(self.stabilizers.len() as nat)
        &&& table_holds(self.recovery_lookup@, stabilizer_views(self.stabilizers@), patterns_below(self.num_qubits as nat, self.distance as nat))
    }

    #[verifier::type_invariant]
    closed spec fn inv(&self) -> bool {
        self.wf()
    }

    /// The seven-qubit Steane code of distance three: four stabilizer
    /// generators, two logical operators, and the recovery table for every
    /// error pattern of weight at most two.
    pub fn new_steane_code() -> (r: Self)
        ensures
            r.wf(),
            r.spec_distance() == 3,
            r.spec_num_qubits() == 7,
            r.spec_stabilizers() == steane_stabilizers(),
            r.spec_logical_operators() == steane_logical_operators(),
    {
        let stabilizers = vec![
            Stabilizer::new(
                vec![(0, PauliOperator::X), (2, PauliOperator::X), (4, PauliOperator::X), (6, PauliOperator::X)],
            ),
            Stabilizer::new(
                vec![(1, PauliOperator::X), (3, PauliOperator::X), (5, PauliOperator::X), (6, PauliOperator::X)],
            ),
            Stabilizer::new(
                vec![(0, PauliOperator::Z), (2, PauliOperator::Z), (4, PauliOperator::Z), (6, PauliOperator::Z)],
            ),
            Stabilizer::new(
                vec![(1, PauliOperator::Z), (3, PauliOperator::Z), (5, PauliOperator::Z), (6, PauliOperator::Z)],
            ),
        ];
        let logical_operators = vec![
            LogicalOperator::new(
                vec![(0, PauliOperator::X), (1, PauliOperator::X), (2, PauliOperator::X), (3, PauliOperator::X)],
                OperatorType::X,
            ),
            LogicalOperator::new(
                vec![(0, PauliOperator::Z), (1, PauliOperator::Z), (2, PauliOperator::Z), (3, PauliOperator::Z)],
                OperatorType::Z,
            ),
        ];
        let distance: usize = 3;
        let num_qubits: usize = 7;
        let errors = enumerate_errors(num_qubits, distance);
        let recovery_lookup = precompute_recovery_operations(&stabilizers, &errors);
        proof {
            let stabs = stabilizer_views(stabilizers@);
            assert(stabs[0] =~= steane_stabilizers()[0]);
            assert(stabs[1] =~= steane_stabilizers()[1]);
            assert(stabs[2] =~= steane_stabilizers()[2]);
            assert(stabs[3] =~= steane_stabilizers()[3]);
            assert(stabs =~= steane_stabilizers());
            assert forall|i: int| 0 <= i < stabs.len() implies stabilizer_parity(#[trigger] stabs[i], identity_pattern(7)) == false by {
                lemma_parity_of_identity(stabs[i], 7);
            }
            assert(syndrome_of(stabs, identity_pattern(7)) =~= zero_syndrome(4));
            let logicals = logical_views(logical_operators@);
            assert(logicals[0].0 =~= steane_logical_operators()[0].0);
            assert(logicals[1].0 =~= steane_logical_operators()[1].0);
            assert(logicals =~= steane_logical_operators());
        }
        Self { distance, num_qubits, stabilizers, logical_operators, recovery_lookup }
    }

    /// Whether `a` and `b` commute: two Pauli operators other than the
    /// identity commute exactly when they are equal.
    pub fn commutes(a: &PauliOperator, b: &PauliOperator) -> (r: bool)
        ensures
            r == commute(Some(*a), Some(*b)),
    {
        a.commutes_with(Some(*b))
    }

    /// The code distance.
    pub fn distance(&self) -> (r: usize)
        ensures
            r == self.spec_distance(),
    {
        self.distance
    }

    /// The number of physical qubits.
    pub fn num_qubits(&self) -> (r: usize)
        ensures
            r == self.spec_num_qubits(),
    {
        self.num_qubits
    }

    /// The stabilizer generators, in declaration order.
    pub fn get_stabilizers(&self) -> (r: &[Stabilizer])
        ensures
            stabilizer_views(r@) == self.spec_stabilizers(),
    {
        self.stabilizers.as_slice()
    }

    /// The logical operators, in declaration order.
    pub fn get_logical_operators(&self) -> (r: &[LogicalOperator])
        ensures
            logical_views(r@) == self.spec_logical_operators(),
    {
        self.logical_operators.as_slice()
    }

    /// Every error pattern on the code's qubits of weight below the distance,
    /// by ascending weight, then by positions, then by operator types.
    pub fn enumerate_likely_errors(&self) -> (r: Vec<ErrorPattern>)
        ensures
            pattern_views(r@) == self.likely_errors(),
    {
        enumerate_errors(self.num_qubits, self.distance)
    }

    /// The syndrome of `error` under the code's stabilizers.
    pub fn compute_syndrome_for_error(&self, error: &ErrorPattern) -> (r: ErrorSyndrome)
        ensures
            r@ == self.syndrome(error@),
    {
        proof {
            use_type_invariant(self);
        }
        syndrome_for(&self.stabilizers, error)
    }

    /// Decodes a syndrome by table lookup: the recovery is the first of the
    /// likely errors that produces the syndrome. A syndrome that none of
    /// them produces is refused as unknown.
    pub fn compute_recovery_operation(&self, syndrome: &ErrorSyndrome) -> (r: Result<RecoveryOperation, QuantumError>)
        ensures
            match r {
                Ok(op) => self.decoded(syndrome@) == Some(op@),
                Err(e) => e == QuantumError::UnknownSyndrome && self.decoded(syndrome@) is None,
            },
    {
        proof {
            use_type_invariant(self);
            let stabs = self.spec_stabilizers();
            let errors = self.likely_errors();
            lemma_first_index(syndromes_of(stabs, errors), syndrome@);
            if syndrome@.len() == stabs.len() {
                lemma_first_index_by_key(stabs, errors, syndrome@);
            } else {
                lemma_first_index_wrong_length(stabs, errors, syndrome@);
            }
        }
        if syndrome.len() != self.stabilizers.len() {
            return Err(QuantumError::UnknownSyndrome);
        }
        let key = table_key(syndrome);
        match self.recovery_lookup.get(&key) {
            Some(op) => Ok(op.clone()),
            None => Err(QuantumError::UnknownSyndrome),
        }
    }

    /// The decision of the correction pipeline: from the outcomes of
    /// measuring each stabilizer, in stabilizer order, to the recovery that
    /// is to be applied. Outcomes that no likely error explains are refused
    /// as an unknown syndrome.
    pub fn correction_for(&self, outcomes: &[bool]) -> (r: Result<RecoveryOperation, QuantumError>)
        ensures
            match r {
                Ok(op) => self.decoded(outcomes@) == Some(op@),
                Err(e) => e == QuantumError::UnknownSyndrome && self.decoded(outcomes@) is None,
            },
    {
        proof {
            use_type_invariant(self);
        }
        if outcomes.len() != self.stabilizers.len() {
            proof {
                lemma_first_index_wrong_length(self.spec_stabilizers(), self.likely_errors(), outcomes@);
            }
            return Err(QuantumError::UnknownSyndrome);
        }
        let syndrome = ErrorSyndrome::from_outcomes(outcomes);
        self.compute_recovery_operation(&syndrome)
    }

    /// Whether some likely error produces `syndrome`.
    pub fn is_known_syndrome(&self, syndrome: &ErrorSyndrome) -> (r: bool)
        ensures
            r == self.decoded(syndrome@) is Some,
    {
        proof {
            use_type_invariant(self);
            let stabs = self.spec_stabilizers();
            let errors = self.likely_errors();
            lemma_first_index(syndromes_of(stabs, errors), syndrome@);
            if syndrome@.len() == stabs.len() {
                lemma_first_index_by_key(stabs, errors, syndrome@);
            } else {
                lemma_first_index_wrong_length(stabs, errors, syndrome@);
            }
        }
        if syndrome.len() != self.stabilizers.len() {
            return false;
        }
        let key = table_key(syndrome);
        self.recovery_lookup.contains_key(&key)
    }
}

impl Clone for ErrorCorrectionCode {
    fn clone(&self) -> (r: Self)
        ensures
            r.wf(),
            r.spec_distance() == self.spec_distance(),
            r.spec_num_qubits() == self.spec_num_qubits(),
            r.spec_stabilizers() == self.spec_stabilizers(),
            r.spec_logical_operators() == self.spec_logical_operators(),
    {
        proof {
            use_type_invariant(self);
        }
        let mut stabilizers: Vec<Stabilizer> = Vec::new();
        let mut i: usize = 0;
        while i < self.stabilizers.len()
            invariant
                i <= self.stabilizers.len(),
                stabilizers.len() == i,
                forall|m: int| 0 <= m < i ==> (#[trigger] stabilizers@[m])@ == self.stabilizers@[m]@,
            decreases self.stabilizers.len() - i,
        {
            stabilizers.push(self.stabilizers[i].clone());
            i += 1;
        }
        let mut logical_operators: Vec<LogicalOperator> = Vec::new();
        let mut j: usize = 0;
        while j < self.logical_operators.len()
            invariant
                j <= self.logical_operators.len(),
                logical_operators.len() == j,
                forall|m: int| 0 <= m < j ==> (#[trigger] logical_operators@[m])@ == self.logical_operators@[m]@,
            decreases self.logical_operators.len() - j,
        {
            logical_operators.push(self.logical_operators[j].clone());
            j += 1;
        }
        let recovery_lookup = self.recovery_lookup.clone();
        proof {
            assert(stabilizer_views(stabilizers@) =~= stabilizer_views(self.stabilizers@));
            assert(logical_views(logical_operators@) =~= logical_views(self.logical_operators@));
        }
        Self { distance: self.distance, num_qubits: self.num_qubits, stabilizers, logical_operators, recovery_lookup }
    }
}

/// Decoding the all-zero syndrome gives the identity recovery.
pub proof fn law_zero_syndrome_decodes_to_identity(code: ErrorCorrectionCode)
    requires
        code.wf(),
    ensures
        code.decoded(zero_syndrome(code.spec_stabilizers().len())) == Some(
            identity_pattern(code.spec_num_qubits()),
        ),
{
    let errors = code.likely_errors();
    let syndromes = syndromes_of(code.spec_stabilizers(), errors);
    lemma_identity_comes_first(code.spec_num_qubits(), code.spec_distance());
    assert(syndromes[0] == zero_syndrome(code.spec_stabilizers().len()));
    lemma_first_index_at_most(syndromes, 0);
}

/// Round trip: the syndrome of each likely error decodes to a recovery, and
/// the error followed by that recovery has the all-zero syndrome.
pub proof fn law_recovery_cancels_error(code: ErrorCorrectionCode, i: int)
    requires
        code.wf(),
        0 <= i < code.likely_errors().len(),
    ensures
        code.decoded(code.syndrome(code.likely_errors()[i])) is Some,
        code.syndrome(
            compose(code.decoded(code.syndrome(code.likely_errors()[i])).unwrap(), code.likely_errors()[i]),
        ) == zero_syndrome(code.spec_stabilizers().len()),
{
    let stabs = code.spec_stabilizers();
    let errors = code.likely_errors();
    let e = errors[i];
    let syndromes = syndromes_of(stabs, errors);
    assert(syndromes[i] == code.syndrome(e));
    lemma_first_index_at_most(syndromes, i);
    let f = first_index(syndromes, code.syndrome(e));
    let r = errors[f];
    assert(syndromes[f] == code.syndrome(r));
    let n = code.spec_num_qubits();
    let zero = zero_syndrome(stabs.len());
    assert forall|k: int| 0 <= k < stabs.len() implies #[trigger] code.syndrome(compose(r, e))[k] == false by {
        lemma_parity_of_composition(stabs[k], r, e, n);
        assert(code.syndrome(r)[k] == stabilizer_parity(stabs[k], r));
        assert(code.syndrome(e)[k] == stabilizer_parity(stabs[k], e));
        assert(syndrome_of(stabs, identity_pattern(n))[k] == stabilizer_parity(stabs[k], identity_pattern(n)));
        assert(zero[k] == false);
    }
    assert(code.syndrome(compose(r, e)) =~= zero);
}

/// Every error pattern on the qubits of the code whose weight is below the
/// distance is among the likely errors, so its syndrome decodes, and the
/// error followed by the recovery has the all-zero syndrome.
pub proof fn law_low_weight_errors_are_corrected(code: ErrorCorrectionCode, e: Seq<Option<PauliOperator>>)
    requires
        code.wf(),
        e.len() == code.spec_num_qubits(),
        weight(e) < code.spec_distance(),
    ensures
        code.likely_errors().contains(e),
        code.decoded(code.syndrome(e)) is Some,
        code.syndrome(compose(code.decoded(code.syndrome(e)).unwrap(), e)) == zero_syndrome(
            code.spec_stabilizers().len(),
        ),
{
    let i = lemma_patterns_below_complete(code.spec_num_qubits(), code.spec_distance(), e);
    law_recovery_cancels_error(code, i);
}

/// Minimum-weight decoding: no error pattern on the qubits of the code
/// that produces a syndrome and whose weight is below the distance weighs
/// less than the recovery that the syndrome decodes to.
pub proof fn law_recovery_has_least_weight(code: ErrorCorrectionCode, s: Seq<bool>, e: Seq<Option<PauliOperator>>)
    requires
        code.wf(),
        e.len() == code.spec_num_qubits(),
        weight(e) < code.spec_distance(),
        code.syndrome(e) == s,
    ensures
        code.decoded(s) is Some,
        weight(code.decoded(s).unwrap()) <= weight(e),
{
    let n = code.spec_num_qubits();
    let d = code.spec_distance();
    let errors = code.likely_errors();
    let syndromes = syndromes_of(code.spec_stabilizers(), errors);
    let i = lemma_patterns_below_complete(n, d, e);
    assert(syndromes[i] == s);
    lemma_first_index_at_most(syndromes, i);
    lemma_patterns_below_sorted(n, d, first_index(syndromes, s), i);
}

} // verus!
