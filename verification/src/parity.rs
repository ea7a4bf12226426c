//! Syndromes of error patterns: the parity of a pattern under each
//! stabilizer.

use vstd::prelude::*;
use crate::pattern::{compose, identity_pattern, pauli_at, ErrorPattern};
use crate::pauli::{commute, lemma_commute_product, product, PauliOperator};
use crate::stabilizer::Stabilizer;
use crate::syndrome::{ErrorSyndrome, MAX_SYNDROME_BITS};

verus! {

/// The syndrome bit of one stabilizer for an error pattern: the exclusive or,
/// over the stabilizer's `(qubit, operator)` pairs, of whether the operator
/// commutes with what the pattern applies at that qubit. A qubit without an
/// entry in the pattern carries the identity, which commutes with everything.
pub open spec fn stabilizer_parity(ops: Seq<(usize, PauliOperator)>, e: Seq<Option<PauliOperator>>) -> bool
    decreases ops.len(),
{
    if ops.len() == 0 {
        false
    } else {
        stabilizer_parity(ops.drop_last(), e) ^ commute(Some(ops.last().1), pauli_at(e, ops.last().0 as int))
    }
}

/// The syndrome of an error pattern: one bit per stabilizer, in the order of
/// the stabilizers.
pub open spec fn syndrome_of(stabilizers: Seq<Seq<(usize, PauliOperator)>>, e: Seq<Option<PauliOperator>>) -> Seq<bool> {
    Seq::new(stabilizers.len(), |i: int| stabilizer_parity(stabilizers[i], e))
}

/// The views of the stabilizers in `v`, in order.
pub open spec fn stabilizer_views(v: Seq<Stabilizer>) -> Seq<Seq<(usize, PauliOperator)>> {
    Seq::new(v.len(), |i: int| v[i]@)
}

/// The syndromes of the patterns in `errors`, in order.
pub open spec fn syndromes_of(stabilizers: Seq<Seq<(usize, PauliOperator)>>, errors: Seq<Seq<Option<PauliOperator>>>) -> Seq<Seq<bool>> {
    Seq::new(errors.len(), |j: int| syndrome_of(stabilizers, errors[j]))
}

/// The syndrome bit of `stabilizer` for `error`.
pub fn parity_for(stabilizer: &Stabilizer, error: &ErrorPattern) -> (r: bool)
    ensures
        r == stabilizer_parity(stabilizer@, error@),
{
    let ops = stabilizer.iter();
    let mut parity = false;
    let mut k: usize = 0;
    while k < ops.len()
        invariant
            k <= ops.len(),
            ops@ == stabilizer@,
            parity == stabilizer_parity(ops@.take(k as int), error@),
        decreases ops.len() - k,
    {
        proof {
            let next = ops@.take(k + 1);
            assert(next.drop_last() =~= ops@.take(k as int));
            assert(next.last() == ops@[k as int]);
        }
        let (qubit, pauli) = ops[k];
        let c = pauli.commutes_with(error.get_pauli(qubit));
        parity = parity ^ c;
        k += 1;
    }
    proof {
        assert(ops@.take(k as int) =~= ops@);
    }
    parity
}

/// The syndrome of `error` under `stabilizers`.
pub fn syndrome_for(stabilizers: &Vec<Stabilizer>, error: &ErrorPattern) -> (r: ErrorSyndrome)
    requires
        stabilizers.len() <= MAX_SYNDROME_BITS,
    ensures
        r@ == syndrome_of(stabilizer_views(stabilizers@), error@),
{
    let mut syndrome = ErrorSyndrome::new(stabilizers.len());
    let ghost target = syndrome_of(stabilizer_views(stabilizers@), error@);
    let mut i: usize = 0;
    while i < stabilizers.len()
        invariant
            i <= stabilizers.len(),
            target == syndrome_of(stabilizer_views(stabilizers@), error@),
            syndrome@.len() == stabilizers.len(),
            forall|m: int| 0 <= m < i ==> syndrome@[m] == target[m],
        decreases stabilizers.len() - i,
    {
        let bit = parity_for(&stabilizers[i], error);
        syndrome.set_bit(i, bit);
        i += 1;
    }
    proof {
        assert(syndrome@ =~= target);
    }
    syndrome
}

/// The syndrome of `n` bits that are all `false`.
pub open spec fn zero_syndrome(n: nat) -> Seq<bool> {
    Seq::new(n, |i: int| false)
}

/// Under a stabilizer the identity pattern has odd parity exactly when the
/// stabilizer has an odd number of entries.
pub proof fn lemma_parity_of_identity(ops: Seq<(usize, PauliOperator)>, n: nat)
    ensures
        stabilizer_parity(ops, identity_pattern(n)) == (ops.len() % 2 == 1),
    decreases ops.len(),
{
    if ops.len() > 0 {
        lemma_parity_of_identity(ops.drop_last(), n);
    }
}

/// The parity of a composed pattern under a stabilizer is the exclusive or of
/// the parities of its two factors and of the identity pattern.
pub proof fn lemma_parity_of_composition(
    ops: Seq<(usize, PauliOperator)>,
    a: Seq<Option<PauliOperator>>,
    b: Seq<Option<PauliOperator>>,
    n: nat,
)
    ensures
        stabilizer_parity(ops, compose(a, b)) == (stabilizer_parity(ops, a) ^ stabilizer_parity(ops, b)
            ^ stabilizer_parity(ops, identity_pattern(n))),
    decreases ops.len(),
{
    if ops.len() > 0 {
        lemma_parity_of_composition(ops.drop_last(), a, b, n);
        let p = ops.last().1;
        let q = ops.last().0 as int;
        lemma_commute_product(p, pauli_at(a, q), pauli_at(b, q));
        assert(pauli_at(compose(a, b), q) == product(pauli_at(a, q), pauli_at(b, q)));
    }
}

} // verus!
