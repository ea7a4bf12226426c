//! The Pauli errors that the noise channel applies, as a function of the
//! random draws of its processes.

use vstd::prelude::*;
use crate::pattern::entries;
use crate::pauli::PauliOperator;

verus! {

/// The error that the pairwise process applies to both qubits of a pair.
#[derive(Clone, Copy, Debug, PartialEq, Eq, Structural)]
pub enum PairError {
    XX,
    ZZ,
}

/// The operator that a pair error applies to each of its two qubits.
pub open spec fn pair_operator(e: PairError) -> PauliOperator {
    match e {
        PairError::XX => PauliOperator::X,
        PairError::ZZ => PauliOperator::Z,
    }
}

/// The pattern of the decoherence process: a phase flip on each qubit whose
/// draw was a hit.
pub open spec fn decoherence_pattern(hits: Seq<bool>) -> Seq<Option<PauliOperator>> {
    Seq::new(
        hits.len(),
        |q: int|
            if hits[q] {
                Some(PauliOperator::Z)
            } else {
                None
            },
    )
}

/// The errors of the decoherence process by ascending qubit: a phase flip on
/// each qubit `q` for which `hits[q]` holds.
pub fn decoherence_errors(hits: &[bool]) -> (r: Vec<(usize, PauliOperator)>)
    ensures
        r@ == entries(decoherence_pattern(hits@)),
{
    let ghost whole = decoherence_pattern(hits@);
    let mut out: Vec<(usize, PauliOperator)> = Vec::new();
    let mut i: usize = 0;
    while i < hits.len()
        invariant
            i <= hits.len(),
            whole == decoherence_pattern(hits@),
            out@ == entries(whole.take(i as int)),
        decreases hits.len() - i,
    {
        proof {
            let next = whole.take(i + 1);
            assert(next.drop_last() =~= whole.take(i as int));
            assert(next.last() == whole[i as int]);
        }
        if hits[i] {
            out.push((i, PauliOperator::Z));
        }
        i += 1;
    }
    proof {
        assert(whole.take(i as int) =~= whole);
    }
    out
}

/// The errors of the depolarizing process by ascending qubit: on each qubit
/// `q` the operator `choices[q]`, where there is one.
pub fn depolarizing_errors(choices: &[Option<PauliOperator>]) -> (r: Vec<(usize, PauliOperator)>)
    ensures
        r@ == entries(choices@),
{
    let mut out: Vec<(usize, PauliOperator)> = Vec::new();
    let mut i: usize = 0;
    while i < choices.len()
        invariant
            i <= choices.len(),
            out@ == entries(choices@.take(i as int)),
        decreases choices.len() - i,
    {
        proof {
            let next = choices@.take(i + 1);
            assert(next.drop_last() =~= choices@.take(i as int));
            assert(next.last() == choices@[i as int]);
        }
        match choices[i] {
            Some(p) => {
                out.push((i, p));
            },
            None => {},
        }
        i += 1;
    }
    proof {
        assert(choices@.take(i as int) =~= choices@);
    }
    out
}

/// The pairs of qubit `i` with each higher qubit below `n`, by ascending
/// partner.
pub open spec fn pairs_with(i: nat, n: nat) -> Seq<(usize, usize)> {
    Seq::new((n - 1 - i) as nat, |t: int| (i as usize, (i + 1 + t) as usize))
}

/// The pairs of distinct qubits below `n` whose lower qubit is below `rows`:
/// by lower qubit, then by higher qubit.
pub open spec fn pairs_below(rows: nat, n: nat) -> Seq<(usize, usize)>
    decreases rows,
{
    if rows == 0 {
        Seq::empty()
    } else {
        pairs_below((rows - 1) as nat, n) + pairs_with((rows - 1) as nat, n)
    }
}

/// Every unordered pair of distinct qubits below `n`, by lower qubit, then
/// by higher qubit.
pub open spec fn qubit_pairs(n: nat) -> Seq<(usize, usize)> {
    pairs_below(n, n)
}

/// The draw with index `k`; past the end of `draws` there is no error.
pub open spec fn draw_at(draws: Seq<Option<PairError>>, k: int) -> Option<PairError> {
    if 0 <= k < draws.len() {
        draws[k]
    } else {
        None
    }
}

/// What the pairwise process applies to one pair: the drawn operator on the
/// lower qubit and then on the higher one, or nothing.
pub open spec fn pair_step(pair: (usize, usize), draw: Option<PairError>) -> Seq<(usize, PauliOperator)> {
    match draw {
        Some(e) => seq![(pair.0, pair_operator(e)), (pair.1, pair_operator(e))],
        None => Seq::empty(),
    }
}

/// What the pairwise process applies to `pairs` in order, the pair with
/// index `k` taking the draw with index `k`.
pub open spec fn pair_errors(pairs: Seq<(usize, usize)>, draws: Seq<Option<PairError>>) -> Seq<(usize, PauliOperator)>
    decreases pairs.len(),
{
    if pairs.len() == 0 {
        Seq::empty()
    } else {
        pair_errors(pairs.drop_last(), draws) + pair_step(pairs.last(), draw_at(draws, pairs.len() - 1))
    }
}

/// The errors of the pairwise correlated process, in the order in which it
/// applies them. The pairs of distinct qubits are visited by lower qubit and
/// then by higher qubit; the pair with index `k` in that order takes
/// `draws[k]`, and a pair past the end of `draws` gets no error.
pub fn correlated_errors(num_qubits: usize, draws: &[Option<PairError>]) -> (r: Vec<(usize, PauliOperator)>)
    ensures
        r@ == pair_errors(qubit_pairs(num_qubits as nat), draws@),
{
    let ghost n = num_qubits as nat;
    let mut out: Vec<(usize, PauliOperator)> = Vec::new();
    let mut k: usize = 0;
    let ghost mut visited: Seq<(usize, usize)> = Seq::empty();
    let mut i: usize = 0;
    while i < num_qubits
        invariant
            i <= num_qubits,
            n == num_qubits,
            visited == pairs_below(i as nat, n),
            out@ == pair_errors(visited, draws@),
            k <= draws.len(),
            k == visited.len() || (k == draws.len() && visited.len() > draws.len()),
        decreases num_qubits - i,
    {
        let ghost row = pairs_with(i as nat, n);
        let ghost base = visited;
        assert(visited =~= base + row.take(0));
        let mut j: usize = i + 1;
        while j < num_qubits
            invariant
                i < j <= num_qubits,
                n == num_qubits,
                row == pairs_with(i as nat, n),
                base == pairs_below(i as nat, n),
                visited == base + row.take(j - i - 1),
                out@ == pair_errors(visited, draws@),
                k <= draws.len(),
                k == visited.len() || (k == draws.len() && visited.len() > draws.len()),
            decreases num_qubits - j,
        {
            let ghost before = visited;
            proof {
                visited = visited.push((i, j));
                assert(row[j - i - 1] == (i, j));
                assert(visited =~= base + row.take(j - i));
                assert(visited.drop_last() =~= before);
                assert(visited.last() == (i, j));
            }
            if k < draws.len() {
                match draws[k] {
                    Some(e) => {
                        let p = match e {
                            PairError::XX => PauliOperator::X,
                            PairError::ZZ => PauliOperator::Z,
                        };
                        out.push((i, p));
                        out.push((j, p));
                        assert(out@ =~= pair_errors(before, draws@) + pair_step((i, j), draw_at(draws@, before.len() as int)));
                    },
                    None => {
                        assert(out@ =~= pair_errors(before, draws@) + pair_step((i, j), draw_at(draws@, before.len() as int)));
                    },
                }
                k += 1;
            } else {
                assert(out@ =~= pair_errors(before, draws@) + pair_step((i, j), draw_at(draws@, before.len() as int)));
            }
            j += 1;
        }
        proof {
            assert(row.take(j - i - 1) =~= row);
        }
        i += 1;
    }
    out
}

} // verus!
