//! Enumeration of the low-weight error patterns of a register, in the order
//! that decides which pattern becomes the recovery for a syndrome: by
//! ascending weight, then by positions, then by operator types.

use vstd::prelude::*;
use crate::pattern::{identity_pattern, pattern_views, ErrorPattern};
use crate::pauli::PauliOperator;

verus! {

/// The `k`-element subsets of `lo..n`, each written as an ascending sequence,
/// in lexicographic order.
pub open spec fn combinations_from(lo: nat, n: nat, k: nat) -> Seq<Seq<usize>>
    decreases n - lo,
{
    if k == 0 {
        seq![Seq::empty()]
    } else if lo >= n {
        Seq::empty()
    } else {
        combinations_from(lo + 1, n, (k - 1) as nat).map_values(|c: Seq<usize>| seq![lo as usize] + c)
            + combinations_from(lo + 1, n, k)
    }
}

/// The `k`-element subsets of `0..n`, each written as an ascending sequence,
/// in lexicographic order.
pub open spec fn combinations(n: nat, k: nat) -> Seq<Seq<usize>> {
    combinations_from(0, n, k)
}

/// The views of the vectors in `v`, in order.
pub open spec fn views_of<T>(v: Seq<Vec<T>>) -> Seq<Seq<T>> {
    Seq::new(v.len(), |i: int| v[i]@)
}

/// `Itertools::combinations` on the range `0..n`, collected: every way to
/// pick `k` of the indices below `n`, each as an ascending vector, in
/// lexicographic order. For `k == 0` that is one empty vector, and for
/// `k > n` there is none.
#[verifier::external_body]
fn index_combinations(n: usize, k: usize) -> (r: Vec<Vec<usize>>)
    ensures
        views_of(r@) == combinations(n as nat, k as nat),
{
    itertools::Itertools::combinations(0..n, k).collect()
}

/// Whether `c` is strictly ascending with every element in `lo..n`.
pub open spec fn ascending_within(c: Seq<usize>, lo: nat, n: nat) -> bool {
    &&& forall|i: int| 0 <= i < c.len() ==> lo <= #[trigger] c[i] < n
    &&& forall|i: int, j: int| 0 <= i < j < c.len() ==> c[i] < c[j]
}

/// Every member of `combinations_from(lo, n, k)` has `k` elements, which
/// ascend strictly and lie in `lo..n`.
pub proof fn lemma_combinations_shape(lo: nat, n: nat, k: nat, i: int)
    requires
        n <= usize::MAX,
        0 <= i < combinations_from(lo, n, k).len(),
    ensures
        combinations_from(lo, n, k)[i].len() == k,
        ascending_within(combinations_from(lo, n, k)[i], lo, n),
    decreases n - lo,
{
    if k == 0 {
    } else if lo >= n {
    } else {
        let with = combinations_from(lo + 1, n, (k - 1) as nat);
        let without = combinations_from(lo + 1, n, k);
        let head = with.map_values(|c: Seq<usize>| seq![lo as usize] + c);
        assert(combinations_from(lo, n, k) == head + without);
        if i < head.len() {
            lemma_combinations_shape(lo + 1, n, (k - 1) as nat, i);
            let c = with[i];
            let full = seq![lo as usize] + c;
            assert(head[i] == full);
            assert forall|a: int| 0 <= a < full.len() implies lo <= #[trigger] full[a] < n by {
                if a > 0 {
                    assert(full[a] == c[a - 1]);
                }
            }
            assert forall|a: int, b: int| 0 <= a < b < full.len() implies full[a] < full[b] by {
                assert(full[b] == c[b - 1]);
                if a > 0 {
                    assert(full[a] == c[a - 1]);
                }
            }
        } else {
            lemma_combinations_shape(lo + 1, n, k, i - head.len());
        }
    }
}

/// The operator with index `i` in the order X, Y, Z; every index above one
/// gives Z.
pub open spec fn pauli_of(i: int) -> PauliOperator {
    if i == 0 {
        PauliOperator::X
    } else if i == 1 {
        PauliOperator::Y
    } else {
        PauliOperator::Z
    }
}

/// The operator with index `i` in the order X, Y, Z.
pub fn pauli_from_index(i: usize) -> (r: PauliOperator)
    ensures
        r == pauli_of(i as int),
{
    if i == 0 {
        PauliOperator::X
    } else if i == 1 {
        PauliOperator::Y
    } else {
        PauliOperator::Z
    }
}

/// Every sequence of `k` operators, in lexicographic order with X before Y
/// before Z.
pub open spec fn assignments(k: nat) -> Seq<Seq<PauliOperator>>
    decreases k,
{
    if k == 0 {
        seq![Seq::empty()]
    } else {
        let shorter = assignments((k - 1) as nat);
        Seq::new(3 * shorter.len(), |i: int| shorter[i / 3].push(pauli_of(i % 3)))
    }
}

/// Every sequence of `k` operators, in lexicographic order with X before Y
/// before Z.
pub fn type_assignments(k: usize) -> (r: Vec<Vec<PauliOperator>>)
    ensures
        views_of(r@) == assignments(k as nat),
{
    let mut current: Vec<Vec<PauliOperator>> = Vec::new();
    current.push(Vec::new());
    assert(views_of(current@) =~= assignments(0));
    let mut round: usize = 0;
    while round < k
        invariant
            round <= k,
            views_of(current@) == assignments(round as nat),
        decreases k - round,
    {
        let ghost shorter = assignments(round as nat);
        let ghost longer = assignments((round + 1) as nat);
        let mut next: Vec<Vec<PauliOperator>> = Vec::new();
        let mut j: usize = 0;
        while j < current.len()
            invariant
                j <= current.len(),
                views_of(current@) == shorter,
                shorter == assignments(round as nat),
                longer == assignments((round + 1) as nat),
                longer.len() == 3 * shorter.len(),
                current.len() == shorter.len(),
                next.len() == 3 * j,
                views_of(next@) == longer.take(3 * j),
            decreases current.len() - j,
        {
            let mut t: usize = 0;
            while t < 3
                invariant
                    t <= 3,
                    j < current.len(),
                    views_of(current@) == shorter,
                    longer == assignments((round + 1) as nat),
                    shorter == assignments(round as nat),
                    longer.len() == 3 * shorter.len(),
                    current.len() == shorter.len(),
                    next.len() == 3 * j + t,
                    views_of(next@) == longer.take(3 * j + t),
                decreases 3 - t,
            {
                let mut a = copy_types(&current[j]);
                a.push(pauli_from_index(t));
                proof {
                    let i = 3 * j + t;
                    assert(views_of(current@)[j as int] == current@[j as int]@);
                    assert(i / 3 == j && i % 3 == t);
                    assert(longer[i] == shorter[i / 3].push(pauli_of(i % 3)));
                }
                let ghost before = next@;
                next.push(a);
                proof {
                    let i = 3 * j + t;
                    assert forall|m: int| 0 <= m < i + 1 implies views_of(next@)[m] == longer[m] by {
                        if m < i {
                            assert(views_of(before)[m] == before[m]@);
                            assert(longer.take(i)[m] == longer[m]);
                        } else {
                            assert(shorter[j as int] == current@[j as int]@);
                        }
                    }
                    assert(views_of(next@) =~= longer.take(i + 1));
                }
                t += 1;
            }
            j += 1;
        }
        assert(longer.take(3 * j) =~= longer);
        current = next;
        round += 1;
    }
    current
}

/// A copy of `source`, entry by entry.
pub fn copy_types(source: &Vec<PauliOperator>) -> (r: Vec<PauliOperator>)
    ensures
        r@ == source@,
{
    let mut out: Vec<PauliOperator> = Vec::new();
    let mut i: usize = 0;
    while i < source.len()
        invariant
            i <= source.len(),
            out@ == source@.take(i as int),
        decreases source.len() - i,
    {
        out.push(source[i]);
        i += 1;
    }
    out
}

/// The pattern on `n` qubits that results from the identity when
/// `types[i]` is placed at qubit `positions[i]`, for each `i` below `count`
/// in turn. A position that is not below `n` places nothing.
pub open spec fn pattern_prefix(n: nat, positions: Seq<usize>, types: Seq<PauliOperator>, count: nat) -> Seq<Option<PauliOperator>>
    decreases count,
{
    if count == 0 {
        identity_pattern(n)
    } else {
        let before = pattern_prefix(n, positions, types, (count - 1) as nat);
        let q = positions[count - 1];
        if q < n {
            before.update(q as int, Some(types[count - 1]))
        } else {
            before
        }
    }
}

/// The pattern on `n` qubits that carries `types[i]` at qubit `positions[i]`,
/// for as many `i` as both sequences have.
pub open spec fn pattern_of(n: nat, positions: Seq<usize>, types: Seq<PauliOperator>) -> Seq<Option<PauliOperator>> {
    pattern_prefix(
        n,
        positions,
        types,
        if positions.len() <= types.len() {
            positions.len()
        } else {
            types.len()
        },
    )
}

/// The pattern on `num_qubits` qubits that carries `types[i]` at qubit
/// `positions[i]`.
pub fn pattern_from(num_qubits: usize, positions: &Vec<usize>, types: &Vec<PauliOperator>) -> (r: ErrorPattern)
    ensures
        r@ == pattern_of(num_qubits as nat, positions@, types@),
{
    let count: usize = if positions.len() <= types.len() {
        positions.len()
    } else {
        types.len()
    };
    let mut error = ErrorPattern::new(num_qubits);
    let mut i: usize = 0;
    while i < count
        invariant
            i <= count,
            count <= positions.len(),
            count <= types.len(),
            error@ == pattern_prefix(num_qubits as nat, positions@, types@, i as nat),
            error@.len() == num_qubits,
        decreases count - i,
    {
        error.add_pauli(positions[i], types[i]);
        i += 1;
    }
    error
}

/// The patterns on `n` qubits with the given positions, one for each
/// assignment in `ts`, in the order of `ts`.
pub open spec fn patterns_at(n: nat, positions: Seq<usize>, ts: Seq<Seq<PauliOperator>>) -> Seq<Seq<Option<PauliOperator>>> {
    Seq::new(ts.len(), |j: int| pattern_of(n, positions, ts[j]))
}

/// The patterns on `n` qubits for each choice of positions in `cs`, in the
/// order of `cs`, and for each of them every assignment in `ts`.
pub open spec fn patterns_over(n: nat, cs: Seq<Seq<usize>>, ts: Seq<Seq<PauliOperator>>) -> Seq<Seq<Option<PauliOperator>>>
    decreases cs.len(),
{
    if cs.len() == 0 {
        Seq::empty()
    } else {
        patterns_over(n, cs.drop_last(), ts) + patterns_at(n, cs.last(), ts)
    }
}

/// Every pattern on `n` qubits that applies an operator on exactly `k` of
/// them: by positions in lexicographic order, then by operator types in
/// lexicographic order.
pub open spec fn patterns_of_weight(n: nat, k: nat) -> Seq<Seq<Option<PauliOperator>>> {
    patterns_over(n, combinations(n, k), assignments(k))
}

/// Every pattern on `n` qubits of weight below `bound`, by ascending weight,
/// and within one weight as `patterns_of_weight` orders them.
pub open spec fn patterns_below(n: nat, bound: nat) -> Seq<Seq<Option<PauliOperator>>>
    decreases bound,
{
    if bound == 0 {
        Seq::empty()
    } else {
        patterns_below(n, (bound - 1) as nat) + patterns_of_weight(n, (bound - 1) as nat)
    }
}

/// Every error pattern on `num_qubits` qubits of weight below `bound`, by
/// ascending weight, then by positions, then by operator types.
pub fn enumerate_errors(num_qubits: usize, bound: usize) -> (r: Vec<ErrorPattern>)
    ensures
        pattern_views(r@) == patterns_below(num_qubits as nat, bound as nat),
{
    let ghost n = num_qubits as nat;
    let mut errors: Vec<ErrorPattern> = Vec::new();
    assert(pattern_views(errors@) =~= patterns_below(n, 0));
    let mut k: usize = 0;
    while k < bound
        invariant
            k <= bound,
            n == num_qubits,
            pattern_views(errors@) == patterns_below(n, k as nat),
        decreases bound - k,
    {
        let positions = index_combinations(num_qubits, k);
        let types = type_assignments(k);
        let ghost cs = combinations(n, k as nat);
        let ghost ts = assignments(k as nat);
        let ghost done = patterns_below(n, k as nat);
        assert(cs.take(0) =~= Seq::<Seq<usize>>::empty());
        assert(pattern_views(errors@) =~= done + patterns_over(n, cs.take(0), ts));
        let mut ci: usize = 0;
        while ci < positions.len()
            invariant
                ci <= positions.len(),
                n == num_qubits,
                views_of(positions@) == cs,
                views_of(types@) == ts,
                positions.len() == cs.len(),
                types.len() == ts.len(),
                pattern_views(errors@) == done + patterns_over(n, cs.take(ci as int), ts),
            decreases positions.len() - ci,
        {
            let ghost row = patterns_at(n, cs[ci as int], ts);
            let ghost base = done + patterns_over(n, cs.take(ci as int), ts);
            assert(pattern_views(errors@) =~= base + row.take(0));
            let mut ti: usize = 0;
            while ti < types.len()
                invariant
                    ti <= types.len(),
                    ci < positions.len(),
                    n == num_qubits,
                    views_of(positions@) == cs,
                    views_of(types@) == ts,
                    positions.len() == cs.len(),
                    types.len() == ts.len(),
                    row == patterns_at(n, cs[ci as int], ts),
                    pattern_views(errors@) == base + row.take(ti as int),
                decreases types.len() - ti,
            {
                let e = pattern_from(num_qubits, &positions[ci], &types[ti]);
                proof {
                    assert(views_of(positions@)[ci as int] == positions@[ci as int]@);
                    assert(views_of(types@)[ti as int] == types@[ti as int]@);
                    assert(e@ == row[ti as int]);
                }
                let ghost before = errors@;
                errors.push(e);
                proof {
                    let target = base + row.take(ti + 1);
                    assert(pattern_views(before).len() == before.len());
                    assert forall|m: int| 0 <= m < target.len() implies pattern_views(errors@)[m] == target[m] by {
                        if m < before.len() {
                            assert(pattern_views(before)[m] == before[m]@);
                            assert((base + row.take(ti as int))[m] == target[m]);
                        }
                    }
                    assert(pattern_views(errors@) =~= target);
                }
                ti += 1;
            }
            proof {
                assert(row.take(ti as int) =~= row);
                let next = cs.take(ci + 1);
                assert(next.drop_last() =~= cs.take(ci as int));
                assert(next.last() == cs[ci as int]);
                assert(patterns_over(n, next, ts) == patterns_over(n, cs.take(ci as int), ts) + row);
                assert(base + row =~= done + patterns_over(n, next, ts));
            }
            ci += 1;
        }
        proof {
            assert(cs.take(ci as int) =~= cs);
        }
        k += 1;
    }
    errors
}

} // verus!
