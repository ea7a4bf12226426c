//! What the enumeration of error patterns covers: the weight of each
//! enumerated pattern, their order by weight, and that no pattern of low
//! weight is missing.

use vstd::prelude::*;
use crate::enumerate::{
    ascending_within, assignments, combinations, combinations_from, lemma_combinations_shape, pattern_of,
    pattern_prefix, patterns_at, patterns_below, patterns_of_weight, patterns_over, pauli_of,
};
use crate::pattern::{entries, identity_pattern, weight};
use crate::pauli::PauliOperator;

verus! {

/// The identity pattern has weight zero.
pub proof fn lemma_weight_of_identity(n: nat)
    ensures
        weight(identity_pattern(n)) == 0,
    decreases n,
{
    if n > 0 {
        assert(identity_pattern(n).drop_last() =~= identity_pattern((n - 1) as nat));
        lemma_weight_of_identity((n - 1) as nat);
    }
}

/// Placing an operator on a qubit that carried the identity raises the
/// weight by one.
pub proof fn lemma_weight_after_placing(e: Seq<Option<PauliOperator>>, q: int, p: PauliOperator)
    requires
        0 <= q < e.len(),
        e[q] is None,
    ensures
        weight(e.update(q, Some(p))) == weight(e) + 1,
    decreases e.len(),
{
    let placed = e.update(q, Some(p));
    if q == e.len() - 1 {
        assert(placed.drop_last() =~= e.drop_last());
    } else {
        assert(placed.drop_last() =~= e.drop_last().update(q, Some(p)));
        lemma_weight_after_placing(e.drop_last(), q, p);
    }
}

/// After `count` operators have been placed at ascending positions, the
/// pattern carries `types[i]` at `positions[i]` for each `i` below `count`,
/// the identity on every qubit from the last placed position on, and has
/// weight `count`.
pub proof fn lemma_pattern_prefix(n: nat, positions: Seq<usize>, types: Seq<PauliOperator>, count: nat)
    requires
        ascending_within(positions, 0, n),
        count <= positions.len(),
        count <= types.len(),
    ensures
        pattern_prefix(n, positions, types, count).len() == n,
        weight(pattern_prefix(n, positions, types, count)) == count,
        forall|i: int| 0 <= i < count ==> pattern_prefix(n, positions, types, count)[#[trigger] positions[i] as int] == Some(types[i]),
        forall|q: int|
            0 <= q < n && (forall|i: int| 0 <= i < count ==> #[trigger] positions[i] != q) ==> (#[trigger] pattern_prefix(
                n,
                positions,
                types,
                count,
            )[q]) is None,
    decreases count,
{
    if count == 0 {
        lemma_weight_of_identity(n);
    } else {
        let before = pattern_prefix(n, positions, types, (count - 1) as nat);
        lemma_pattern_prefix(n, positions, types, (count - 1) as nat);
        let q = positions[count - 1] as int;
        assert(forall|i: int| 0 <= i < count - 1 ==> #[trigger] positions[i] != q);
        assert(before[q] is None);
        lemma_weight_after_placing(before, q, types[count - 1]);
        let after = pattern_prefix(n, positions, types, count);
        assert(after == before.update(q, Some(types[count - 1])));
        assert forall|i: int| 0 <= i < count implies after[#[trigger] positions[i] as int] == Some(types[i]) by {
            if i < count - 1 {
                assert(positions[i] != q);
            }
        }
    }
}

/// Every sequence in `assignments(k)` has `k` operators.
pub proof fn lemma_assignments_shape(k: nat, i: int)
    requires
        0 <= i < assignments(k).len(),
    ensures
        assignments(k)[i].len() == k,
    decreases k,
{
    if k > 0 {
        lemma_assignments_shape((k - 1) as nat, i / 3);
    }
}

/// Every member of `patterns_over(n, cs, ts)` is the pattern of some member
/// of `cs` with some member of `ts`.
pub proof fn lemma_patterns_over_member(n: nat, cs: Seq<Seq<usize>>, ts: Seq<Seq<PauliOperator>>, i: int) -> (r: (int, int))
    requires
        0 <= i < patterns_over(n, cs, ts).len(),
    ensures
        0 <= r.0 < cs.len(),
        0 <= r.1 < ts.len(),
        patterns_over(n, cs, ts)[i] == pattern_of(n, cs[r.0], ts[r.1]),
    decreases cs.len(),
{
    let before = patterns_over(n, cs.drop_last(), ts);
    if i < before.len() {
        let r = lemma_patterns_over_member(n, cs.drop_last(), ts, i);
        r
    } else {
        (cs.len() - 1, i - before.len())
    }
}

/// Every member of `patterns_of_weight(n, k)` covers `n` qubits and has
/// weight `k`.
pub proof fn lemma_patterns_of_weight(n: nat, k: nat, i: int)
    requires
        n <= usize::MAX,
        0 <= i < patterns_of_weight(n, k).len(),
    ensures
        patterns_of_weight(n, k)[i].len() == n,
        weight(patterns_of_weight(n, k)[i]) == k,
{
    let cs = combinations(n, k);
    let ts = assignments(k);
    let (x, y) = lemma_patterns_over_member(n, cs, ts, i);
    lemma_combinations_shape(0, n, k, x);
    lemma_assignments_shape(k, y);
    lemma_pattern_prefix(n, cs[x], ts[y], k);
}

/// Every member of `patterns_below(n, bound)` covers `n` qubits and has a
/// weight below `bound`, and the weights never fall along the enumeration.
pub proof fn lemma_patterns_below_sorted(n: nat, bound: nat, i: int, j: int)
    requires
        n <= usize::MAX,
        0 <= i <= j < patterns_below(n, bound).len(),
    ensures
        patterns_below(n, bound)[i].len() == n,
        weight(patterns_below(n, bound)[j]) < bound,
        weight(patterns_below(n, bound)[i]) <= weight(patterns_below(n, bound)[j]),
    decreases bound,
{
    if bound > 0 {
        let before = patterns_below(n, (bound - 1) as nat);
        if j < before.len() {
            lemma_patterns_below_sorted(n, (bound - 1) as nat, i, j);
        } else {
            lemma_patterns_of_weight(n, (bound - 1) as nat, j - before.len());
            if i < before.len() {
                lemma_patterns_below_sorted(n, (bound - 1) as nat, i, i);
            } else {
                lemma_patterns_of_weight(n, (bound - 1) as nat, i - before.len());
            }
        }
    }
}

/// Every strictly ascending sequence over `lo..n` is a member of the
/// combinations of its length.
pub proof fn lemma_combinations_complete(lo: nat, n: nat, c: Seq<usize>) -> (i: int)
    requires
        n <= usize::MAX,
        ascending_within(c, lo, n),
    ensures
        0 <= i < combinations_from(lo, n, c.len()).len(),
        combinations_from(lo, n, c.len())[i] == c,
    decreases n - lo,
{
    let k = c.len();
    if k == 0 {
        assert(c =~= Seq::<usize>::empty());
        0
    } else {
        assert(lo <= c[0] < n);
        let with = combinations_from(lo + 1, n, (k - 1) as nat);
        let without = combinations_from(lo + 1, n, k);
        let head = with.map_values(|c: Seq<usize>| seq![lo as usize] + c);
        assert(combinations_from(lo, n, k) == head + without);
        if c[0] == lo {
            let rest = c.drop_first();
            assert forall|a: int| 0 <= a < rest.len() implies lo + 1 <= #[trigger] rest[a] < n by {
                assert(rest[a] == c[a + 1]);
                assert(c[0] < c[a + 1]);
            }
            assert forall|a: int, b: int| 0 <= a < b < rest.len() implies rest[a] < rest[b] by {
                assert(rest[a] == c[a + 1]);
                assert(rest[b] == c[b + 1]);
            }
            let i = lemma_combinations_complete(lo + 1, n, rest);
            assert(head[i] =~= c);
            i
        } else {
            assert forall|a: int| 0 <= a < c.len() implies lo + 1 <= #[trigger] c[a] < n by {
                if a > 0 {
                    assert(c[0] < c[a]);
                }
            }
            let i = lemma_combinations_complete(lo + 1, n, c);
            head.len() + i
        }
    }
}

/// Whether `a` comes before `b` in lexicographic order: the two agree up to
/// some index, where `a` holds the smaller element.
pub open spec fn lex_before(a: Seq<usize>, b: Seq<usize>) -> bool {
    exists|p: int| 0 <= p < a.len() && p < b.len() && a.take(p) == b.take(p) && #[trigger] a[p] < b[p]
}

/// The combinations stand in strictly ascending lexicographic order, so
/// none occurs twice.
pub proof fn law_combinations_are_ordered(lo: nat, n: nat, k: nat, i: int, j: int)
    requires
        n <= usize::MAX,
        0 <= i < j < combinations_from(lo, n, k).len(),
    ensures
        lex_before(combinations_from(lo, n, k)[i], combinations_from(lo, n, k)[j]),
    decreases n - lo,
{
    if k == 0 {
    } else if lo >= n {
    } else {
        let with = combinations_from(lo + 1, n, (k - 1) as nat);
        let without = combinations_from(lo + 1, n, k);
        let head = with.map_values(|c: Seq<usize>| seq![lo as usize] + c);
        let all = combinations_from(lo, n, k);
        assert(all == head + without);
        let a = all[i];
        let b = all[j];
        if j < head.len() {
            law_combinations_are_ordered(lo + 1, n, (k - 1) as nat, i, j);
            let x = with[i];
            let y = with[j];
            let p = choose|p: int| 0 <= p < x.len() && p < y.len() && x.take(p) == y.take(p) && #[trigger] x[p] < y[p];
            assert(a == seq![lo as usize] + x);
            assert(b == seq![lo as usize] + y);
            assert(a.take(p + 1) =~= seq![lo as usize] + x.take(p));
            assert(b.take(p + 1) =~= seq![lo as usize] + y.take(p));
            assert(a[p + 1] == x[p]);
            assert(b[p + 1] == y[p]);
        } else if i < head.len() {
            lemma_combinations_shape(lo + 1, n, k, j - head.len());
            assert(a == seq![lo as usize] + with[i]);
            assert(a[0] == lo);
            assert(b[0] >= lo + 1);
            assert(a.take(0) =~= b.take(0));
        } else {
            law_combinations_are_ordered(lo + 1, n, k, i - head.len(), j - head.len());
        }
    }
}

/// Every sequence of operators is a member of the assignments of its length.
pub proof fn lemma_assignments_complete(a: Seq<PauliOperator>) -> (i: int)
    ensures
        0 <= i < assignments(a.len()).len(),
        assignments(a.len())[i] == a,
    decreases a.len(),
{
    if a.len() == 0 {
        assert(a =~= Seq::<PauliOperator>::empty());
        0
    } else {
        let shorter = assignments((a.len() - 1) as nat);
        let j = lemma_assignments_complete(a.drop_last());
        let t: int = match a.last() {
            PauliOperator::X => 0,
            PauliOperator::Y => 1,
            PauliOperator::Z => 2,
        };
        let i = 3 * j + t;
        assert(i / 3 == j && i % 3 == t);
        assert(shorter[j].push(pauli_of(t)) =~= a);
        i
    }
}

/// The qubits on which a pattern applies an operator, ascending.
pub open spec fn positions_of(e: Seq<Option<PauliOperator>>) -> Seq<usize> {
    entries(e).map_values(|x: (usize, PauliOperator)| x.0)
}

/// The operators that a pattern applies, by ascending qubit.
pub open spec fn types_of(e: Seq<Option<PauliOperator>>) -> Seq<PauliOperator> {
    entries(e).map_values(|x: (usize, PauliOperator)| x.1)
}

/// The entries of a pattern are as many as its weight; they ascend by qubit;
/// each names a qubit of the pattern together with the operator there; and
/// every qubit that carries an operator has an entry.
pub proof fn lemma_entries(e: Seq<Option<PauliOperator>>)
    requires
        e.len() <= usize::MAX,
    ensures
        entries(e).len() == weight(e),
        forall|i: int| 0 <= i < entries(e).len() ==> (#[trigger] entries(e)[i]).0 < e.len() && e[entries(e)[i].0 as int] == Some(entries(e)[i].1),
        forall|i: int, j: int| 0 <= i < j < entries(e).len() ==> (#[trigger] entries(e)[i]).0 < (#[trigger] entries(e)[j]).0,
        forall|q: int| 0 <= q < e.len() && (#[trigger] e[q]) is Some ==> exists|i: int| 0 <= i < entries(e).len() && (#[trigger] entries(e)[i]).0 == q,
    decreases e.len(),
{
    if e.len() > 0 {
        let shorter = e.drop_last();
        lemma_entries(shorter);
        let es = entries(shorter);
        let full = entries(e);
        match e.last() {
            Some(p) => {
                assert(full == es.push(((e.len() - 1) as usize, p)));
                assert forall|i: int| 0 <= i < full.len() implies (#[trigger] full[i]).0 < e.len() && e[full[i].0 as int] == Some(full[i].1) by {
                    if i < es.len() {
                        assert(full[i] == es[i]);
                        assert(shorter[es[i].0 as int] == e[es[i].0 as int]);
                    }
                }
                assert forall|i: int, j: int| 0 <= i < j < full.len() implies (#[trigger] full[i]).0 < (#[trigger] full[j]).0 by {
                    assert(full[i] == es[i]);
                    if j < es.len() {
                        assert(full[j] == es[j]);
                    }
                }
                assert forall|q: int| 0 <= q < e.len() && (#[trigger] e[q]) is Some implies exists|i: int| 0 <= i < full.len() && (#[trigger] full[i]).0 == q by {
                    if q < e.len() - 1 {
                        assert(shorter[q] == e[q]);
                        let i = choose|i: int| 0 <= i < es.len() && (#[trigger] es[i]).0 == q;
                        assert(full[i] == es[i]);
                    } else {
                        assert(full[es.len() as int].0 == q);
                    }
                }
            },
            None => {
                assert(full == es);
                assert forall|i: int| 0 <= i < full.len() implies (#[trigger] full[i]).0 < e.len() && e[full[i].0 as int] == Some(full[i].1) by {
                    assert(shorter[es[i].0 as int] == e[es[i].0 as int]);
                }
                assert forall|q: int| 0 <= q < e.len() && (#[trigger] e[q]) is Some implies exists|i: int| 0 <= i < full.len() && (#[trigger] full[i]).0 == q by {
                    assert(shorter[q] == e[q]);
                }
            },
        }
    }
}

/// A pattern is the pattern of its own positions and types.
pub proof fn lemma_pattern_of_entries(e: Seq<Option<PauliOperator>>)
    requires
        e.len() <= usize::MAX,
    ensures
        positions_of(e).len() == weight(e),
        types_of(e).len() == weight(e),
        ascending_within(positions_of(e), 0, e.len()),
        pattern_of(e.len(), positions_of(e), types_of(e)) == e,
{
    lemma_entries(e);
    let n = e.len();
    let c = positions_of(e);
    let a = types_of(e);
    let k = weight(e);
    assert forall|i: int| 0 <= i < c.len() implies 0 <= #[trigger] c[i] < n by {
        assert(c[i] == entries(e)[i].0);
    }
    assert forall|i: int, j: int| 0 <= i < j < c.len() implies c[i] < c[j] by {
        assert(c[i] == entries(e)[i].0);
        assert(c[j] == entries(e)[j].0);
    }
    lemma_pattern_prefix(n, c, a, k);
    let built = pattern_of(n, c, a);
    assert forall|q: int| 0 <= q < n implies built[q] == e[q] by {
        if e[q] is Some {
            let i = choose|i: int| 0 <= i < entries(e).len() && (#[trigger] entries(e)[i]).0 == q;
            assert(c[i] == q);
            assert(built[c[i] as int] == Some(a[i]));
            assert(a[i] == entries(e)[i].1);
        } else {
            assert forall|i: int| 0 <= i < k implies #[trigger] c[i] != q by {
                assert(c[i] == entries(e)[i].0);
            }
        }
    }
    assert(built =~= e);
}

/// The pattern of member `x` of `cs` with member `y` of `ts` is a member of
/// `patterns_over(n, cs, ts)`.
pub proof fn lemma_patterns_over_contains(n: nat, cs: Seq<Seq<usize>>, ts: Seq<Seq<PauliOperator>>, x: int, y: int) -> (i: int)
    requires
        0 <= x < cs.len(),
        0 <= y < ts.len(),
    ensures
        0 <= i < patterns_over(n, cs, ts).len(),
        patterns_over(n, cs, ts)[i] == pattern_of(n, cs[x], ts[y]),
    decreases cs.len(),
{
    let before = patterns_over(n, cs.drop_last(), ts);
    if x == cs.len() - 1 {
        before.len() + y
    } else {
        lemma_patterns_over_contains(n, cs.drop_last(), ts, x, y)
    }
}

/// The enumeration misses nothing: every pattern on `n` qubits of weight
/// below `bound` is a member of `patterns_below(n, bound)`.
pub proof fn lemma_patterns_below_complete(n: nat, bound: nat, e: Seq<Option<PauliOperator>>) -> (i: int)
    requires
        n <= usize::MAX,
        e.len() == n,
        weight(e) < bound,
    ensures
        0 <= i < patterns_below(n, bound).len(),
        patterns_below(n, bound)[i] == e,
    decreases bound,
{
    let before = patterns_below(n, (bound - 1) as nat);
    if weight(e) < bound - 1 {
        lemma_patterns_below_complete(n, (bound - 1) as nat, e)
    } else {
        let k = weight(e);
        lemma_pattern_of_entries(e);
        let x = lemma_combinations_complete(0, n, positions_of(e));
        let y = lemma_assignments_complete(types_of(e));
        let i = lemma_patterns_over_contains(n, combinations(n, k), assignments(k), x, y);
        before.len() + i
    }
}

/// The enumeration of the patterns of weight below a positive bound starts
/// with the identity pattern.
pub proof fn lemma_identity_comes_first(n: nat, bound: nat)
    requires
        bound >= 1,
    ensures
        patterns_below(n, bound).len() >= 1,
        patterns_below(n, bound)[0] == identity_pattern(n),
    decreases bound,
{
    if bound == 1 {
        let cs = combinations(n, 0);
        let ts = assignments(0);
        assert(cs.drop_last() =~= Seq::<Seq<usize>>::empty());
        assert(patterns_over(n, cs.drop_last(), ts) =~= Seq::<Seq<Option<PauliOperator>>>::empty());
        assert(patterns_over(n, cs, ts) =~= patterns_at(n, cs.last(), ts));
        assert(patterns_below(n, 0) =~= Seq::<Seq<Option<PauliOperator>>>::empty());
        assert(patterns_below(n, 1) =~= patterns_at(n, cs.last(), ts));
        assert(pattern_of(n, cs.last(), ts[0]) == identity_pattern(n));
    } else {
        lemma_identity_comes_first(n, (bound - 1) as nat);
    }
}

} // verus!
