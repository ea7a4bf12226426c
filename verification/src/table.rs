//! The recovery table of a code: which error pattern is filed under which
//! syndrome, and under which key.

use vstd::prelude::*;
use vstd::arithmetic::power2::{lemma2_to64, lemma_pow2_strictly_increases, lemma_pow2_unfold, pow2};
use std::collections::HashMap;
use crate::parity::{stabilizer_views, syndrome_for, syndrome_of, syndromes_of};
use crate::pattern::{pattern_views, ErrorPattern, RecoveryOperation};
use crate::pauli::PauliOperator;
use crate::stabilizer::Stabilizer;
use crate::syndrome::ErrorSyndrome;

verus! {

/// The index at which `x` first occurs in `items`, or the length of `items`
/// when it does not occur.
pub open spec fn first_index<T>(items: Seq<T>, x: T) -> int
    decreases items.len(),
{
    if items.len() == 0 {
        0
    } else {
        let before = first_index(items.drop_last(), x);
        if before < items.len() - 1 {
            before
        } else if items.last() == x {
            items.len() - 1
        } else {
            items.len() as int
        }
    }
}

/// `first_index` is the least index that holds `x`, or the length when no
/// index does.
pub proof fn lemma_first_index<T>(items: Seq<T>, x: T)
    ensures
        0 <= first_index(items, x) <= items.len(),
        first_index(items, x) < items.len() ==> items[first_index(items, x)] == x,
        forall|m: int| 0 <= m < first_index(items, x) ==> #[trigger] items[m] != x,
    decreases items.len(),
{
    if items.len() > 0 {
        lemma_first_index(items.drop_last(), x);
        let before = first_index(items.drop_last(), x);
        assert forall|m: int| 0 <= m < first_index(items, x) implies #[trigger] items[m] != x by {
            if m < items.len() - 1 {
                assert(items.drop_last()[m] == items[m]);
            }
        }
        if before < items.len() - 1 {
            assert(items.drop_last()[before] == items[before]);
        }
    }
}

/// An item that stands at index `i` first occurs at `i` or before it.
pub proof fn lemma_first_index_at_most<T>(items: Seq<T>, i: int)
    requires
        0 <= i < items.len(),
    ensures
        0 <= first_index(items, items[i]) <= i,
        items[first_index(items, items[i])] == items[i],
{
    lemma_first_index(items, items[i]);
}

/// The number whose binary digits are `bits`, the first bit being the most
/// significant.
pub open spec fn pack(bits: Seq<bool>) -> nat
    decreases bits.len(),
{
    if bits.len() == 0 {
        0
    } else {
        2 * pack(bits.drop_last()) + if bits.last() {
            1nat
        } else {
            0nat
        }
    }
}

/// Bit sequences of one length that pack to the same number are equal.
pub proof fn lemma_pack_injective(a: Seq<bool>, b: Seq<bool>)
    requires
        a.len() == b.len(),
        pack(a) == pack(b),
    ensures
        a == b,
    decreases a.len(),
{
    if a.len() > 0 {
        lemma_pack_injective(a.drop_last(), b.drop_last());
        assert(a =~= a.drop_last().push(a.last()));
        assert(b =~= b.drop_last().push(b.last()));
    } else {
        assert(a =~= b);
    }
}

/// A sequence of `n` bits packs to a number below two to the `n`.
pub proof fn lemma_pack_bound(bits: Seq<bool>)
    ensures
        pack(bits) < pow2(bits.len()),
    decreases bits.len(),
{
    if bits.len() == 0 {
        lemma2_to64();
    } else {
        lemma_pack_bound(bits.drop_last());
        lemma_pow2_unfold(bits.len());
    }
}

/// The key under which the recovery table files a syndrome.
pub(crate) fn table_key(syndrome: &ErrorSyndrome) -> (r: u64)
    requires
        syndrome@.len() <= 64,
    ensures
        r == pack(syndrome@),
{
    let n = syndrome.len();
    let mut key: u64 = 0;
    let mut i: usize = 0;
    while i < n
        invariant
            i <= n,
            n == syndrome@.len(),
            n <= 64,
            key == pack(syndrome@.take(i as int)),
        decreases n - i,
    {
        proof {
            let next = syndrome@.take(i + 1);
            assert(next.drop_last() =~= syndrome@.take(i as int));
            assert(next.last() == syndrome@[i as int]);
            lemma_pack_bound(next);
            lemma2_to64();
            if i + 1 < 64 {
                lemma_pow2_strictly_increases((i + 1) as nat, 64);
            }
        }
        let bit: u64 = match syndrome.get_bit(i) {
            Some(true) => 1,
            _ => 0,
        };
        key = 2 * key + bit;
        i += 1;
    }
    proof {
        assert(syndrome@.take(i as int) =~= syndrome@);
    }
    key
}

/// The table keys of the patterns in `errors`, in order.
pub open spec fn keys_of(stabilizers: Seq<Seq<(usize, PauliOperator)>>, errors: Seq<Seq<Option<PauliOperator>>>) -> Seq<nat> {
    Seq::new(errors.len(), |j: int| pack(syndrome_of(stabilizers, errors[j])))
}

/// Whether `table` files, under the key of each syndrome that some pattern of
/// `errors` produces, the first pattern of `errors` that produces it, and
/// nothing else.
pub open spec fn table_holds(
    table: Map<u64, RecoveryOperation>,
    stabilizers: Seq<Seq<(usize, PauliOperator)>>,
    errors: Seq<Seq<Option<PauliOperator>>>,
) -> bool {
    let keys = keys_of(stabilizers, errors);
    &&& forall|key: u64| #[trigger] table.contains_key(key) <==> first_index(keys, key as nat) < keys.len()
    &&& forall|key: u64| #[trigger] table.contains_key(key) ==> table[key]@ == errors[first_index(keys, key as nat)]
}

/// The recovery table for `errors` under `stabilizers`: each syndrome is
/// filed with the first pattern that produces it, and later patterns with a
/// syndrome already filed are dropped.
pub fn precompute_recovery_operations(stabilizers: &Vec<Stabilizer>, errors: &Vec<ErrorPattern>) -> (r: HashMap<u64, RecoveryOperation>)
    requires
        stabilizers.len() <= 64,
    ensures
        table_holds(r@, stabilizer_views(stabilizers@), pattern_views(errors@)),
{
    let ghost stabs = stabilizer_views(stabilizers@);
    let ghost all = pattern_views(errors@);
    let mut table: HashMap<u64, RecoveryOperation> = HashMap::new();
    assert(all.take(0) =~= Seq::<Seq<Option<PauliOperator>>>::empty());
    let mut idx: usize = 0;
    while idx < errors.len()
        invariant
            idx <= errors.len(),
            stabilizers.len() <= 64,
            stabs == stabilizer_views(stabilizers@),
            all == pattern_views(errors@),
            table_holds(table@, stabs, all.take(idx as int)),
        decreases errors.len() - idx,
    {
        let syndrome = syndrome_for(stabilizers, &errors[idx]);
        let key = table_key(&syndrome);
        let ghost before = table@;
        let ghost keys = keys_of(stabs, all.take(idx as int));
        let ghost next_keys = keys_of(stabs, all.take(idx + 1));
        proof {
            assert(all[idx as int] == errors@[idx as int]@);
            assert(next_keys.drop_last() =~= keys);
            assert(next_keys.last() == key as nat);
            assert forall|k: u64| #[trigger] first_index(next_keys, k as nat) == (if first_index(keys, k as nat) < idx {
                first_index(keys, k as nat)
            } else if k == key {
                idx as int
            } else {
                idx + 1
            }) by {
                lemma_first_index(keys, k as nat);
            }
        }
        if !table.contains_key(&key) {
            table.insert(key, RecoveryOperation::from_error(&errors[idx]));
        }
        proof {
            assert forall|k: u64| #[trigger] table@.contains_key(k) implies table@[k]@ == all.take(idx + 1)[first_index(next_keys, k as nat)] by {
                lemma_first_index(keys, k as nat);
                if before.contains_key(k) {
                    assert(all.take(idx as int)[first_index(keys, k as nat)] == all.take(idx + 1)[first_index(keys, k as nat)]);
                }
            }
        }
        idx += 1;
    }
    proof {
        assert(all.take(idx as int) =~= all);
    }
    table
}

/// With as many bits as there are stabilizers, a syndrome first occurs among
/// the syndromes of `errors` where its key first occurs among their keys.
pub proof fn lemma_first_index_by_key(
    stabilizers: Seq<Seq<(usize, PauliOperator)>>,
    errors: Seq<Seq<Option<PauliOperator>>>,
    s: Seq<bool>,
)
    requires
        s.len() == stabilizers.len(),
    ensures
        first_index(keys_of(stabilizers, errors), pack(s)) == first_index(syndromes_of(stabilizers, errors), s),
    decreases errors.len(),
{
    let keys = keys_of(stabilizers, errors);
    let syndromes = syndromes_of(stabilizers, errors);
    if errors.len() > 0 {
        lemma_first_index_by_key(stabilizers, errors.drop_last(), s);
        assert(keys.drop_last() =~= keys_of(stabilizers, errors.drop_last()));
        assert(syndromes.drop_last() =~= syndromes_of(stabilizers, errors.drop_last()));
        if keys.last() == pack(s) {
            lemma_pack_injective(syndromes.last(), s);
        }
    }
}

/// A syndrome whose length is not the number of stabilizers occurs nowhere
/// among the syndromes of `errors`.
pub proof fn lemma_first_index_wrong_length(
    stabilizers: Seq<Seq<(usize, PauliOperator)>>,
    errors: Seq<Seq<Option<PauliOperator>>>,
    s: Seq<bool>,
)
    requires
        s.len() != stabilizers.len(),
    ensures
        first_index(syndromes_of(stabilizers, errors), s) == errors.len(),
    decreases errors.len(),
{
    let syndromes = syndromes_of(stabilizers, errors);
    if errors.len() > 0 {
        lemma_first_index_wrong_length(stabilizers, errors.drop_last(), s);
        assert(syndromes.drop_last() =~= syndromes_of(stabilizers, errors.drop_last()));
        assert(syndromes.last().len() == stabilizers.len());
    }
}

} // verus!
