//! Error syndromes: one bit per stabilizer of a code.

use vstd::prelude::*;

verus! {

/// The largest number of bits that a syndrome can hold.
pub const MAX_SYNDROME_BITS: usize = usize::MAX / 8;

/// Packed bit storage, backed by `bitvec::vec::BitVec`.
#[verifier::external_body]
#[derive(Debug)]
pub struct BitStorage {
    bits: bitvec::vec::BitVec,
}

/// The bits that a bit storage holds, in index order.
pub uninterp spec fn bits_of(b: BitStorage) -> Seq<bool>;

/// `BitVec::repeat`: a bit vector of `len` bits, each equal to `bit`. The
/// call panics above `BitSlice::MAX_BITS`, which is `usize::MAX >> 3`.
#[verifier::external_body]
fn storage_repeat(bit: bool, len: usize) -> (r: BitStorage)
    requires
        len <= MAX_SYNDROME_BITS,
    ensures
        bits_of(r) == Seq::new(len as nat, |i: int| bit),
{
    BitStorage { bits: bitvec::vec::BitVec::repeat(bit, len) }
}

/// `BitSlice::set`: writes `value` at `index` and leaves every other bit as
/// it was. The call panics only when `index` is out of bounds.
#[verifier::external_body]
fn storage_set(b: &mut BitStorage, index: usize, value: bool)
    requires
        index < bits_of(*old(b)).len(),
    ensures
        bits_of(*final(b)) == bits_of(*old(b)).update(index as int, value),
    no_unwind
{
    b.bits.set(index, value);
}

/// Indexing a `BitVec`: the bit at `index`. The call panics when `index` is
/// out of bounds.
#[verifier::external_body]
fn storage_get(b: &BitStorage, index: usize) -> (r: bool)
    requires
        index < bits_of(*b).len(),
    ensures
        r == bits_of(*b)[index as int],
{
    b.bits[index]
}

/// A fixed-length sequence of bits, one per stabilizer. A bit is `true` when
/// the measurement of its stabilizer gave the odd-parity outcome.
#[derive(Debug)]
pub struct ErrorSyndrome {
    bits: BitStorage,
    size: usize,
}

impl View for ErrorSyndrome {
    type V = Seq<bool>;

    closed spec fn view(&self) -> Seq<bool> {
        bits_of(self.bits)
    }
}

impl ErrorSyndrome {
    #[verifier::type_invariant]
    closed spec fn inv(&self) -> bool {
        &&& bits_of(self.bits).len() == self.size
        &&& self.size <= MAX_SYNDROME_BITS
    }

    /// A syndrome of `size` bits, all `false`.
    pub fn new(size: usize) -> (r: Self)
        requires
            size <= MAX_SYNDROME_BITS,
        ensures
            r@ == Seq::new(size as nat, |i: int| false),
    {
        Self { bits: storage_repeat(false, size), size }
    }

    /// The syndrome whose bits are `outcomes`, in the same order.
    pub fn from_outcomes(outcomes: &[bool]) -> (r: Self)
        requires
            outcomes.len() <= MAX_SYNDROME_BITS,
        ensures
            r@ == outcomes@,
    {
        let mut syndrome = Self::new(outcomes.len());
        let mut i: usize = 0;
        while i < outcomes.len()
            invariant
                i <= outcomes.len(),
                syndrome@.len() == outcomes.len(),
                forall|m: int| 0 <= m < i ==> syndrome@[m] == outcomes@[m],
            decreases outcomes.len() - i,
        {
            syndrome.set_bit(i, outcomes[i]);
            i += 1;
        }
        proof {
            assert(syndrome@ =~= outcomes@);
        }
        syndrome
    }

    /// The number of bits.
    pub fn len(&self) -> (r: usize)
        ensures
            r == self@.len(),
    {
        proof {
            use_type_invariant(self);
        }
        self.size
    }

    /// Sets the bit at `index` to `value`. An index past the end changes
    /// nothing.
    pub fn set_bit(&mut self, index: usize, value: bool)
        ensures
            index < old(self)@.len() ==> final(self)@ == old(self)@.update(index as int, value),
            index >= old(self)@.len() ==> final(self)@ == old(self)@,
    {
        proof {
            use_type_invariant(&*self);
        }
        if index < self.size {
            storage_set(&mut self.bits, index, value);
        }
    }

    /// The bit at `index`, or `None` past the end.
    pub fn get_bit(&self, index: usize) -> (r: Option<bool>)
        ensures
            r == (if index < self@.len() {
                Some(self@[index as int])
            } else {
                None
            }),
    {
        proof {
            use_type_invariant(self);
        }
        if index < self.size {
            Some(storage_get(&self.bits, index))
        } else {
            None
        }
    }

    /// The bits in index order.
    pub fn to_vec(&self) -> (r: Vec<bool>)
        ensures
            r@ == self@,
    {
        proof {
            use_type_invariant(self);
        }
        let mut out: Vec<bool> = Vec::new();
        let mut i: usize = 0;
        while i < self.size
            invariant
                i <= self.size,
                self.size == bits_of(self.bits).len(),
                out@ == bits_of(self.bits).take(i as int),
            decreases self.size - i,
        {
            out.push(storage_get(&self.bits, i));
            i += 1;
        }
        out
    }
}

impl Clone for ErrorSyndrome {
    fn clone(&self) -> (r: Self)
        ensures
            r@ == self@,
    {
        proof {
            use_type_invariant(self);
        }
        let bits = self.to_vec();
        Self::from_outcomes(bits.as_slice())
    }
}

} // verus!
