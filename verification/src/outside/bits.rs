//! A vector of bits: `bitvec::vec::BitVec<u64, Lsb0>`, in which bit `i` is bit
//! `i % 64` of word `i / 64`.
use bitvec::order::Lsb0;
use bitvec::vec::BitVec;
use vstd::prelude::*;

verus! {

/// Holds one `BitVec<u64, Lsb0>`. Every value of this type comes from
/// [`BitStorage::repeat_false`] or [`BitStorage::from_words`], so its first bit is
/// always the least significant bit of the first word.
#[verifier::external_body]
pub struct BitStorage {
    bits: BitVec<u64, Lsb0>,
}

/// The bits that `storage` holds, first to last.
pub uninterp spec fn bits_of(storage: BitStorage) -> Seq<bool>;

/// What the last word of `storage` holds behind its last bit, first to last.
pub uninterp spec fn tail_of(storage: BitStorage) -> Seq<bool>;

/// How many bits of the last word are left behind the last of `len` bits.
pub open spec fn padding(len: nat) -> nat {
    ((64 - len % 64) % 64) as nat
}

/// `len` clear bits.
pub open spec fn clear(len: nat) -> Seq<bool> {
    Seq::new(len, |i: int| false)
}

/// The largest number of bits one storage can hold.
pub open spec fn max_bits() -> nat {
    (usize::MAX / 8) as nat
}

/// No bit of `bits` is clear.
pub open spec fn all_set(bits: Seq<bool>) -> bool {
    forall|i: int| 0 <= i < bits.len() ==> #[trigger] bits[i]
}

/// How many of `bits` are set.
pub open spec fn count_set(bits: Seq<bool>) -> nat
    decreases bits.len(),
{
    if bits.len() == 0 {
        0
    } else {
        count_set(bits.drop_last()) + if bits.last() {
            1nat
        } else {
            0nat
        }
    }
}

/// `ids` names the positions of `bits` that hold `value`: all of them, each once,
/// from the lowest to the highest.
pub open spec fn lists_positions(ids: Seq<u64>, bits: Seq<bool>, value: bool) -> bool {
    &&& forall|i: int| 0 <= i < ids.len() ==> #[trigger] ids[i] < bits.len() && bits[ids[i] as int] == value
    &&& forall|i: int, j: int| 0 <= i < j < ids.len() ==> ids[i] < ids[j]
    &&& forall|k: int|
        0 <= k < bits.len() && #[trigger] bits[k] == value ==> exists|i: int|
            0 <= i < ids.len() && ids[i] == k
}

/// Bit `i` of a sequence of words, counted from the least significant bit of the
/// first word.
pub open spec fn word_bit(words: Seq<u64>, i: int) -> bool {
    (words[i / 64] >> ((i % 64) as u64)) & 1 == 1
}

impl BitStorage {
    /// `BitVec::repeat` with the bit `false`: `len` bits, all clear, in words that are
    /// filled with zero. It panics above the largest length, which `requires` leaves out.
    #[verifier::external_body]
    pub(crate) fn repeat_false(len: usize) -> (r: BitStorage)
        requires
            len <= max_bits(),
        ensures
            bits_of(r) == Seq::new(len as nat, |i: int| false),
            tail_of(r) == clear(padding(len as nat)),
    {
        BitStorage { bits: BitVec::repeat(false, len) }
    }

    /// `BitVec::from_slice`: copies the words and spans every bit of them. It panics
    /// when there are more bits than a storage can hold, which `requires` leaves out.
    #[verifier::external_body]
    pub(crate) fn from_words(words: &[u64]) -> (r: BitStorage)
        requires
            words@.len() * 64 <= max_bits(),
        ensures
            bits_of(r) == Seq::new(words@.len() * 64, |i: int| word_bit(words@, i)),
            tail_of(r) == Seq::<bool>::empty(),
    {
        BitStorage { bits: BitVec::from_slice(words) }
    }

    /// `BitVec::as_raw_slice`, copied: the fewest words that hold all the bits, with
    /// what the last word holds behind them.
    #[verifier::external_body]
    pub(crate) fn raw_words(&self) -> (r: Vec<u64>)
        ensures
            r@.len() == (bits_of(*self).len() + 63) / 64,
            r@.len() * 64 == (bits_of(*self) + tail_of(*self)).len(),
            forall|i: int|
                0 <= i < r@.len() * 64 ==> (bits_of(*self) + tail_of(*self))[i]
                    == #[trigger] word_bit(r@, i),
    {
        self.bits.as_raw_slice().to_vec()
    }

    /// `BitSlice::len`: the number of bits, which never exceeds the largest length. The
    /// rest of the last word stands behind them.
    #[verifier::external_body]
    pub(crate) fn len(&self) -> (r: usize)
        ensures
            r == bits_of(*self).len(),
            r <= max_bits(),
            tail_of(*self).len() == padding(r as nat),
    {
        self.bits.len()
    }

    /// `BitSlice::set`: writes one bit and leaves all others. It panics past the end,
    /// which `requires` leaves out.
    #[verifier::external_body]
    pub(crate) fn set(&mut self, index: usize, value: bool)
        requires
            index < bits_of(*old(self)).len(),
        ensures
            bits_of(*final(self)) == bits_of(*old(self)).update(index as int, value),
            tail_of(*final(self)) == tail_of(*old(self)),
    {
        self.bits.set(index, value)
    }

    /// Reading a bit by index. It panics past the end, which `requires` leaves out.
    #[verifier::external_body]
    pub(crate) fn get(&self, index: usize) -> (r: bool)
        requires
            index < bits_of(*self).len(),
        ensures
            r == bits_of(*self)[index as int],
    {
        self.bits[index]
    }

    /// `BitSlice::all`: whether no bit is clear.
    #[verifier::external_body]
    pub(crate) fn all(&self) -> (r: bool)
        ensures
            r == all_set(bits_of(*self)),
    {
        self.bits.all()
    }

    /// `BitSlice::count_ones`: how many bits are set.
    #[verifier::external_body]
    pub(crate) fn count_ones(&self) -> (r: usize)
        ensures
            r == count_set(bits_of(*self)),
    {
        self.bits.count_ones()
    }

    /// `BitSlice::iter_ones`, collected: the positions of the set bits, ascending.
    #[verifier::external_body]
    pub(crate) fn ones(&self) -> (r: Vec<u64>)
        ensures
            lists_positions(r@, bits_of(*self), true),
    {
        self.bits.iter_ones().map(|i| i as u64).collect()
    }

    /// `BitSlice::iter_zeros`, collected: the positions of the clear bits, ascending.
    #[verifier::external_body]
    pub(crate) fn zeros(&self) -> (r: Vec<u64>)
        ensures
            lists_positions(r@, bits_of(*self), false),
    {
        self.bits.iter_zeros().map(|i| i as u64).collect()
    }

    /// `BitVec::truncate`: keeps the first `len` bits; a storage no longer than that
    /// is left as it is. The words are not written, so what was cut off still stands in
    /// the last of them.
    #[verifier::external_body]
    pub(crate) fn truncate(&mut self, len: usize)
        ensures
            bits_of(*final(self)) == if len < bits_of(*old(self)).len() {
                bits_of(*old(self)).take(len as int)
            } else {
                bits_of(*old(self))
            },
            tail_of(*final(self)) == if len < bits_of(*old(self)).len() {
                (bits_of(*old(self)) + tail_of(*old(self))).subrange(
                    len as int,
                    (len + padding(len as nat)) as int,
                )
            } else {
                tail_of(*old(self))
            },
    {
        self.bits.truncate(len)
    }

    /// `BitVec::clone`: a storage that holds the same bits. It copies words in which
    /// everything behind the last bit is clear.
    #[verifier::external_body]
    pub(crate) fn duplicate(&self) -> (r: BitStorage)
        ensures
            bits_of(r) == bits_of(*self),
            tail_of(r) == clear(padding(bits_of(*self).len())),
    {
        BitStorage { bits: self.bits.clone() }
    }
}

}
