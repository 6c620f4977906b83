//! The fixed 256-bit set that records which challenges a player has completed.

use vstd::prelude::*;

verus! {

/// Whether bit `bit` of `byte` is set; bit 0 is the least significant.
pub open spec fn bit_is_set(byte: u8, bit: u8) -> bool {
    byte & (1u8 << bit) != 0
}

/// How many of the ids `0 .. n` are in `ids`.
spec fn count_below(ids: Set<u8>, n: int) -> nat
    decreases n,
{
    if n <= 0 {
        0
    } else {
        count_below(ids, n - 1) + if ids.contains((n - 1) as u8) {
            1nat
        } else {
            0nat
        }
    }
}

/// The members of `ids` that are smaller than `n`.
spec fn ids_below(ids: Set<u8>, n: int) -> Set<u8> {
    Set::new(|id: u8| ids.contains(id) && id < n)
}

/// `count_below` counts the members of `ids_below`, which are at most `n`.
proof fn lemma_count_below(ids: Set<u8>, n: int)
    requires
        0 <= n <= 256,
    ensures
        ids_below(ids, n).finite(),
        ids_below(ids, n).len() == count_below(ids, n),
        count_below(ids, n) <= n,
    decreases n,
{
    if n == 0 {
        assert(ids_below(ids, 0) =~= Set::empty());
    } else {
        lemma_count_below(ids, n - 1);
        let last = (n - 1) as u8;
        if ids.contains(last) {
            assert(ids_below(ids, n) =~= ids_below(ids, n - 1).insert(last));
        } else {
            assert(ids_below(ids, n) =~= ids_below(ids, n - 1));
        }
    }
}

/// Every set of challenge ids is finite and holds at most 256 of them.
pub proof fn lemma_id_set_is_finite(ids: Set<u8>)
    ensures
        ids.finite(),
        ids.len() <= 256,
{
    lemma_count_below(ids, 256);
    assert(ids_below(ids, 256) =~= ids);
}

/// The byte of the bitmap that holds the bit of challenge `id`.
pub fn byte_index(id: u8) -> (index: usize)
    ensures
        index == id / 8,
        index < 32,
{
    (id / 8) as usize
}

/// The position, within its byte, of the bit of challenge `id`.
pub fn bit_index(id: u8) -> (bit: u8)
    ensures
        bit == id % 8,
        bit < 8,
{
    id % 8
}

proof fn lemma_or_sets_one_bit(byte: u8, i: u8, j: u8)
    by (bit_vector)
    requires
        i < 8,
        j < 8,
    ensures
        ((byte | (1u8 << i)) & (1u8 << j) != 0) == (i == j || byte & (1u8 << j) != 0),
{
}

proof fn lemma_zero_has_no_bit(j: u8)
    by (bit_vector)
    requires
        j < 8,
    ensures
        0u8 & (1u8 << j) == 0,
{
}

/// One bit per challenge id: id `n` lives in byte `n / 8`, at bit `n % 8`.
#[derive(Clone, Copy, Debug, PartialEq, Eq)]
pub struct CompletionBitmap {
    pub bytes: [u8; 32],
}

impl View for CompletionBitmap {
    type V = Set<u8>;

    /// The set of challenge ids whose bit is set.
    open spec fn view(&self) -> Set<u8> {
        Set::new(|id: u8| bit_is_set(self.bytes@[id as int / 8], id % 8))
    }
}

impl CompletionBitmap {
    /// The bitmap in which no challenge is completed.
    pub fn new() -> (bitmap: CompletionBitmap)
        ensures
            bitmap@ == Set::<u8>::empty(),
            forall|i: int| 0 <= i < 32 ==> bitmap.bytes@[i] == 0,
    {
        let bitmap = CompletionBitmap { bytes: [0u8;32] };
        proof {
            assert forall|id: u8| !bitmap@.contains(id) by {
                lemma_zero_has_no_bit(id % 8);
            }
            assert(bitmap@ =~= Set::<u8>::empty());
        }
        bitmap
    }

    /// Whether challenge `id` is recorded as completed.
    pub fn get(&self, id: u8) -> (completed: bool)
        ensures
            completed == self@.contains(id),
    {
        self.bytes[byte_index(id)] & (1u8 << bit_index(id)) != 0
    }

    /// Records challenge `id` as completed: sets bit `id % 8` of byte `id / 8`
    /// and leaves every other bit as it was.
    pub fn set(&mut self, id: u8)
        ensures
            final(self)@ == old(self)@.insert(id),
            final(self).bytes@ == old(self).bytes@.update(
                id as int / 8,
                old(self).bytes@[id as int / 8] | (1u8 << (id % 8) as u8),
            ),
    {
        let index = byte_index(id);
        let bit = bit_index(id);
        let byte = self.bytes[index];
        self.bytes[index] = byte | (1u8 << bit);
        proof {
            assert forall|other: u8| self@.contains(other) == old(self)@.insert(id).contains(
                other,
            ) by {
                if other / 8 == id / 8 {
                    lemma_or_sets_one_bit(byte, bit, other % 8);
                }
            }
            assert(self@ =~= old(self)@.insert(id));
        }
    }

    /// The number of completed challenges.
    pub fn popcount(&self) -> (count: u32)
        ensures
            count == self@.len(),
            count <= 256,
    {
        let mut count: u32 = 0;
        let mut next: u16 = 0;
        while next < 256
            invariant
                next <= 256,
                count == count_below(self@, next as int),
                count <= next,
            decreases 256 - next,
        {
            if self.get(next as u8) {
                count = count + 1;
            }
            next = next + 1;
        }
        proof {
            lemma_count_below(self@, 256);
            assert(ids_below(self@, 256) =~= self@);
        }
        count
    }
}

} // verus!
