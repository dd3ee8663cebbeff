//! Claim bitmap: one bit per winner index, eight indices per byte.
use vstd::prelude::*;

verus! {

/// Whether bit `k` (0 = least significant) of `b` is set.
pub open spec fn bit_of(b: u8, k: u8) -> bool {
    (b >> k) & 1u8 == 1u8
}

/// Whether `index` counts as claimed in `bitmap`.
///
/// An index whose byte lies outside the bitmap counts as claimed, so that an
/// index the bitmap was never sized for can never be paid.
pub open spec fn claimed_at(bitmap: Seq<u8>, index: u32) -> bool {
    let byte = (index / 8) as int;
    byte >= bitmap.len() || bit_of(bitmap[byte], (index % 8) as u8)
}

proof fn lemma_mask_tests_bit(b: u8, k: u8)
    requires
        k < 8,
    ensures
        ((b & (1u8 << k)) != 0) == bit_of(b, k),
{
    assert(((b & (1u8 << k)) != 0) == ((b >> k) & 1u8 == 1u8)) by (bit_vector)
        requires
            k < 8,
    ;
}

proof fn lemma_or_sets_bit(b: u8, k: u8, j: u8)
    requires
        k < 8,
        j < 8,
    ensures
        bit_of(b | (1u8 << k), j) == (j == k || bit_of(b, j)),
{
    assert((((b | (1u8 << k)) >> j) & 1u8 == 1u8) == (j == k || (b >> j) & 1u8 == 1u8))
        by (bit_vector)
        requires
            k < 8,
            j < 8,
    ;
}

/// Returns whether `index` is already claimed; an index outside the bitmap
/// reads as claimed.
pub fn is_claimed(bitmap: &Vec<u8>, index: u32) -> (r: bool)
    ensures
        r == claimed_at(bitmap@, index),
{
    let byte_index = (index / 8) as usize;
    let bit_index = (index % 8) as u8;
    if byte_index >= bitmap.len() {
        return true;
    }
    let mask: u8 = 1u8 << bit_index;
    proof {
        lemma_mask_tests_bit(bitmap@[byte_index as int], bit_index);
    }
    (bitmap[byte_index] & mask) != 0
}

/// Marks `index` as claimed. An index outside the bitmap leaves it unchanged
/// (it already reads as claimed).
pub fn set_claimed(bitmap: &mut Vec<u8>, index: u32)
    ensures
        final(bitmap)@.len() == old(bitmap)@.len(),
        claimed_at(final(bitmap)@, index),
        forall|j: u32| #[trigger] claimed_at(final(bitmap)@, j) == (j == index || claimed_at(old(bitmap)@, j)),
        (index / 8) as int >= old(bitmap)@.len() ==> final(bitmap)@ == old(bitmap)@,
{
    let byte_index = (index / 8) as usize;
    let bit_index = (index % 8) as u8;
    if byte_index < bitmap.len() {
        let mask: u8 = 1u8 << bit_index;
        let b = bitmap[byte_index];
        bitmap.set(byte_index, b | mask);
        proof {
            assert forall|j: u32| #[trigger] claimed_at(bitmap@, j) == (j == index || claimed_at(old(bitmap)@, j)) by {
                if (j / 8) as int == byte_index as int {
                    lemma_or_sets_bit(b, bit_index, (j % 8) as u8);
                    assert((j == index) == ((j % 8) as u8 == bit_index));
                }
            }
        }
    }
}

} // verus!
