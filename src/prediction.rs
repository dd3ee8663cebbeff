//! A player's prediction record for one game chain of one tier.
use vstd::prelude::*;

use crate::errors::IC42NErrorCode;
use crate::selection::{mask_bit, selection_mask, spec_mask_of};

verus! {

/// One player's selection and stake for one chain of one tier.
#[derive(Clone, Copy)]
pub struct Prediction {
    /// First epoch of the chain this record belongs to.
    pub game_epoch: u64,
    /// Epoch in which the record was placed.
    pub epoch: u64,
    /// Player identity; all zeros while the record is unused.
    pub player: [u8; 32],
    /// Tier of the record.
    pub tier: u8,
    /// Prediction type the selection was made with.
    pub prediction_type: u8,
    /// How many entries of `selections` are active (1..=8).
    pub selection_count: u8,
    /// Bit n set iff number n is selected.
    pub selections_mask: u16,
    /// Selected numbers, ascending, in the first `selection_count` entries.
    pub selections: [u8; 8],
    /// Total stake: `lamports_per_number * selection_count`.
    pub lamports: u64,
    /// How many times the record was increased or changed (saturates).
    pub changed_count: u8,
    /// Slot of placement.
    pub placed_slot: u64,
    /// Time of placement.
    pub placed_at_ts: i64,
    /// Time of the last increase or change.
    pub last_updated_at_ts: i64,
    /// 1 once paid out.
    pub has_claimed: u8,
    /// Time of the payout.
    pub claimed_at_ts: i64,
    /// Address bump of the record account.
    pub bump: u8,
    /// Layout version.
    pub version: u8,
    /// Stake on each selected number.
    pub lamports_per_number: u64,
}

/// A key of all zero bytes marks an account that was never written.
pub open spec fn is_unset_key(key: [u8; 32]) -> bool {
    forall|i: int| 0 <= i < 32 ==> #[trigger] key@[i] == 0
}

/// Whether `key` is all zero bytes.
pub fn key_is_unset(key: &[u8; 32]) -> (r: bool)
    ensures
        r == is_unset_key(*key),
{
    let mut i: usize = 0;
    while i < 32
        invariant
            i <= 32,
            forall|j: int| 0 <= j < i ==> #[trigger] key@[j] == 0,
        decreases 32 - i,
    {
        if key[i] != 0 {
            return false;
        }
        i += 1;
    }
    true
}

/// Layout version written by new records.
pub const PREDICTION_VERSION: u8 = 2;

impl Prediction {
    /// Exactly one number.
    pub const TYPE_SINGLE_NUMBER: u8 = crate::selection::TYPE_SINGLE_NUMBER;
    /// Exactly two numbers.
    pub const TYPE_TWO_NUMBERS: u8 = crate::selection::TYPE_TWO_NUMBERS;
    /// The four lowest or highest eligible numbers.
    pub const TYPE_HIGH_LOW: u8 = crate::selection::TYPE_HIGH_LOW;
    /// The eligible even or odd numbers.
    pub const TYPE_EVEN_ODD: u8 = crate::selection::TYPE_EVEN_ODD;
    /// Three to eight numbers.
    pub const TYPE_MULTI_NUMBER: u8 = crate::selection::TYPE_MULTI_NUMBER;

    /// The stake the record should hold: per-number stake times the count
    /// (a count of 0 read as 1), saturating at the largest `u64`.
    pub open spec fn spec_expected_total(&self) -> u64 {
        let k: int = if self.selection_count >= 1 { self.selection_count as int } else { 1 };
        if self.lamports_per_number * k <= u64::MAX {
            (self.lamports_per_number * k) as u64
        } else {
            u64::MAX
        }
    }

    /// The active selections (the first `selection_count`, at most eight).
    pub open spec fn active_selections(&self) -> Seq<u8> {
        self.selections@.take(if self.selection_count <= 8 { self.selection_count as int } else { 8 })
    }

    /// Stake on each selected number.
    pub fn per_selection_lamports(&self) -> (r: u64)
        ensures
            r == self.lamports_per_number,
    {
        self.lamports_per_number
    }

    /// Fails unless the total stake equals the expected total.
    pub fn assert_invariant(&self) -> (r: Result<(), IC42NErrorCode>)
        ensures
            r is Ok <==> self.lamports == self.spec_expected_total(),
            r is Err ==> r == Err::<(), IC42NErrorCode>(IC42NErrorCode::AssertInvariantFailed),
    {
        if self.lamports == self.expected_total_lamports() {
            Ok(())
        } else {
            Err(IC42NErrorCode::AssertInvariantFailed)
        }
    }

    /// Per-number stake times the count (0 read as 1), saturating.
    pub fn expected_total_lamports(&self) -> (r: u64)
        ensures
            r == self.spec_expected_total(),
    {
        let k: u64 = if self.selection_count >= 1 { self.selection_count as u64 } else { 1 };
        match self.lamports_per_number.checked_mul(k) {
            Some(v) => v,
            None => u64::MAX,
        }
    }

    /// Whether number `n` is in the stored mask.
    pub fn mask_has(&self, n: u8) -> (r: bool)
        ensures
            r == (n <= 9 && mask_bit(self.selections_mask, n as int)),
    {
        if n > 9 {
            return false;
        }
        let m = self.selections_mask;
        assert(((m & (1u16 << (n as u16))) != 0) == ((m >> (n as u16)) & 1u16 == 1u16))
            by (bit_vector)
            requires
                n <= 9,
        ;
        (m & (1u16 << (n as u16))) != 0
    }

    /// The mask of the active selections, ignoring entries outside 1..=9.
    pub fn recompute_mask_from_selections(&self) -> (r: u16)
        ensures
            r == spec_mask_of(self.active_selections()),
    {
        selection_mask(&self.selections, self.selection_count)
    }
}

} // verus!
