//! The per-tier stake pool of the epoch that is open.
use vstd::prelude::*;

verus! {

/// Sum of a sequence of lamport amounts.
pub open spec fn sum_u64(s: Seq<u64>) -> int
    decreases s.len(),
{
    if s.len() == 0 {
        0
    } else {
        sum_u64(s.drop_last()) + s.last()
    }
}

/// Replacing one entry changes the sum by the difference.
pub proof fn lemma_sum_update(s: Seq<u64>, i: int, v: u64)
    requires
        0 <= i < s.len(),
    ensures
        sum_u64(s.update(i, v)) == sum_u64(s) - s[i] + v,
    decreases s.len(),
{
    if i < s.len() - 1 {
        lemma_sum_update(s.drop_last(), i, v);
        assert(s.update(i, v).drop_last() == s.drop_last().update(i, v));
    } else {
        assert(s.update(i, v).drop_last() == s.drop_last());
    }
}

/// Every entry is at most the sum.
pub proof fn lemma_entry_le_sum(s: Seq<u64>, i: int)
    requires
        0 <= i < s.len(),
    ensures
        s[i] <= sum_u64(s),
        sum_u64(s) >= 0,
    decreases s.len(),
{
    lemma_sum_nonneg(s.drop_last());
    if i < s.len() - 1 {
        lemma_entry_le_sum(s.drop_last(), i);
    }
}

proof fn lemma_sum_nonneg(s: Seq<u64>)
    ensures
        sum_u64(s) >= 0,
    decreases s.len(),
{
    if s.len() > 0 {
        lemma_sum_nonneg(s.drop_last());
    }
}

/// A sequence of zeros sums to zero.
pub proof fn lemma_sum_zeros(s: Seq<u64>)
    requires
        forall|i: int| 0 <= i < s.len() ==> s[i] == 0,
    ensures
        sum_u64(s) == 0,
    decreases s.len(),
{
    if s.len() > 0 {
        lemma_sum_zeros(s.drop_last());
    }
}

/// Sum of a sequence of counts.
pub open spec fn sum_u32(s: Seq<u32>) -> int
    decreases s.len(),
{
    if s.len() == 0 {
        0
    } else {
        sum_u32(s.drop_last()) + s.last()
    }
}

/// Replacing one count changes the sum by the difference.
pub proof fn lemma_sum32_update(s: Seq<u32>, i: int, v: u32)
    requires
        0 <= i < s.len(),
    ensures
        sum_u32(s.update(i, v)) == sum_u32(s) - s[i] + v,
    decreases s.len(),
{
    if i < s.len() - 1 {
        lemma_sum32_update(s.drop_last(), i, v);
        assert(s.update(i, v).drop_last() == s.drop_last().update(i, v));
    } else {
        assert(s.update(i, v).drop_last() == s.drop_last());
    }
}

/// Every count is at most the sum.
pub proof fn lemma_entry_le_sum32(s: Seq<u32>, i: int)
    requires
        0 <= i < s.len(),
    ensures
        s[i] <= sum_u32(s),
    decreases s.len(),
{
    lemma_sum32_nonneg(s.drop_last());
    if i < s.len() - 1 {
        lemma_entry_le_sum32(s.drop_last(), i);
    }
}

proof fn lemma_sum32_nonneg(s: Seq<u32>)
    ensures
        sum_u32(s) >= 0,
    decreases s.len(),
{
    if s.len() > 0 {
        lemma_sum32_nonneg(s.drop_last());
    }
}

/// A sequence of zero counts sums to zero.
pub proof fn lemma_sum32_zeros(s: Seq<u32>)
    requires
        forall|i: int| 0 <= i < s.len() ==> s[i] == 0,
    ensures
        sum_u32(s) == 0,
    decreases s.len(),
{
    if s.len() > 0 {
        lemma_sum32_zeros(s.drop_last());
    }
}

/// The stake pool of one tier: totals for the open epoch, per-number totals
/// for numbers 0..=9, the blocked number and the current fee rate.
#[derive(Clone, Copy)]
pub struct LiveFeed {
    /// Epoch being tracked.
    pub epoch: u64,
    /// First epoch of the current run of carried-over epochs.
    pub first_epoch_in_chain: u64,
    /// Lamports staked across the current chain.
    pub total_lamports: u64,
    /// Lamports carried into the current epoch.
    pub carried_over_lamports: u64,
    /// Bets across the current chain: one per selected number of each stake.
    pub total_bets: u32,
    /// Bets carried into the current epoch.
    pub carried_over_bets: u32,
    /// Minimum slots left in the epoch for a stake to be accepted.
    pub bet_cutoff_slots: u64,
    /// Tier of this pool.
    pub tier: u8,
    /// Custody account of the staked lamports.
    pub treasury: [u8; 32],
    /// How many epochs in a row were carried over (saturates at 255).
    pub epochs_carried_over: u8,
    /// Address bump of the pool account.
    pub bump: u8,
    /// Lamports staked on each number.
    pub lamports_per_number: [u64; 10],
    /// Selections made of each number.
    pub bets_per_number: [u32; 10],
    /// Number excluded from selection (0 disables).
    pub secondary_rollover_number: u8,
    /// Fee rate of the open epoch, in basis points.
    pub current_fee_bps: u16,
}

impl LiveFeed {
    /// The per-number lamports add up to the pool total, and the per-number
    /// counts add up to the bet count (one bet per selected number).
    pub open spec fn wf(&self) -> bool {
        &&& sum_u64(self.lamports_per_number@) == self.total_lamports as int
        &&& sum_u32(self.bets_per_number@) == self.total_bets as int
    }

    /// Nothing staked or carried: the pool may be torn down or reset.
    pub open spec fn is_empty(&self) -> bool {
        &&& self.total_lamports == 0
        &&& self.carried_over_lamports == 0
        &&& self.total_bets == 0
        &&& self.carried_over_bets == 0
    }

    /// Opens the pool for a new chain starting at `epoch`.
    pub fn init_new(
        &mut self,
        epoch: u64,
        cutoff_slots: u64,
        tier: u8,
        treasury: [u8; 32],
        bump: u8,
        fee_bps: u16,
    )
        ensures
            final(self).wf(),
            final(self).is_empty(),
            final(self).epoch == epoch,
            final(self).first_epoch_in_chain == epoch,
            final(self).bet_cutoff_slots == cutoff_slots,
            final(self).tier == tier,
            final(self).treasury == treasury,
            final(self).epochs_carried_over == 0,
            final(self).bump == bump,
            final(self).secondary_rollover_number == 0,
            final(self).current_fee_bps == fee_bps,
            forall|i: int| 0 <= i < 10 ==> final(self).lamports_per_number[i] == 0
                && final(self).bets_per_number[i] == 0,
    {
        self.epoch = epoch;
        self.first_epoch_in_chain = epoch;
        self.total_lamports = 0;
        self.carried_over_lamports = 0;
        self.total_bets = 0;
        self.carried_over_bets = 0;
        self.bet_cutoff_slots = cutoff_slots;
        self.tier = tier;
        self.treasury = treasury;
        self.epochs_carried_over = 0;
        self.bump = bump;
        self.secondary_rollover_number = 0;
        self.current_fee_bps = fee_bps;
        self.clear_per_number_state();
        proof {
            lemma_sum_zeros(self.lamports_per_number@);
            lemma_sum32_zeros(self.bets_per_number@);
        }
    }

    /// Advances the pool into `new_epoch`. Nonzero carry continues the chain
    /// with the carried totals; otherwise a new chain starts empty, with the
    /// given blocked number.
    pub fn reset_for_new_epoch(
        &mut self,
        new_epoch: u64,
        cutoff_slots: u64,
        carry_over_lamports: u64,
        carry_over_bets: u32,
        lamports_per_number: [u64; 10],
        bets_per_number: [u32; 10],
        next_secondary_rollover: u8,
        next_fee_bps: u16,
    )
        requires
            carry_over_lamports > 0 || carry_over_bets > 0 ==> sum_u64(lamports_per_number@)
                == carry_over_lamports as int && sum_u32(bets_per_number@) == carry_over_bets as int,
        ensures
            final(self).wf(),
            final(self).epoch == new_epoch,
            final(self).bet_cutoff_slots == cutoff_slots,
            final(self).current_fee_bps == next_fee_bps,
            final(self).tier == old(self).tier,
            final(self).treasury == old(self).treasury,
            final(self).bump == old(self).bump,
            if carry_over_lamports > 0 || carry_over_bets > 0 {
                &&& final(self).first_epoch_in_chain == old(self).first_epoch_in_chain
                &&& final(self).total_lamports == carry_over_lamports
                &&& final(self).carried_over_lamports == carry_over_lamports
                &&& final(self).total_bets == carry_over_bets
                &&& final(self).carried_over_bets == carry_over_bets
                &&& final(self).lamports_per_number == lamports_per_number
                &&& final(self).bets_per_number == bets_per_number
                &&& final(self).epochs_carried_over == (if old(self).epochs_carried_over < 255 {
                    (old(self).epochs_carried_over + 1) as u8
                } else {
                    255u8
                })
                &&& final(self).secondary_rollover_number == old(self).secondary_rollover_number
            } else {
                &&& final(self).first_epoch_in_chain == new_epoch
                &&& final(self).is_empty()
                &&& final(self).epochs_carried_over == 0
                &&& final(self).secondary_rollover_number == next_secondary_rollover
                &&& forall|i: int| 0 <= i < 10 ==> final(self).lamports_per_number[i] == 0
                    && final(self).bets_per_number[i] == 0
            },
    {
        self.epoch = new_epoch;
        self.bet_cutoff_slots = cutoff_slots;
        self.current_fee_bps = next_fee_bps;
        let is_carry = carry_over_lamports > 0 || carry_over_bets > 0;
        if is_carry {
            self.total_lamports = carry_over_lamports;
            self.carried_over_lamports = carry_over_lamports;
            self.total_bets = carry_over_bets;
            self.carried_over_bets = carry_over_bets;
            self.lamports_per_number = lamports_per_number;
            self.bets_per_number = bets_per_number;
            self.epochs_carried_over = self.epochs_carried_over.saturating_add(1);
            if self.epochs_carried_over == 0 {
                self.epochs_carried_over = 1;
            }
        } else {
            self.first_epoch_in_chain = new_epoch;
            self.epochs_carried_over = 0;
            self.total_lamports = 0;
            self.carried_over_lamports = 0;
            self.total_bets = 0;
            self.carried_over_bets = 0;
            self.secondary_rollover_number = next_secondary_rollover;
            self.clear_per_number_state();
            proof {
                lemma_sum_zeros(self.lamports_per_number@);
            lemma_sum32_zeros(self.bets_per_number@);
            }
        }
    }

    fn clear_per_number_state(&mut self)
        ensures
            final(self).lamports_per_number@ == Seq::new(10, |i: int| 0u64),
            final(self).bets_per_number@ == Seq::new(10, |i: int| 0u32),
            final(self).epoch == old(self).epoch,
            final(self).first_epoch_in_chain == old(self).first_epoch_in_chain,
            final(self).total_lamports == old(self).total_lamports,
            final(self).carried_over_lamports == old(self).carried_over_lamports,
            final(self).total_bets == old(self).total_bets,
            final(self).carried_over_bets == old(self).carried_over_bets,
            final(self).bet_cutoff_slots == old(self).bet_cutoff_slots,
            final(self).tier == old(self).tier,
            final(self).treasury == old(self).treasury,
            final(self).epochs_carried_over == old(self).epochs_carried_over,
            final(self).bump == old(self).bump,
            final(self).secondary_rollover_number == old(self).secondary_rollover_number,
            final(self).current_fee_bps == old(self).current_fee_bps,
    {
        self.lamports_per_number = [0u64; 10];
        self.bets_per_number = [0u32; 10];
        assert(self.lamports_per_number@ == Seq::new(10, |i: int| 0u64));
        assert(self.bets_per_number@ == Seq::new(10, |i: int| 0u32));
    }
}

} // verus!
