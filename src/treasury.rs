//! Custody accounting counters.
use vstd::prelude::*;

verus! {

/// Aggregate counters of the custody account: value received, paid out and
/// withdrawn as fees.
#[derive(Clone, Copy)]
pub struct Treasury {
    /// Who controls the custody account.
    pub authority: [u8; 32],
    /// Tier served (0 for all tiers).
    pub tier: u8,
    /// Address bump of the custody account.
    pub bump: u8,
    /// Lamports ever received as stakes.
    pub total_in_lamports: u64,
    /// Lamports ever paid to winners.
    pub total_out_lamports: u64,
    /// Lamports ever withdrawn as fees.
    pub total_fees_withdrawn: u64,
    /// Layout version.
    pub version: u8,
}

} // verus!
