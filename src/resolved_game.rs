//! The settlement ledger of one concluded epoch of one tier.
use vstd::prelude::*;

verus! {

/// Layout version written by new ledgers.
pub const RESOLVED_GAME_VERSION: u8 = 2;
/// Largest number of winners one ledger can track.
pub const MAX_WINNERS_PER_GAME: usize = 50_000;
/// Largest claim bitmap, in bytes.
pub const MAX_BITMAP_LEN: usize = (MAX_WINNERS_PER_GAME + 7) / 8;

/// Ledger status.
#[derive(Debug, Clone, Copy, PartialEq, Eq, Structural)]
pub enum GameStatus {
    /// Set only by outside convention; reprocessing returns it to Processing.
    Failed,
    /// Created, waiting for the off-core results.
    Processing,
    /// Final; only claims change it.
    Resolved,
}

impl GameStatus {
    /// The stored code of a status.
    pub open spec fn spec_code(self) -> u8 {
        match self {
            GameStatus::Failed => 0,
            GameStatus::Processing => 1,
            GameStatus::Resolved => 2,
        }
    }

    /// The stored code of a status.
    pub fn as_u8(self) -> (r: u8)
        ensures
            r == self.spec_code(),
    {
        match self {
            GameStatus::Failed => 0,
            GameStatus::Processing => 1,
            GameStatus::Resolved => 2,
        }
    }
}

/// Why a pool was carried into the next epoch.
#[derive(Debug, Clone, Copy, PartialEq, Eq, Structural)]
pub enum RolloverReason {
    /// Not carried.
    NoRollover,
    /// Nobody staked on the winning number.
    NoWinners,
    /// The winning number was 0 or the blocked number.
    RolloverNumber,
}

impl RolloverReason {
    /// The stored code of a reason.
    pub open spec fn spec_code(self) -> u8 {
        match self {
            RolloverReason::NoRollover => 0,
            RolloverReason::NoWinners => 1,
            RolloverReason::RolloverNumber => 2,
        }
    }

    /// The stored code of a reason.
    pub fn as_u8(self) -> (r: u8)
        ensures
            r == self.spec_code(),
    {
        match self {
            RolloverReason::NoRollover => 0,
            RolloverReason::NoWinners => 1,
            RolloverReason::RolloverNumber => 2,
        }
    }
}

/// Snapshot of a concluded epoch of one tier: pot breakdown, winners, Merkle
/// root and claim bitmap.
pub struct ResolvedGame {
    /// Epoch settled.
    pub epoch: u64,
    /// Tier settled.
    pub tier: u8,
    /// Code of a `GameStatus`.
    pub status: u8,
    /// Address bump of the ledger account.
    pub bump: u8,
    /// Winning number (0..=9).
    pub winning_number: u8,
    /// Slot index the randomness was read at (audit only).
    pub rng_epoch_slot_used: u64,
    /// Seed the randomness came from (audit only).
    pub rng_blockhash_used: [u8; 32],
    /// Processing attempts (saturates).
    pub attempt_count: u8,
    /// Slot of the last update.
    pub last_updated_slot: u64,
    /// Time of the last update.
    pub last_updated_ts: i64,
    /// Bets carried out to the next epoch.
    pub carry_over_bets: u32,
    /// Bets in the settled pool.
    pub total_bets: u32,
    /// Lamports carried into the settled epoch.
    pub carry_in_lamports: u64,
    /// Lamports carried out to the next epoch.
    pub carry_out_lamports: u64,
    /// Fee charged.
    pub protocol_fee_lamports: u64,
    /// Lamports available to winners.
    pub net_prize_pool: u64,
    /// Number of winners.
    pub total_winners: u32,
    /// Winners paid so far.
    pub claimed_winners: u32,
    /// Time of resolution (0 until resolved).
    pub resolved_at: i64,
    /// Root of the winners' Merkle tree.
    pub merkle_root: [u8; 32],
    /// Where the full results are published.
    pub results_uri: [u8; 128],
    /// One bit per winner index, set once paid.
    pub claimed_bitmap: Vec<u8>,
    /// Layout version.
    pub version: u8,
    /// Lamports paid so far.
    pub claimed_lamports: u64,
    /// First epoch of the settled chain.
    pub first_epoch_in_chain: u64,
    /// Code of a `RolloverReason`.
    pub rollover_reason: u8,
    /// Blocked number of the settled epoch.
    pub secondary_rollover_number: u8,
    /// Fee rate applied, in basis points.
    pub fee_bps: u16,
}

} // verus!
