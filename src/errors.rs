//! Error kinds returned by every fallible operation of the engine.
use vstd::prelude::*;

verus! {

/// Why an operation was refused. Every refusal leaves all state untouched.
#[derive(Debug, Clone, Copy, PartialEq, Eq, Structural)]
pub enum IC42NErrorCode {
    // Setup and configuration
    EpochMismatch,
    TierMismatch,
    InvalidTierBounds,
    InvalidAuthorityTarget,
    InvalidTierFlag,
    InvalidRollOverNumber,
    InvalidCutOffNumber,
    // General / access control
    Unauthorized,
    AuthorityCannotEqualFeeVault,
    InvalidFeeConfig,
    InvalidLiveFeedState,
    MathOverflow,
    InvalidInput,
    InvalidFee,
    InvalidMinimumFee,
    InvalidFeeStep,
    InvalidCurveValue,
    GameNotFound,
    UnknownTier,
    InvalidTicketBps,
    InvalidTicketMax,
    // Tiers
    InactiveTier,
    InvalidTier,
    EpochNotAdvanced,
    LiveFeedNotEmpty,
    // Game / epoch lifecycle
    GameAlreadyResolved,
    GameNotResolved,
    EpochPotNotInitialized,
    // Staking
    AlreadyBetThisGame,
    BettingClosed,
    BettingPaused,
    NoOpChange,
    TreasuryMismatch,
    BetOutOfTierRange,
    InvalidChoiceCount,
    AssertInvariantFailed,
    InvalidBetNumber,
    InvalidBetAmount,
    NoChangeTickets,
    // Tickets
    InvalidTicketAmount,
    // Resolution
    CarryNotAllowed,
    GameAlreadyResolvingOrResolved,
    GameNotInResolvingState,
    NoBetsToResolve,
    EmptyResultsUri,
    InvalidFeeVault,
    EpochNotComplete,
    InvalidWinningNumber,
    TooManyWinners,
    InvalidNetPoolPlusNet,
    InvalidPotBreakdown,
    InvalidCarryOver,
    InsufficientTreasuryBalance,
    BitmapTooLarge,
    // Merkle / claims
    InvalidBitmapLen,
    InsufficientPrizePool,
    ProofTooLong,
    InvalidClaimAmount,
    EmptyMerkleRoot,
    InvalidProof,
    AlreadyClaimed,
    InvalidIndex,
    ClaimNotAllowed,
    BitmapOutOfBounds,
    InvalidClaimIndex,
    TooManyClaims,
    ProfileLockedActiveGame,
}

} // verus!
