//! Paying a winner once: Merkle-proof gated, bitmap protected.
use vstd::prelude::*;

use crate::bitmap::{claimed_at, is_claimed, set_claimed};
use crate::clock::ClockSnapshot;
use crate::errors::IC42NErrorCode;
use crate::merkle::{claim_leaf_hash, claim_leaf_preimage, merkle_fold, sha256_of, verify_merkle_proof};
use crate::pool_math::{check_selection_list, selection_list_ok};
use crate::prediction::{is_unset_key, key_is_unset, Prediction};
use crate::resolved_game::{GameStatus, ResolvedGame};
use crate::selection::spec_mask_of;
use crate::settlement::bitmap_len_for;
use crate::treasury::Treasury;

verus! {

/// Longest Merkle proof accepted.
pub const MAX_PROOF_LEN: usize = 40;

/// Why a claim is refused, in the order the checks run; `None` when it is
/// paid. `proof_ok` says whether the proof leads from the claim's leaf to the
/// ledger's root.
pub open spec fn claim_refusal(
    game: ResolvedGame,
    pred: Prediction,
    treasury: Treasury,
    claimer: [u8; 32],
    custody_balance: u64,
    epoch: u64,
    tier: u8,
    index: u32,
    amount: u64,
    proof_len: nat,
    proof_ok: bool,
) -> Option<IC42NErrorCode> {
    if game.resolved_at == 0 {
        Some(IC42NErrorCode::GameNotResolved)
    } else if pred.player@ != claimer@ {
        Some(IC42NErrorCode::Unauthorized)
    } else if pred.tier != tier {
        Some(IC42NErrorCode::TierMismatch)
    } else if pred.game_epoch != game.first_epoch_in_chain {
        Some(IC42NErrorCode::EpochMismatch)
    } else if proof_len > MAX_PROOF_LEN {
        Some(IC42NErrorCode::ProofTooLong)
    } else if pred.lamports != pred.spec_expected_total() {
        Some(IC42NErrorCode::AssertInvariantFailed)
    } else if game.status != GameStatus::Resolved.spec_code() {
        Some(IC42NErrorCode::GameNotResolved)
    } else if game.epoch != epoch {
        Some(IC42NErrorCode::EpochMismatch)
    } else if game.tier != tier {
        Some(IC42NErrorCode::TierMismatch)
    } else if amount == 0 {
        Some(IC42NErrorCode::InvalidClaimAmount)
    } else if game.total_winners == 0 {
        Some(IC42NErrorCode::ClaimNotAllowed)
    } else if index >= game.total_winners {
        Some(IC42NErrorCode::InvalidClaimIndex)
    } else if game.claimed_bitmap@.len() != bitmap_len_for(game.total_winners) {
        Some(IC42NErrorCode::InvalidBitmapLen)
    } else if claimed_at(game.claimed_bitmap@, index) {
        Some(IC42NErrorCode::AlreadyClaimed)
    } else if game.claimed_winners >= game.total_winners {
        Some(IC42NErrorCode::TooManyClaims)
    } else if !selection_list_ok(pred.selections, pred.selection_count) || spec_mask_of(
        pred.active_selections(),
    ) != pred.selections_mask {
        Some(IC42NErrorCode::InvalidBetNumber)
    } else if pred.has_claimed != 0 {
        Some(IC42NErrorCode::AlreadyClaimed)
    } else if is_unset_key(game.merkle_root) {
        Some(IC42NErrorCode::EmptyMerkleRoot)
    } else if !proof_ok {
        Some(IC42NErrorCode::InvalidProof)
    } else if game.net_prize_pool < game.claimed_lamports {
        Some(IC42NErrorCode::MathOverflow)
    } else if amount > game.net_prize_pool - game.claimed_lamports {
        Some(IC42NErrorCode::InsufficientPrizePool)
    } else if custody_balance < amount {
        Some(IC42NErrorCode::InsufficientTreasuryBalance)
    } else if treasury.total_out_lamports + amount > u64::MAX {
        Some(IC42NErrorCode::MathOverflow)
    } else {
        None
    }
}

/// The effect of paying `amount` to winner `index` at time `now`: the index's
/// bit is set, the ledger's claim counters and the custody payout counter
/// grow, and the record is marked paid.
pub open spec fn claim_applied(
    game_before: ResolvedGame,
    game_after: ResolvedGame,
    pred_before: Prediction,
    pred_after: Prediction,
    treasury_before: Treasury,
    treasury_after: Treasury,
    index: u32,
    amount: u64,
    now: i64,
) -> bool {
    &&& game_after.claimed_bitmap@.len() == game_before.claimed_bitmap@.len()
    &&& forall|j: u32| #[trigger]
        claimed_at(game_after.claimed_bitmap@, j) == (j == index || claimed_at(
            game_before.claimed_bitmap@,
            j,
        ))
    &&& game_after == (ResolvedGame {
        claimed_bitmap: game_after.claimed_bitmap,
        claimed_lamports: (game_before.claimed_lamports + amount) as u64,
        claimed_winners: (game_before.claimed_winners + 1) as u32,
        ..game_before
    })
    &&& pred_after == (Prediction { has_claimed: 1, claimed_at_ts: now, ..pred_before })
    &&& treasury_after == (Treasury {
        total_out_lamports: (treasury_before.total_out_lamports + amount) as u64,
        ..treasury_before
    })
}

/// Pays winner `index` once the proof has been checked: `proof_ok` is the
/// outcome of the Merkle check. On success the caller moves `amount` from
/// custody to the claimer.
pub fn settle_claim(
    game: &mut ResolvedGame,
    pred: &mut Prediction,
    treasury: &mut Treasury,
    claimer: [u8; 32],
    clock: &ClockSnapshot,
    custody_balance: u64,
    epoch: u64,
    tier: u8,
    index: u32,
    amount: u64,
    proof_len: usize,
    proof_ok: bool,
) -> (r: Result<(), IC42NErrorCode>)
    ensures
        match claim_refusal(
            *old(game),
            *old(pred),
            *old(treasury),
            claimer,
            custody_balance,
            epoch,
            tier,
            index,
            amount,
            proof_len as nat,
            proof_ok,
        ) {
            Some(e) => {
                &&& r == Err::<(), IC42NErrorCode>(e)
                &&& *final(game) == *old(game)
                &&& *final(pred) == *old(pred)
                &&& *final(treasury) == *old(treasury)
            },
            None => r is Ok && claim_applied(
                *old(game),
                *final(game),
                *old(pred),
                *final(pred),
                *old(treasury),
                *final(treasury),
                index,
                amount,
                clock.unix_timestamp,
            ),
        },
{
    if game.resolved_at == 0 {
        return Err(IC42NErrorCode::GameNotResolved);
    }
    if !crate::merkle::bytes32_eq(&pred.player, &claimer) {
        return Err(IC42NErrorCode::Unauthorized);
    }
    if pred.tier != tier {
        return Err(IC42NErrorCode::TierMismatch);
    }
    if pred.game_epoch != game.first_epoch_in_chain {
        return Err(IC42NErrorCode::EpochMismatch);
    }
    if proof_len > MAX_PROOF_LEN {
        return Err(IC42NErrorCode::ProofTooLong);
    }
    pred.assert_invariant()?;
    if game.status != GameStatus::Resolved.as_u8() {
        return Err(IC42NErrorCode::GameNotResolved);
    }
    if game.epoch != epoch {
        return Err(IC42NErrorCode::EpochMismatch);
    }
    if game.tier != tier {
        return Err(IC42NErrorCode::TierMismatch);
    }
    if amount == 0 {
        return Err(IC42NErrorCode::InvalidClaimAmount);
    }
    if game.total_winners == 0 {
        return Err(IC42NErrorCode::ClaimNotAllowed);
    }
    if index >= game.total_winners {
        return Err(IC42NErrorCode::InvalidClaimIndex);
    }
    let expected_len = ((game.total_winners as u64) + 7) / 8;
    if game.claimed_bitmap.len() as u64 != expected_len {
        return Err(IC42NErrorCode::InvalidBitmapLen);
    }
    if is_claimed(&game.claimed_bitmap, index) {
        return Err(IC42NErrorCode::AlreadyClaimed);
    }
    if game.claimed_winners >= game.total_winners {
        return Err(IC42NErrorCode::TooManyClaims);
    }
    if !check_selection_list(&pred.selections, pred.selection_count)
        || pred.recompute_mask_from_selections() != pred.selections_mask {
        return Err(IC42NErrorCode::InvalidBetNumber);
    }
    if pred.has_claimed != 0 {
        return Err(IC42NErrorCode::AlreadyClaimed);
    }
    if key_is_unset(&game.merkle_root) {
        return Err(IC42NErrorCode::EmptyMerkleRoot);
    }
    if !proof_ok {
        return Err(IC42NErrorCode::InvalidProof);
    }
    let remaining = match game.net_prize_pool.checked_sub(game.claimed_lamports) {
        Some(v) => v,
        None => {
            return Err(IC42NErrorCode::MathOverflow);
        },
    };
    if amount > remaining {
        return Err(IC42NErrorCode::InsufficientPrizePool);
    }
    if custody_balance < amount {
        return Err(IC42NErrorCode::InsufficientTreasuryBalance);
    }
    let total_out = match treasury.total_out_lamports.checked_add(amount) {
        Some(v) => v,
        None => {
            return Err(IC42NErrorCode::MathOverflow);
        },
    };

    // Every check passed: apply.
    set_claimed(&mut game.claimed_bitmap, index);
    game.claimed_lamports = game.claimed_lamports + amount;
    game.claimed_winners = game.claimed_winners + 1;
    pred.has_claimed = 1;
    pred.claimed_at_ts = clock.unix_timestamp;
    treasury.total_out_lamports = total_out;
    Ok(())
}

/// Claims the payout of winner `index` of (`epoch`, `tier`) for `claimer`,
/// proving with `proof` that the winner's leaf is under the ledger's root.
/// On success the caller moves `amount` from custody to the claimer.
pub fn claim_prediction(
    game: &mut ResolvedGame,
    pred: &mut Prediction,
    treasury: &mut Treasury,
    claimer: [u8; 32],
    clock: &ClockSnapshot,
    custody_balance: u64,
    epoch: u64,
    tier: u8,
    index: u32,
    amount: u64,
    proof: &[[u8; 32]],
) -> (r: Result<(), IC42NErrorCode>)
    ensures
        match claim_refusal(
            *old(game),
            *old(pred),
            *old(treasury),
            claimer,
            custody_balance,
            epoch,
            tier,
            index,
            amount,
            proof@.len(),
            merkle_fold(
                sha256_of(
                    claim_leaf_preimage(
                        epoch,
                        tier,
                        index,
                        claimer,
                        amount,
                        old(pred).selections_mask,
                    ),
                ),
                proof@,
                index as nat,
            ) == old(game).merkle_root@,
        ) {
            Some(e) => {
                &&& r == Err::<(), IC42NErrorCode>(e)
                &&& *final(game) == *old(game)
                &&& *final(pred) == *old(pred)
                &&& *final(treasury) == *old(treasury)
            },
            None => r is Ok && claim_applied(
                *old(game),
                *final(game),
                *old(pred),
                *final(pred),
                *old(treasury),
                *final(treasury),
                index,
                amount,
                clock.unix_timestamp,
            ),
        },
{
    let leaf = claim_leaf_hash(epoch, tier, index, &claimer, amount, pred.selections_mask);
    let proof_ok = verify_merkle_proof(&leaf, proof, &game.merkle_root, index);
    settle_claim(
        game,
        pred,
        treasury,
        claimer,
        clock,
        custody_balance,
        epoch,
        tier,
        index,
        amount,
        proof.len(),
        proof_ok,
    )
}

/// A paid index cannot be paid again: after a claim succeeds, the same claim
/// on the resulting state is refused as already claimed, whatever proof comes
/// with it.
pub proof fn lemma_second_claim_refused(
    game: ResolvedGame,
    pred: Prediction,
    treasury: Treasury,
    game2: ResolvedGame,
    pred2: Prediction,
    treasury2: Treasury,
    claimer: [u8; 32],
    custody_balance: u64,
    custody_balance2: u64,
    epoch: u64,
    tier: u8,
    index: u32,
    amount: u64,
    proof_len: nat,
    proof_ok: bool,
    proof_ok2: bool,
    now: i64,
)
    requires
        claim_refusal(
            game,
            pred,
            treasury,
            claimer,
            custody_balance,
            epoch,
            tier,
            index,
            amount,
            proof_len,
            proof_ok,
        ) is None,
        claim_applied(game, game2, pred, pred2, treasury, treasury2, index, amount, now),
    ensures
        claim_refusal(
            game2,
            pred2,
            treasury2,
            claimer,
            custody_balance2,
            epoch,
            tier,
            index,
            amount,
            proof_len,
            proof_ok2,
        ) == Some(IC42NErrorCode::AlreadyClaimed),
{
    assert(claimed_at(game2.claimed_bitmap@, index));
    assert(pred2.spec_expected_total() == pred.spec_expected_total());
}

/// An index at or past the number of winners is refused as an invalid index
/// once the claim is otherwise well formed up to that point.
pub proof fn lemma_claim_index_out_of_range(
    game: ResolvedGame,
    pred: Prediction,
    treasury: Treasury,
    claimer: [u8; 32],
    custody_balance: u64,
    index: u32,
    amount: u64,
    proof_len: nat,
    proof_ok: bool,
)
    requires
        game.resolved_at != 0,
        pred.player@ == claimer@,
        pred.tier == game.tier,
        pred.game_epoch == game.first_epoch_in_chain,
        proof_len <= MAX_PROOF_LEN,
        pred.lamports == pred.spec_expected_total(),
        game.status == GameStatus::Resolved.spec_code(),
        amount > 0,
        game.total_winners > 0,
        index >= game.total_winners,
    ensures
        claim_refusal(
            game,
            pred,
            treasury,
            claimer,
            custody_balance,
            game.epoch,
            game.tier,
            index,
            amount,
            proof_len,
            proof_ok,
        ) == Some(IC42NErrorCode::InvalidClaimIndex),
{
}

} // verus!
