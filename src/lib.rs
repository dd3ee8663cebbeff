//! Settlement and claims engine for a tiered, pari-mutuel number-prediction game.
//!
//! Players stake on subsets of the numbers 1..=9 for an epoch; when it ends a
//! resolver proposes winners, a Merkle root and a fee breakdown, which the
//! engine recomputes and checks before settling; winners then claim once each
//! against the root.

mod bitmap;
mod claim;
mod clock;
mod config;
mod errors;
mod live_feed;
mod merkle;
mod pool_math;
mod prediction;
mod profile;
mod resolve;
mod resolved_game;
mod selection;
mod settlement;
mod staking;
mod treasury;

pub use bitmap::{bit_of, claimed_at, is_claimed, set_claimed};
pub use claim::{
    claim_applied, claim_prediction, claim_refusal, lemma_claim_index_out_of_range,
    lemma_second_claim_refused, settle_claim, MAX_PROOF_LEN,
};
pub use clock::{
    betting_window_open, epoch_of_slot, is_betting_still_open, pow2_saturating, saturate,
    schedule_covers_slot, slot_in_range, spec_betting_window_open, spec_epoch_of,
    spec_first_slot_in_epoch, spec_slots_in_epoch, ClockSnapshot, SlotSchedule,
    MINIMUM_SLOTS_PER_EPOCH,
};
pub use config::{
    fee_refusal, find_tier, is_amount_in_tier, is_reserved, tier_index, updated_globals,
    updated_tier, updated_tiers, Config, ConfigUpdate, CurveFactorUpdate, ReservedKeys,
    TierSettings, TierUpdate, FEE_BPS_DENOM, MAX_TICKETS_PER_RECIPIENT, MIN_CUTOFF_SLOTS,
};
pub use errors::IC42NErrorCode;
pub use live_feed::{
    lemma_entry_le_sum, lemma_entry_le_sum32, lemma_sum32_update, lemma_sum32_zeros,
    lemma_sum_update, lemma_sum_zeros, sum_u32, sum_u64, LiveFeed,
};
pub use merkle::{
    bytes32_eq, claim_leaf_hash, claim_leaf_preimage, claim_leaf_tag, le_bytes, merkle_fold,
    merkle_parent, sha256_of, verify_merkle_proof,
};
pub use pool_math::{
    apply_per_number_to_live, check_canonical_list, check_selection_list, covers_removal, fits_after_adding,
    occurrences, retract_per_number_from_live, selection_list_canonical, selection_list_ok, shifted_by,
};
pub use prediction::{is_unset_key, key_is_unset, Prediction, PREDICTION_VERSION};
pub use profile::{
    award_ticket_auto, award_ticket_manual, award_tickets_to_profile, close_profile,
    tickets_after_grant, PlayerProfile, MAX_TICKETS_PER_GRANT, MAX_TICKETS_PER_PLAYER,
    RECENT_BETS_CAP,
};
pub use resolve::{
    get_next_rollover_number, next_fee_bps_on_rollover, spec_next_fee_on_rollover,
    spec_next_rollover_number,
};
pub use resolved_game::{
    GameStatus, ResolvedGame, RolloverReason, MAX_BITMAP_LEN, MAX_WINNERS_PER_GAME,
    RESOLVED_GAME_VERSION,
};
pub use selection::{
    ascending_where, derive_prediction_selections, digit_selection, digits_of,
    eligible_numbers, has_parity, in_list, in_mask, is_digit_of, lemma_ascending_ext,
    lemma_list_count, lemma_selection_canonical, lemma_selection_mask_exact,
    lemma_single_digit_selection,
    lemma_mask_of_bits, lemma_selection_mask_round_trip, mask_bit, not_blocked, padded8, selection_for,
    selection_mask, selection_matches, spec_mask_of, valid_digit_choice, TYPE_EVEN_ODD,
    TYPE_HIGH_LOW, TYPE_MULTI_NUMBER, TYPE_SINGLE_NUMBER, TYPE_TWO_NUMBERS,
};
pub use settlement::{
    begin_resolve_game, bitmap_len_for, carried_into, check_tier_closable, complete_resolve_game,
    complete_rollover_game, compute_fee_split, fee_after_rollover, fee_after_rollovers,
    finalize_refusal, init_refusal, init_resolved_game, is_rollover_number,
    lemma_fee_floor_across_rollovers, lemma_settlement_split_bounded, reprocess_refusal,
    reset_live_feed, reset_refusal, restarted, rollover_refusal, settle_window_refusal,
    settlement_split, spec_fee, uri_is_set,
};
pub use staking::{
    bets_after_change, bets_change_refusal, change_prediction_number, change_refusal,
    increase_prediction, increase_refusal, lemma_change_refusals, place_prediction, place_refusal,
};
pub use treasury::Treasury;
