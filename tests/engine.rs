use ic42n::{
    apply_per_number_to_live, begin_resolve_game, change_prediction_number, claim_leaf_hash,
    claim_prediction, complete_resolve_game, complete_rollover_game, increase_prediction,
    init_resolved_game, place_prediction, reset_live_feed, retract_per_number_from_live,
    settle_claim, verify_merkle_proof, ClockSnapshot, Config, IC42NErrorCode, LiveFeed,
    PlayerProfile, Prediction, ResolvedGame, TierSettings, Treasury, TYPE_EVEN_ODD,
    TYPE_SINGLE_NUMBER, TYPE_TWO_NUMBERS,
};
use sha2::{Digest, Sha256};

const SOL: u64 = 1_000_000_000;
const PLAYER: [u8; 32] = [7u8; 32];
const OTHER: [u8; 32] = [9u8; 32];

fn tier(id: u8, active: u8, min: u64, max: u64) -> TierSettings {
    TierSettings {
        tier_id: id,
        active,
        min_bet_lamports: min,
        max_bet_lamports: max,
        curve_factor_bits: 0,
        ticket_reward_bps: 1_000,
        ticket_reward_max: 100,
        tickets_per_recipient: 1,
    }
}

fn config() -> Config {
    Config {
        pause_bet: 0,
        pause_withdraw: 0,
        authority: [1u8; 32],
        fee_vault: [2u8; 32],
        base_fee_bps: 500,
        bet_cutoff_slots: 300,
        started_at: 0,
        started_epoch: 0,
        primary_roll_over_number: 0,
        tiers: [
            tier(1, 1, 10_000_000, 10 * SOL),
            tier(2, 0, SOL, 10 * SOL),
            tier(3, 0, 10 * SOL, 100 * SOL),
            tier(4, 0, 0, 0),
            tier(5, 0, 0, 0),
        ],
        bump: 0,
        min_fee_bps: 300,
        rollover_fee_step_bps: 100,
    }
}

fn pool(epoch: u64, blocked: u8) -> LiveFeed {
    let mut live = LiveFeed {
        epoch: 0,
        first_epoch_in_chain: 0,
        total_lamports: 5,
        carried_over_lamports: 5,
        total_bets: 5,
        carried_over_bets: 5,
        bet_cutoff_slots: 0,
        tier: 0,
        treasury: [0u8; 32],
        epochs_carried_over: 3,
        bump: 0,
        lamports_per_number: [1u64; 10],
        bets_per_number: [1u32; 10],
        secondary_rollover_number: 4,
        current_fee_bps: 0,
    };
    live.init_new(epoch, 300, 1, [3u8; 32], 254, 500);
    live.secondary_rollover_number = blocked;
    live
}

fn blank_record() -> Prediction {
    Prediction {
        game_epoch: 0,
        epoch: 0,
        player: [0u8; 32],
        tier: 0,
        prediction_type: 0,
        selection_count: 0,
        selections_mask: 0,
        selections: [0u8; 8],
        lamports: 0,
        changed_count: 0,
        placed_slot: 0,
        placed_at_ts: 0,
        last_updated_at_ts: 0,
        has_claimed: 0,
        claimed_at_ts: 0,
        bump: 0,
        version: 0,
        lamports_per_number: 0,
    }
}

fn blank_profile() -> PlayerProfile {
    PlayerProfile {
        player: [0u8; 32],
        bump: 0,
        tickets_available: 0,
        total_bets: 0,
        total_lamports_wagered: 0,
        last_played_epoch: 0,
        last_played_tier: 0,
        last_played_timestamp: 0,
        xp_points: 0,
        recent_bets: [[0u8; 32]; 40],
        recent_bets_len: 0,
        recent_bets_head: 0,
        locked_until_epoch: 0,
        first_played_epoch: 0,
    }
}

fn treasury() -> Treasury {
    Treasury {
        authority: [1u8; 32],
        tier: 0,
        bump: 0,
        total_in_lamports: 0,
        total_out_lamports: 0,
        total_fees_withdrawn: 0,
        version: 1,
    }
}

fn clock(epoch: u64) -> ClockSnapshot {
    ClockSnapshot { slot: epoch * 1000 + 17, epoch, unix_timestamp: 1_700_000_000 + epoch as i64 }
}

struct Stake {
    live: LiveFeed,
    pred: Prediction,
    profile: PlayerProfile,
    treasury: Treasury,
}

fn stake(
    cfg: &Config,
    live: &mut LiveFeed,
    treasury: &mut Treasury,
    player: [u8; 32],
    kind: u8,
    choice: u32,
    lamports: u64,
) -> (Result<u64, IC42NErrorCode>, Prediction, PlayerProfile) {
    let mut pred = blank_record();
    let mut profile = blank_profile();
    let now = clock(live.epoch);
    let r = place_prediction(
        cfg, live, &mut pred, &mut profile, treasury, player, [42u8; 32], 250, 251, &now, true, 1,
        kind, choice, lamports,
    );
    (r, pred, profile)
}

fn staked_single_seven() -> Stake {
    let cfg = config();
    let mut live = pool(10, 3);
    let mut t = treasury();
    let (r, pred, profile) = stake(&cfg, &mut live, &mut t, PLAYER, TYPE_SINGLE_NUMBER, 7, SOL);
    assert_eq!(r, Ok(SOL));
    Stake { live, pred, profile, treasury: t }
}

#[test]
fn place_single_number_updates_pool() {
    let s = staked_single_seven();
    assert_eq!(s.live.total_lamports, SOL);
    assert_eq!(s.live.total_bets, 1);
    assert_eq!(s.live.bets_per_number[7], 1);
    assert_eq!(s.live.lamports_per_number[7], SOL);
    assert_eq!(s.live.lamports_per_number[3], 0);
    assert_eq!(s.pred.player, PLAYER);
    assert_eq!(s.pred.selection_count, 1);
    assert_eq!(s.pred.selections, [7, 0, 0, 0, 0, 0, 0, 0]);
    assert_eq!(s.pred.selections_mask, 1u16 << 7);
    assert_eq!(s.pred.lamports, SOL);
    assert_eq!(s.pred.lamports, s.pred.lamports_per_number * s.pred.selection_count as u64);
    assert_eq!(s.pred.game_epoch, 10);
    assert_eq!(s.pred.epoch, 10);
    assert_eq!(s.pred.bump, 250);
    assert_eq!(s.treasury.total_in_lamports, SOL);
    assert_eq!(s.profile.player, PLAYER);
    assert_eq!(s.profile.tickets_available, 1);
    assert_eq!(s.profile.locked_until_epoch, 12);
    assert_eq!(s.profile.recent_bets[0], [42u8; 32]);
    assert_eq!(s.profile.recent_bets_head, 1);
    assert_eq!(s.profile.total_lamports_wagered, SOL);
}

#[test]
fn place_multi_selection_stakes_each_number() {
    let cfg = config();
    let mut live = pool(10, 4);
    let mut t = treasury();
    let (r, pred, _) = stake(&cfg, &mut live, &mut t, PLAYER, TYPE_EVEN_ODD, 0, 20_000_000);
    assert_eq!(r, Ok(60_000_000));
    assert_eq!(pred.selections, [2, 6, 8, 0, 0, 0, 0, 0]);
    assert_eq!(pred.lamports, 60_000_000);
    assert_eq!(live.total_lamports, 60_000_000);
    // one bet per selected number, so the per-number counts add up to the total
    assert_eq!(live.total_bets, 3);
    assert_eq!(live.bets_per_number.iter().sum::<u32>(), live.total_bets);
    for n in [2usize, 6, 8] {
        assert_eq!(live.lamports_per_number[n], 20_000_000);
        assert_eq!(live.bets_per_number[n], 1);
    }
    assert_eq!(live.lamports_per_number[4], 0);
}

#[test]
fn place_refusals_leave_state_untouched() {
    let mut cfg = config();
    let mut live = pool(10, 3);
    let mut t = treasury();
    let (r, pred, _) = stake(&cfg, &mut live, &mut t, PLAYER, TYPE_SINGLE_NUMBER, 3, SOL);
    assert_eq!(r, Err(IC42NErrorCode::InvalidBetNumber));
    assert_eq!(pred.player, [0u8; 32]);
    assert_eq!(live.total_lamports, 0);
    let (r, _, _) = stake(&cfg, &mut live, &mut t, PLAYER, TYPE_SINGLE_NUMBER, 7, 0);
    assert_eq!(r, Err(IC42NErrorCode::InvalidBetAmount));
    let (r, _, _) = stake(&cfg, &mut live, &mut t, PLAYER, TYPE_SINGLE_NUMBER, 7, 11 * SOL);
    assert_eq!(r, Err(IC42NErrorCode::BetOutOfTierRange));
    let (r, _, _) = stake(&cfg, &mut live, &mut t, PLAYER, TYPE_SINGLE_NUMBER, 7, 1_000);
    assert_eq!(r, Err(IC42NErrorCode::BetOutOfTierRange));
    cfg.tiers[0].active = 0;
    let (r, _, _) = stake(&cfg, &mut live, &mut t, PLAYER, TYPE_SINGLE_NUMBER, 7, SOL);
    assert_eq!(r, Err(IC42NErrorCode::InactiveTier));
    cfg.tiers[0].active = 1;
    cfg.pause_bet = 1;
    let (r, _, _) = stake(&cfg, &mut live, &mut t, PLAYER, TYPE_SINGLE_NUMBER, 7, SOL);
    assert_eq!(r, Err(IC42NErrorCode::BettingPaused));
    assert_eq!(live.total_lamports, 0);
    assert_eq!(live.total_bets, 0);
    assert_eq!(t.total_in_lamports, 0);
}

#[test]
fn place_checks_epoch_tier_and_cutoff() {
    let cfg = config();
    let mut live = pool(10, 3);
    let mut t = treasury();
    let mut pred = blank_record();
    let mut profile = blank_profile();
    let late = clock(11);
    let r = place_prediction(
        &cfg, &mut live, &mut pred, &mut profile, &mut t, PLAYER, [42u8; 32], 0, 0, &late, true, 1,
        TYPE_SINGLE_NUMBER, 7, SOL,
    );
    assert_eq!(r, Err(IC42NErrorCode::EpochMismatch));
    let now = clock(10);
    let r = place_prediction(
        &cfg, &mut live, &mut pred, &mut profile, &mut t, PLAYER, [42u8; 32], 0, 0, &now, true, 2,
        TYPE_SINGLE_NUMBER, 7, SOL,
    );
    assert_eq!(r, Err(IC42NErrorCode::TierMismatch));
    let r = place_prediction(
        &cfg, &mut live, &mut pred, &mut profile, &mut t, PLAYER, [42u8; 32], 0, 0, &now, false,
        1, TYPE_SINGLE_NUMBER, 7, SOL,
    );
    assert_eq!(r, Err(IC42NErrorCode::BettingClosed));
}

#[test]
fn second_record_in_same_chain_is_refused() {
    let cfg = config();
    let mut s = staked_single_seven();
    let mut profile = s.profile;
    let now = clock(10);
    let r = place_prediction(
        &cfg, &mut s.live, &mut s.pred, &mut profile, &mut s.treasury, PLAYER, [43u8; 32], 0, 0,
        &now, true, 1, TYPE_SINGLE_NUMBER, 5, SOL,
    );
    assert_eq!(r, Err(IC42NErrorCode::AlreadyBetThisGame));
    assert_eq!(s.live.total_lamports, SOL);
}

#[test]
fn increase_raises_every_selected_number() {
    let cfg = config();
    let mut live = pool(10, 5);
    let mut t = treasury();
    let (r, mut pred, mut profile) =
        stake(&cfg, &mut live, &mut t, PLAYER, TYPE_TWO_NUMBERS, 37, SOL);
    assert_eq!(r, Ok(2 * SOL));
    let now = clock(10);
    let r = increase_prediction(
        &cfg, &mut live, &mut pred, &mut profile, &mut t, &now, true, 1, SOL / 2, 1,
    );
    assert_eq!(r, Ok(SOL));
    assert_eq!(pred.lamports_per_number, SOL + SOL / 2);
    assert_eq!(pred.lamports, 3 * SOL);
    assert_eq!(pred.lamports, pred.lamports_per_number * pred.selection_count as u64);
    assert_eq!(pred.changed_count, 1);
    assert_eq!(live.total_lamports, 3 * SOL);
    assert_eq!(live.lamports_per_number[3], SOL + SOL / 2);
    assert_eq!(live.lamports_per_number[7], SOL + SOL / 2);
    assert_eq!(live.bets_per_number[3], 1);
    assert_eq!(t.total_in_lamports, 3 * SOL);
    assert_eq!(profile.total_lamports_wagered, 3 * SOL);
}

#[test]
fn increase_refusals() {
    let cfg = config();
    let mut s = staked_single_seven();
    let now = clock(10);
    let r = increase_prediction(
        &cfg, &mut s.live, &mut s.pred, &mut s.profile, &mut s.treasury, &now, true, 1, 0, 1,
    );
    assert_eq!(r, Err(IC42NErrorCode::InvalidBetAmount));
    let r = increase_prediction(
        &cfg, &mut s.live, &mut s.pred, &mut s.profile, &mut s.treasury, &now, true, 1, SOL, 0,
    );
    assert_eq!(r, Err(IC42NErrorCode::InvalidBetNumber));
    let r = increase_prediction(
        &cfg, &mut s.live, &mut s.pred, &mut s.profile, &mut s.treasury, &now, true, 1,
        10 * SOL, 1,
    );
    assert_eq!(r, Err(IC42NErrorCode::BetOutOfTierRange));
    s.pred.lamports += 1;
    let r = increase_prediction(
        &cfg, &mut s.live, &mut s.pred, &mut s.profile, &mut s.treasury, &now, true, 1, SOL, 1,
    );
    assert_eq!(r, Err(IC42NErrorCode::AssertInvariantFailed));
    s.pred.lamports -= 1;
    s.pred.selections_mask = 1 << 6;
    let r = increase_prediction(
        &cfg, &mut s.live, &mut s.pred, &mut s.profile, &mut s.treasury, &now, true, 1, SOL, 1,
    );
    assert_eq!(r, Err(IC42NErrorCode::InvalidBetNumber));
    assert_eq!(s.live.total_lamports, SOL);
    assert_eq!(s.pred.lamports, SOL);
}

#[test]
fn change_moves_stake_to_new_numbers() {
    let cfg = config();
    let mut live = pool(10, 5);
    let mut t = treasury();
    let (_, mut pred, mut profile) =
        stake(&cfg, &mut live, &mut t, PLAYER, TYPE_TWO_NUMBERS, 37, SOL);
    let now = clock(10);
    let r = change_prediction_number(
        &mut live, &mut pred, &mut profile, &now, true, 1, TYPE_TWO_NUMBERS, 38,
    );
    assert_eq!(r, Ok(()));
    assert_eq!(pred.selections, [3, 8, 0, 0, 0, 0, 0, 0]);
    assert_eq!(pred.selections_mask, (1 << 3) | (1 << 8));
    assert_eq!(pred.lamports, 2 * SOL);
    assert_eq!(pred.lamports, pred.lamports_per_number * pred.selection_count as u64);
    assert_eq!(live.lamports_per_number[3], SOL);
    assert_eq!(live.lamports_per_number[7], 0);
    assert_eq!(live.lamports_per_number[8], SOL);
    assert_eq!(live.bets_per_number[7], 0);
    assert_eq!(live.bets_per_number[8], 1);
    assert_eq!(live.bets_per_number[3], 1);
    assert_eq!(live.total_lamports, 2 * SOL);
    assert_eq!(live.total_bets, 2);
    assert_eq!(live.bets_per_number.iter().sum::<u32>(), live.total_bets);
    assert_eq!(profile.tickets_available, 0);
}

#[test]
fn change_rejects_no_op_and_count_mismatch() {
    let cfg = config();
    let mut live = pool(10, 5);
    let mut t = treasury();
    let (_, mut pred, mut profile) =
        stake(&cfg, &mut live, &mut t, PLAYER, TYPE_TWO_NUMBERS, 37, SOL);
    let now = clock(10);
    let r = change_prediction_number(
        &mut live, &mut pred, &mut profile, &now, true, 1, TYPE_TWO_NUMBERS, 73,
    );
    assert_eq!(r, Err(IC42NErrorCode::NoOpChange));
    let r = change_prediction_number(
        &mut live, &mut pred, &mut profile, &now, true, 1, TYPE_SINGLE_NUMBER, 8,
    );
    assert_eq!(r, Err(IC42NErrorCode::InvalidChoiceCount));
    assert_eq!(pred.selections, [3, 7, 0, 0, 0, 0, 0, 0]);
    assert_eq!(profile.tickets_available, 1);
    profile.tickets_available = 0;
    let r = change_prediction_number(
        &mut live, &mut pred, &mut profile, &now, true, 1, TYPE_TWO_NUMBERS, 38,
    );
    assert_eq!(r, Err(IC42NErrorCode::NoChangeTickets));
}

#[test]
fn change_detects_corrupt_pool() {
    let cfg = config();
    let mut live = pool(10, 5);
    let mut t = treasury();
    let (_, mut pred, mut profile) =
        stake(&cfg, &mut live, &mut t, PLAYER, TYPE_TWO_NUMBERS, 37, SOL);
    live.lamports_per_number[7] = SOL - 1;
    live.lamports_per_number[0] = 1;
    let now = clock(10);
    let r = change_prediction_number(
        &mut live, &mut pred, &mut profile, &now, true, 1, TYPE_TWO_NUMBERS, 38,
    );
    assert_eq!(r, Err(IC42NErrorCode::InvalidLiveFeedState));
    assert_eq!(live.lamports_per_number[3], SOL);
}

#[test]
fn per_number_helpers() {
    let mut live = pool(10, 5);
    let sel = [2u8, 2, 9, 0, 0, 0, 0, 0];
    assert_eq!(apply_per_number_to_live(&mut live, 0, &sel, 3), Err(IC42NErrorCode::InvalidBetAmount));
    assert_eq!(apply_per_number_to_live(&mut live, 5, &sel, 0), Err(IC42NErrorCode::InvalidBetNumber));
    assert_eq!(apply_per_number_to_live(&mut live, 5, &sel, 4), Err(IC42NErrorCode::InvalidBetNumber));
    assert_eq!(apply_per_number_to_live(&mut live, 5, &sel, 3), Ok(()));
    assert_eq!(live.lamports_per_number[2], 10);
    assert_eq!(live.lamports_per_number[9], 5);
    assert_eq!(retract_per_number_from_live(&mut live, 6, &sel, 3), Err(IC42NErrorCode::InvalidLiveFeedState));
    assert_eq!(live.lamports_per_number[2], 10);
    assert_eq!(retract_per_number_from_live(&mut live, 5, &sel, 3), Ok(()));
    assert_eq!(live.lamports_per_number[2], 0);
    assert_eq!(live.lamports_per_number[9], 0);
    live.lamports_per_number[4] = u64::MAX;
    let four = [4u8, 0, 0, 0, 0, 0, 0, 0];
    assert_eq!(apply_per_number_to_live(&mut live, 1, &four, 1), Err(IC42NErrorCode::MathOverflow));
    assert_eq!(live.lamports_per_number[4], u64::MAX);
}

fn open_ledger(live: &LiveFeed, winning: u8) -> ResolvedGame {
    init_resolved_game(&config(), live, &clock(11), 10, 1, winning, 77, [5u8; 32], 200).unwrap()
}

#[test]
fn init_opens_processing_ledger() {
    let s = staked_single_seven();
    let game = open_ledger(&s.live, 7);
    assert_eq!(game.status, 1);
    assert_eq!(game.attempt_count, 1);
    assert_eq!(game.winning_number, 7);
    assert_eq!(game.rng_epoch_slot_used, 77);
    assert_eq!(game.rng_blockhash_used, [5u8; 32]);
    assert_eq!(game.secondary_rollover_number, 3);
    assert_eq!(game.rollover_reason, 0);
    assert!(game.claimed_bitmap.is_empty());
    let early = init_resolved_game(&config(), &s.live, &clock(10), 10, 1, 7, 0, [0u8; 32], 0);
    assert!(matches!(early, Err(IC42NErrorCode::EpochNotComplete)));
    let bad = init_resolved_game(&config(), &s.live, &clock(11), 10, 1, 10, 0, [0u8; 32], 0);
    assert!(matches!(bad, Err(IC42NErrorCode::InvalidWinningNumber)));
    let empty = init_resolved_game(&config(), &pool(10, 3), &clock(11), 10, 1, 7, 0, [0u8; 32], 0);
    assert!(matches!(empty, Err(IC42NErrorCode::NoBetsToResolve)));
}

#[test]
fn reprocess_bumps_attempts_until_resolved() {
    let s = staked_single_seven();
    let mut game = open_ledger(&s.live, 7);
    game.status = 0;
    assert_eq!(begin_resolve_game(&config(), &s.live, &mut game, &clock(12), 10, 1), Ok(()));
    assert_eq!(game.status, 1);
    assert_eq!(game.attempt_count, 2);
    assert_eq!(game.last_updated_slot, clock(12).slot);
    game.status = 2;
    assert_eq!(
        begin_resolve_game(&config(), &s.live, &mut game, &clock(12), 10, 1),
        Err(IC42NErrorCode::GameAlreadyResolved)
    );
    assert_eq!(game.attempt_count, 2);
}

fn uri() -> [u8; 128] {
    let mut u = [0u8; 128];
    u[0] = b'a';
    u
}

#[test]
fn finalize_with_winners_charges_fee() {
    let mut s = staked_single_seven();
    let mut game = open_ledger(&s.live, 7);
    let fee = SOL * 500 / 10_000;
    let net = SOL - fee;
    let r = complete_resolve_game(
        &config(), &mut s.live, &mut game, &mut s.treasury, &clock(11), SOL, 10, 1, fee, net, 1,
        [8u8; 32], uri(),
    );
    assert_eq!(r, Ok(fee));
    assert_eq!(fee, 50_000_000);
    assert_eq!(game.status, 2);
    assert_eq!(game.protocol_fee_lamports, fee);
    assert_eq!(game.net_prize_pool, net);
    assert!(game.protocol_fee_lamports + game.net_prize_pool <= SOL);
    assert_eq!(game.carry_out_lamports, 0);
    assert_eq!(game.total_winners, 1);
    assert_eq!(game.claimed_bitmap, vec![0u8]);
    assert_eq!(game.fee_bps, 500);
    assert_eq!(s.treasury.total_fees_withdrawn, fee);
    // the pool restarts with the winning number blocked
    assert_eq!(s.live.epoch, 11);
    assert_eq!(s.live.first_epoch_in_chain, 11);
    assert_eq!(s.live.total_lamports, 0);
    assert_eq!(s.live.lamports_per_number[7], 0);
    assert_eq!(s.live.secondary_rollover_number, 7);
    assert_eq!(s.live.current_fee_bps, 500);
}

#[test]
fn finalize_without_winners_carries_everything() {
    let mut s = staked_single_seven();
    let mut game = open_ledger(&s.live, 2);
    let r = complete_resolve_game(
        &config(), &mut s.live, &mut game, &mut s.treasury, &clock(11), SOL, 10, 1, 0, SOL, 0,
        [8u8; 32], uri(),
    );
    assert_eq!(r, Ok(0));
    assert_eq!(game.protocol_fee_lamports, 0);
    assert_eq!(game.net_prize_pool, SOL);
    assert_eq!(game.carry_out_lamports, SOL);
    assert_eq!(game.carry_over_bets, 1);
    assert!(game.claimed_bitmap.is_empty());
    assert_eq!(s.treasury.total_fees_withdrawn, 0);
    assert_eq!(s.live.epoch, 11);
    assert_eq!(s.live.first_epoch_in_chain, 10);
    assert_eq!(s.live.total_lamports, SOL);
    assert_eq!(s.live.carried_over_lamports, SOL);
    assert_eq!(s.live.lamports_per_number[7], SOL);
    assert_eq!(s.live.bets_per_number[7], 1);
    assert_eq!(s.live.epochs_carried_over, 1);
    assert_eq!(s.live.secondary_rollover_number, 3);
}

#[test]
fn finalize_refuses_untrusted_breakdown() {
    let mut s = staked_single_seven();
    let mut game = open_ledger(&s.live, 7);
    let fee = SOL * 500 / 10_000;
    let cfg = config();
    let r = complete_resolve_game(
        &cfg, &mut s.live, &mut game, &mut s.treasury, &clock(11), SOL, 10, 1, fee + 1, SOL - fee, 1,
        [8u8; 32], uri(),
    );
    assert_eq!(r, Err(IC42NErrorCode::InvalidFee));
    let r = complete_resolve_game(
        &cfg, &mut s.live, &mut game, &mut s.treasury, &clock(11), SOL, 10, 1, fee, SOL, 1,
        [8u8; 32], uri(),
    );
    assert_eq!(r, Err(IC42NErrorCode::InvalidPotBreakdown));
    let r = complete_resolve_game(
        &cfg, &mut s.live, &mut game, &mut s.treasury, &clock(11), SOL, 10, 1, fee, SOL - fee, 1,
        [8u8; 32], [0u8; 128],
    );
    assert_eq!(r, Err(IC42NErrorCode::EmptyResultsUri));
    let r = complete_resolve_game(
        &cfg, &mut s.live, &mut game, &mut s.treasury, &clock(11), SOL - 1, 10, 1, fee, SOL - fee,
        1, [8u8; 32], uri(),
    );
    assert_eq!(r, Err(IC42NErrorCode::InsufficientTreasuryBalance));
    let r = complete_resolve_game(
        &cfg, &mut s.live, &mut game, &mut s.treasury, &clock(11), SOL, 10, 1, fee, SOL - fee,
        60_000, [8u8; 32], uri(),
    );
    assert_eq!(r, Err(IC42NErrorCode::TooManyWinners));
    assert_eq!(game.status, 1);
    assert_eq!(s.live.total_lamports, SOL);
    game.status = 2;
    let r = complete_resolve_game(
        &cfg, &mut s.live, &mut game, &mut s.treasury, &clock(11), SOL, 10, 1, fee, SOL - fee, 1,
        [8u8; 32], uri(),
    );
    assert_eq!(r, Err(IC42NErrorCode::GameNotInResolvingState));
}

#[test]
fn rollover_on_blocked_number_decays_fee() {
    let cfg = config();
    let mut live = pool(10, 3);
    let mut t = treasury();
    let (_, _, _) = stake(&cfg, &mut live, &mut t, PLAYER, TYPE_SINGLE_NUMBER, 7, SOL);
    let (_, _, _) = stake(&cfg, &mut live, &mut t, OTHER, TYPE_TWO_NUMBERS, 12, SOL / 2);
    let before = live;
    let game = complete_rollover_game(&cfg, &mut live, &clock(11), 2 * SOL, 10, 1, 3, 5, [6u8; 32], 9)
        .unwrap();
    assert_eq!(game.rollover_reason, 2);
    assert_eq!(game.status, 2);
    assert_eq!(game.carry_out_lamports, 2 * SOL);
    assert_eq!(game.protocol_fee_lamports, 0);
    assert_eq!(game.net_prize_pool, 2 * SOL);
    assert_eq!(game.total_winners, 0);
    assert_eq!(game.carry_over_bets, 3);
    assert_eq!(live.current_fee_bps, 400);
    assert_eq!(live.epoch, 11);
    assert_eq!(live.first_epoch_in_chain, 10);
    assert_eq!(live.total_lamports, before.total_lamports);
    assert_eq!(live.total_bets, before.total_bets);
    assert_eq!(live.carried_over_lamports, 2 * SOL);
    assert_eq!(live.carried_over_bets, 3);
    assert_eq!(live.lamports_per_number, before.lamports_per_number);
    assert_eq!(live.bets_per_number, before.bets_per_number);
    assert_eq!(live.secondary_rollover_number, 3);
}

#[test]
fn rollover_without_stake_on_winner_keeps_fee() {
    let cfg = config();
    let mut live = pool(10, 3);
    let mut t = treasury();
    let (_, _, _) = stake(&cfg, &mut live, &mut t, PLAYER, TYPE_SINGLE_NUMBER, 7, SOL);
    live.current_fee_bps = 250;
    let game = complete_rollover_game(&cfg, &mut live, &clock(11), SOL, 10, 1, 5, 5, [6u8; 32], 9)
        .unwrap();
    assert_eq!(game.rollover_reason, 1);
    assert_eq!(live.current_fee_bps, 300);
    let mut live2 = pool(10, 3);
    let (_, _, _) = stake(&cfg, &mut live2, &mut t, PLAYER, TYPE_SINGLE_NUMBER, 7, SOL);
    let r = complete_rollover_game(&cfg, &mut live2, &clock(11), SOL, 10, 1, 7, 5, [6u8; 32], 9);
    assert!(matches!(r, Err(IC42NErrorCode::CarryNotAllowed)));
    let r = complete_rollover_game(&cfg, &mut live2, &clock(11), SOL - 1, 10, 1, 3, 5, [6u8; 32], 9);
    assert!(matches!(r, Err(IC42NErrorCode::InsufficientTreasuryBalance)));
    assert_eq!(live2.epoch, 10);
}

#[test]
fn reset_only_wipes_an_idle_pool() {
    let cfg = config();
    let mut live = pool(10, 3);
    assert_eq!(reset_live_feed(&cfg, &mut live, &clock(15), 1, 0), Err(IC42NErrorCode::InvalidRollOverNumber));
    assert_eq!(reset_live_feed(&cfg, &mut live, &clock(9), 1, 4), Err(IC42NErrorCode::EpochNotAdvanced));
    assert_eq!(reset_live_feed(&cfg, &mut live, &clock(15), 1, 4), Ok(()));
    assert_eq!(live.epoch, 15);
    assert_eq!(live.first_epoch_in_chain, 15);
    assert_eq!(live.secondary_rollover_number, 4);
    let mut t = treasury();
    let (_, _, _) = stake(&cfg, &mut live, &mut t, PLAYER, TYPE_SINGLE_NUMBER, 7, SOL);
    assert_eq!(reset_live_feed(&cfg, &mut live, &clock(16), 1, 4), Err(IC42NErrorCode::LiveFeedNotEmpty));
}

fn hash_pair(a: &[u8; 32], b: &[u8; 32]) -> [u8; 32] {
    let mut h = Sha256::new();
    h.update(a);
    h.update(b);
    h.finalize().into()
}

#[test]
fn merkle_proof_is_checked_level_by_level() {
    let leaf0 = claim_leaf_hash(10, 1, 0, &PLAYER, 5, 1 << 7);
    let leaf1 = claim_leaf_hash(10, 1, 1, &OTHER, 6, 1 << 2);
    assert_ne!(leaf0, leaf1);
    let root = hash_pair(&leaf0, &leaf1);
    assert!(verify_merkle_proof(&leaf0, &[leaf1], &root, 0));
    assert!(verify_merkle_proof(&leaf1, &[leaf0], &root, 1));
    assert!(!verify_merkle_proof(&leaf0, &[leaf1], &root, 1));
    assert!(!verify_merkle_proof(&leaf0, &[], &root, 0));
    assert!(verify_merkle_proof(&leaf0, &[], &leaf0, 0));
}

#[test]
fn claim_leaf_commits_to_tagged_fields() {
    let mut pre = Vec::new();
    pre.extend_from_slice(b"IC42N_V2");
    pre.extend_from_slice(&10u64.to_le_bytes());
    pre.push(1u8);
    pre.extend_from_slice(&3u32.to_le_bytes());
    pre.extend_from_slice(&PLAYER);
    pre.extend_from_slice(&123u64.to_le_bytes());
    pre.extend_from_slice(&(1u16 << 7).to_le_bytes());
    let expected: [u8; 32] = Sha256::digest(&pre).into();
    assert_eq!(claim_leaf_hash(10, 1, 3, &PLAYER, 123, 1 << 7), expected);
}

struct Settled {
    s: Stake,
    other_pred: Prediction,
    game: ResolvedGame,
    leaf0: [u8; 32],
    leaf1: [u8; 32],
    prize: u64,
}

fn settled_two_winners() -> Settled {
    let cfg = config();
    let mut live = pool(10, 3);
    let mut t = treasury();
    let (_, pred, profile) = stake(&cfg, &mut live, &mut t, PLAYER, TYPE_SINGLE_NUMBER, 7, SOL);
    let (_, other_pred, _) = stake(&cfg, &mut live, &mut t, OTHER, TYPE_TWO_NUMBERS, 27, SOL);
    let gross = 3 * SOL;
    let fee = gross * 500 / 10_000;
    let net = gross - fee;
    let prize = net / 2;
    let leaf0 = claim_leaf_hash(10, 1, 0, &PLAYER, prize, pred.selections_mask);
    let leaf1 = claim_leaf_hash(10, 1, 1, &OTHER, prize, other_pred.selections_mask);
    let root = hash_pair(&leaf0, &leaf1);
    let mut game = open_ledger(&live, 7);
    let r = complete_resolve_game(
        &cfg, &mut live, &mut game, &mut t, &clock(11), gross, 10, 1, fee, net, 2, root, uri(),
    );
    assert_eq!(r, Ok(fee));
    Settled { s: Stake { live, pred, profile, treasury: t }, other_pred, game, leaf0, leaf1, prize }
}

#[test]
fn claim_pays_once_per_index() {
    let mut st = settled_two_winners();
    let now = clock(12);
    let r = claim_prediction(
        &mut st.game, &mut st.s.pred, &mut st.s.treasury, PLAYER, &now, 10 * SOL, 10, 1, 0,
        st.prize, &[st.leaf1],
    );
    assert_eq!(r, Ok(()));
    assert_eq!(st.game.claimed_bitmap, vec![1u8]);
    assert_eq!(st.game.claimed_winners, 1);
    assert_eq!(st.game.claimed_lamports, st.prize);
    assert_eq!(st.s.pred.has_claimed, 1);
    assert_eq!(st.s.pred.claimed_at_ts, now.unix_timestamp);
    assert_eq!(st.s.treasury.total_out_lamports, st.prize);
    let again = claim_prediction(
        &mut st.game, &mut st.s.pred, &mut st.s.treasury, PLAYER, &now, 10 * SOL, 10, 1, 0,
        st.prize, &[st.leaf1],
    );
    assert_eq!(again, Err(IC42NErrorCode::AlreadyClaimed));
    assert_eq!(st.game.claimed_winners, 1);
    let second = claim_prediction(
        &mut st.game, &mut st.other_pred, &mut st.s.treasury, OTHER, &now, 10 * SOL, 10, 1, 1,
        st.prize, &[st.leaf0],
    );
    assert_eq!(second, Ok(()));
    assert_eq!(st.game.claimed_bitmap, vec![3u8]);
    assert_eq!(st.game.claimed_winners, 2);
}

#[test]
fn claim_index_past_winners_is_invalid() {
    let mut st = settled_two_winners();
    let now = clock(12);
    for index in [2u32, 8, 1000] {
        let r = claim_prediction(
            &mut st.game, &mut st.s.pred, &mut st.s.treasury, PLAYER, &now, 10 * SOL, 10, 1,
            index, st.prize, &[st.leaf1],
        );
        assert_eq!(r, Err(IC42NErrorCode::InvalidClaimIndex));
    }
}

#[test]
fn claim_refusals() {
    let mut st = settled_two_winners();
    let now = clock(12);
    let p = st.prize;
    let l1 = st.leaf1;
    // wrong proof
    let r = claim_prediction(&mut st.game, &mut st.s.pred, &mut st.s.treasury, PLAYER, &now, 10 * SOL, 10, 1, 0, p, &[st.leaf0]);
    assert_eq!(r, Err(IC42NErrorCode::InvalidProof));
    // wrong amount changes the leaf
    let r = claim_prediction(&mut st.game, &mut st.s.pred, &mut st.s.treasury, PLAYER, &now, 10 * SOL, 10, 1, 0, p - 1, &[l1]);
    assert_eq!(r, Err(IC42NErrorCode::InvalidProof));
    let r = claim_prediction(&mut st.game, &mut st.s.pred, &mut st.s.treasury, PLAYER, &now, 10 * SOL, 10, 1, 0, 0, &[l1]);
    assert_eq!(r, Err(IC42NErrorCode::InvalidClaimAmount));
    let long = vec![l1; 41];
    let r = claim_prediction(&mut st.game, &mut st.s.pred, &mut st.s.treasury, PLAYER, &now, 10 * SOL, 10, 1, 0, p, &long);
    assert_eq!(r, Err(IC42NErrorCode::ProofTooLong));
    let r = claim_prediction(&mut st.game, &mut st.s.pred, &mut st.s.treasury, OTHER, &now, 10 * SOL, 10, 1, 0, p, &[l1]);
    assert_eq!(r, Err(IC42NErrorCode::Unauthorized));
    let r = claim_prediction(&mut st.game, &mut st.s.pred, &mut st.s.treasury, PLAYER, &now, p - 1, 10, 1, 0, p, &[l1]);
    assert_eq!(r, Err(IC42NErrorCode::InsufficientTreasuryBalance));
    let r = claim_prediction(&mut st.game, &mut st.s.pred, &mut st.s.treasury, PLAYER, &now, 10 * SOL, 11, 1, 0, p, &[l1]);
    assert_eq!(r, Err(IC42NErrorCode::EpochMismatch));
    let root = st.game.merkle_root;
    st.game.merkle_root = [0u8; 32];
    let r = claim_prediction(&mut st.game, &mut st.s.pred, &mut st.s.treasury, PLAYER, &now, 10 * SOL, 10, 1, 0, p, &[l1]);
    assert_eq!(r, Err(IC42NErrorCode::EmptyMerkleRoot));
    st.game.merkle_root = root;
    st.game.claimed_lamports = st.game.net_prize_pool - p + 1;
    let r = claim_prediction(&mut st.game, &mut st.s.pred, &mut st.s.treasury, PLAYER, &now, 10 * SOL, 10, 1, 0, p, &[l1]);
    assert_eq!(r, Err(IC42NErrorCode::InsufficientPrizePool));
    assert_eq!(st.game.claimed_winners, 0);
    assert_eq!(st.s.pred.has_claimed, 0);
}

#[test]
fn settle_claim_takes_the_proof_outcome() {
    let mut st = settled_two_winners();
    let now = clock(12);
    let p = st.prize;
    let r = settle_claim(&mut st.game, &mut st.s.pred, &mut st.s.treasury, PLAYER, &now, 10 * SOL, 10, 1, 0, p, 1, false);
    assert_eq!(r, Err(IC42NErrorCode::InvalidProof));
    let r = settle_claim(&mut st.game, &mut st.s.pred, &mut st.s.treasury, PLAYER, &now, 10 * SOL, 10, 1, 0, p, 1, true);
    assert_eq!(r, Ok(()));
    assert_eq!(st.game.claimed_bitmap, vec![1u8]);
}

#[test]
fn end_to_end_stake_settle_claim() {
    let cfg = config();
    let mut live = pool(10, 3);
    let mut t = treasury();
    let (r, mut pred, _) = stake(&cfg, &mut live, &mut t, PLAYER, TYPE_SINGLE_NUMBER, 7, SOL);
    assert_eq!(r, Ok(SOL));
    assert_eq!(live.total_lamports, SOL);
    assert_eq!(live.bets_per_number[7], 1);
    let mut game = open_ledger(&live, 7);
    let fee = SOL * 500 / 10_000;
    let net = SOL - fee;
    let leaf = claim_leaf_hash(10, 1, 0, &PLAYER, net, pred.selections_mask);
    let r = complete_resolve_game(
        &cfg, &mut live, &mut game, &mut t, &clock(11), SOL, 10, 1, fee, net, 1, leaf, uri(),
    );
    assert_eq!(r, Ok(fee));
    assert_eq!(game.status, 2);
    assert_eq!(game.net_prize_pool, SOL - fee);
    let now = clock(11);
    let r = claim_prediction(&mut game, &mut pred, &mut t, PLAYER, &now, net, 10, 1, 0, net, &[]);
    assert_eq!(r, Ok(()));
    assert!(ic42n::is_claimed(&game.claimed_bitmap, 0));
    assert_eq!(game.claimed_bitmap[0] & 1, 1);
    let r = claim_prediction(&mut game, &mut pred, &mut t, PLAYER, &now, net, 10, 1, 0, net, &[]);
    assert_eq!(r, Err(IC42NErrorCode::AlreadyClaimed));
}

#[test]
fn increase_refuses_repeated_numbers() {
    let cfg = config();
    let mut live = pool(10, 5);
    let mut t = treasury();
    let (_, mut pred, mut profile) =
        stake(&cfg, &mut live, &mut t, PLAYER, TYPE_TWO_NUMBERS, 37, SOL);
    // a stored list naming 3 twice, with a mask that agrees with it
    pred.selections = [3, 3, 0, 0, 0, 0, 0, 0];
    pred.selections_mask = 1 << 3;
    let now = clock(10);
    let r = increase_prediction(
        &cfg, &mut live, &mut pred, &mut profile, &mut t, &now, true, 1, SOL / 2, 1,
    );
    assert_eq!(r, Err(IC42NErrorCode::InvalidBetNumber));
    assert_eq!(live.lamports_per_number[3], SOL);
    assert_eq!(live.total_lamports, 2 * SOL);
}

#[test]
fn change_refuses_inconsistent_record() {
    let cfg = config();
    let mut live = pool(10, 5);
    let mut t = treasury();
    let (_, mut pred, mut profile) =
        stake(&cfg, &mut live, &mut t, PLAYER, TYPE_TWO_NUMBERS, 37, SOL);
    let now = clock(10);
    // mask disagrees with the stored list
    pred.selections_mask = (1 << 3) | (1 << 9);
    let r = change_prediction_number(
        &mut live, &mut pred, &mut profile, &now, true, 1, TYPE_TWO_NUMBERS, 38,
    );
    assert_eq!(r, Err(IC42NErrorCode::InvalidBetNumber));
    // repeated number
    pred.selections = [3, 3, 0, 0, 0, 0, 0, 0];
    pred.selections_mask = 1 << 3;
    let r = change_prediction_number(
        &mut live, &mut pred, &mut profile, &now, true, 1, TYPE_TWO_NUMBERS, 38,
    );
    assert_eq!(r, Err(IC42NErrorCode::InvalidBetNumber));
    assert_eq!(live.lamports_per_number[3], SOL);
    assert_eq!(live.bets_per_number[3], 1);
    assert_eq!(profile.tickets_available, 1);
}
