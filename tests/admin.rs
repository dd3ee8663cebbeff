use anchor_lang::solana_program::epoch_schedule::EpochSchedule;
use ic42n::{
    award_ticket_auto, award_ticket_manual, award_tickets_to_profile, betting_window_open,
    check_tier_closable, close_profile, compute_fee_split, is_amount_in_tier,
    is_betting_still_open, schedule_covers_slot, ClockSnapshot, SlotSchedule, Config, ConfigUpdate, CurveFactorUpdate,
    IC42NErrorCode, LiveFeed, PlayerProfile, ReservedKeys, TierSettings, TierUpdate,
};

fn tier(id: u8, active: u8, min: u64, max: u64) -> TierSettings {
    TierSettings {
        tier_id: id,
        active,
        min_bet_lamports: min,
        max_bet_lamports: max,
        curve_factor_bits: 0,
        ticket_reward_bps: 1_000,
        ticket_reward_max: 100,
        tickets_per_recipient: 2,
    }
}

fn config() -> Config {
    Config {
        pause_bet: 0,
        pause_withdraw: 0,
        authority: [1u8; 32],
        fee_vault: [2u8; 32],
        base_fee_bps: 500,
        bet_cutoff_slots: 300,
        started_at: 0,
        started_epoch: 0,
        primary_roll_over_number: 0,
        tiers: [
            tier(1, 1, 10, 100),
            tier(2, 0, 100, 1_000),
            tier(3, 0, 0, 0),
            tier(4, 0, 0, 0),
            tier(5, 0, 0, 0),
        ],
        bump: 0,
        min_fee_bps: 300,
        rollover_fee_step_bps: 100,
    }
}

fn no_change() -> ConfigUpdate {
    ConfigUpdate {
        pause_bet: None,
        pause_withdraw: None,
        new_authority: None,
        new_fee_vault: None,
        new_fee_bps: None,
        new_min_fee_bps: None,
        new_rollover_fee_step_bps: None,
        new_cutoff_slots: None,
        new_roll_over_number: None,
    }
}

fn no_tier_change(id: u8) -> TierUpdate {
    TierUpdate {
        tier_id: id,
        active: None,
        min_bet_lamports: None,
        max_bet_lamports: None,
        curve_factor: None,
        ticket_reward_bps: None,
        ticket_reward_max: None,
        tickets_rewarded: None,
    }
}

fn reserved() -> ReservedKeys {
    ReservedKeys { system_program: [0u8; 32], program: [8u8; 32], config: [9u8; 32] }
}

fn profile() -> PlayerProfile {
    PlayerProfile {
        player: [7u8; 32],
        bump: 0,
        tickets_available: 0,
        total_bets: 0,
        total_lamports_wagered: 0,
        last_played_epoch: 0,
        last_played_tier: 0,
        last_played_timestamp: 0,
        xp_points: 0,
        recent_bets: [[0u8; 32]; 40],
        recent_bets_len: 0,
        recent_bets_head: 0,
        locked_until_epoch: 12,
        first_played_epoch: 0,
    }
}

#[test]
fn update_sets_pause_flags_and_fees() {
    let mut cfg = config();
    let mut u = no_change();
    u.pause_bet = Some(1);
    u.pause_withdraw = Some(7);
    u.new_fee_bps = Some(600);
    u.new_min_fee_bps = Some(200);
    u.new_cutoff_slots = Some(500);
    assert_eq!(cfg.update(&u, &vec![], &reserved()), Ok(()));
    assert_eq!(cfg.pause_bet, 1);
    assert_eq!(cfg.pause_withdraw, 0);
    assert!(cfg.is_betting_paused());
    assert_eq!(cfg.base_fee_bps, 600);
    assert_eq!(cfg.min_fee_bps, 200);
    assert_eq!(cfg.bet_cutoff_slots, 500);
}

#[test]
fn update_refuses_bad_fee_bounds_atomically() {
    let mut cfg = config();
    let mut u = no_change();
    u.pause_bet = Some(1);
    u.new_min_fee_bps = Some(600);
    assert_eq!(cfg.update(&u, &vec![], &reserved()), Err(IC42NErrorCode::InvalidFeeConfig));
    assert_eq!(cfg.pause_bet, 0);
    let mut u = no_change();
    u.new_fee_bps = Some(10_001);
    assert_eq!(cfg.update(&u, &vec![], &reserved()), Err(IC42NErrorCode::InvalidFee));
    let mut u = no_change();
    u.new_rollover_fee_step_bps = Some(501);
    assert_eq!(cfg.update(&u, &vec![], &reserved()), Err(IC42NErrorCode::InvalidFeeStep));
    let mut u = no_change();
    u.new_cutoff_slots = Some(20);
    assert_eq!(cfg.update(&u, &vec![], &reserved()), Err(IC42NErrorCode::InvalidCutOffNumber));
    let mut u = no_change();
    u.new_roll_over_number = Some(10);
    assert_eq!(cfg.update(&u, &vec![], &reserved()), Err(IC42NErrorCode::InvalidRollOverNumber));
    assert_eq!(cfg.base_fee_bps, 500);
}

#[test]
fn update_guards_authority_and_vault() {
    let mut cfg = config();
    let mut u = no_change();
    u.new_authority = Some([0u8; 32]);
    assert_eq!(cfg.update(&u, &vec![], &reserved()), Err(IC42NErrorCode::InvalidAuthorityTarget));
    u.new_authority = Some([8u8; 32]);
    assert_eq!(cfg.update(&u, &vec![], &reserved()), Err(IC42NErrorCode::InvalidAuthorityTarget));
    u.new_authority = Some([2u8; 32]);
    assert_eq!(cfg.update(&u, &vec![], &reserved()), Err(IC42NErrorCode::InvalidAuthorityTarget));
    let mut u = no_change();
    u.new_fee_vault = Some([1u8; 32]);
    assert_eq!(cfg.update(&u, &vec![], &reserved()), Err(IC42NErrorCode::InvalidFeeVault));
    let mut u = no_change();
    u.new_authority = Some([5u8; 32]);
    u.new_fee_vault = Some([6u8; 32]);
    assert_eq!(cfg.update(&u, &vec![], &reserved()), Ok(()));
    assert_eq!(cfg.authority, [5u8; 32]);
    assert_eq!(cfg.fee_vault, [6u8; 32]);
}

#[test]
fn update_patches_tiers_in_order() {
    let mut cfg = config();
    let mut a = no_tier_change(2);
    a.active = Some(1);
    a.curve_factor = Some(CurveFactorUpdate { bits: 0x3F66_6666, is_finite: true, is_positive: true });
    a.ticket_reward_bps = Some(0);
    a.ticket_reward_max = Some(0);
    a.tickets_rewarded = Some(3);
    assert_eq!(cfg.update(&no_change(), &vec![a], &reserved()), Ok(()));
    assert_eq!(cfg.tiers[1].active, 1);
    assert_eq!(cfg.tiers[1].curve_factor_bits, 0x3F66_6666);
    assert_eq!(cfg.tiers[1].ticket_reward_max, 0);
    assert_eq!(cfg.tiers[1].tickets_per_recipient, 3);
}

#[test]
fn update_refuses_bad_tier_changes() {
    let mut cfg = config();
    let unknown = no_tier_change(9);
    assert_eq!(cfg.update(&no_change(), &vec![unknown], &reserved()), Err(IC42NErrorCode::UnknownTier));
    let mut flag = no_tier_change(1);
    flag.active = Some(2);
    assert_eq!(cfg.update(&no_change(), &vec![flag], &reserved()), Err(IC42NErrorCode::InvalidTierFlag));
    let mut bounds = no_tier_change(1);
    bounds.min_bet_lamports = Some(100);
    assert_eq!(cfg.update(&no_change(), &vec![bounds], &reserved()), Err(IC42NErrorCode::InvalidTierBounds));
    let mut curve = no_tier_change(1);
    curve.curve_factor = Some(CurveFactorUpdate { bits: 0, is_finite: true, is_positive: false });
    assert_eq!(cfg.update(&no_change(), &vec![curve], &reserved()), Err(IC42NErrorCode::InvalidCurveValue));
    let mut max = no_tier_change(1);
    max.ticket_reward_max = Some(0);
    assert_eq!(cfg.update(&no_change(), &vec![max], &reserved()), Err(IC42NErrorCode::InvalidTicketMax));
    let mut bps = no_tier_change(1);
    bps.ticket_reward_bps = Some(10_001);
    assert_eq!(cfg.update(&no_change(), &vec![bps], &reserved()), Err(IC42NErrorCode::InvalidTicketBps));
    let mut tickets = no_tier_change(1);
    tickets.tickets_rewarded = Some(101);
    let mut first = no_tier_change(2);
    first.min_bet_lamports = Some(1);
    assert_eq!(
        cfg.update(&no_change(), &vec![first, tickets], &reserved()),
        Err(IC42NErrorCode::InvalidTicketAmount)
    );
    assert_eq!(cfg.tiers[1].min_bet_lamports, 100);
}

#[test]
fn fee_bounds_check() {
    assert_eq!(Config::check_fee_bounds(500, 300, 100), Ok(()));
    assert_eq!(Config::check_fee_bounds(10_001, 300, 100), Err(IC42NErrorCode::InvalidFee));
    assert_eq!(Config::check_fee_bounds(500, 10_001, 100), Err(IC42NErrorCode::InvalidMinimumFee));
    assert_eq!(Config::check_fee_bounds(500, 300, 10_001), Err(IC42NErrorCode::InvalidFeeStep));
    assert_eq!(Config::check_fee_bounds(500, 600, 100), Err(IC42NErrorCode::InvalidFeeConfig));
    assert_eq!(Config::check_fee_bounds(500, 300, 600), Err(IC42NErrorCode::InvalidFeeStep));
}

#[test]
fn tier_lookup_and_bounds() {
    let cfg = config();
    let t = cfg.get_tier_settings(2).unwrap();
    assert_eq!(t.min_bet_lamports, 100);
    assert!(!t.is_active());
    assert!(cfg.get_tier_settings(1).unwrap().is_active());
    assert!(matches!(cfg.get_tier_settings(6), Err(IC42NErrorCode::UnknownTier)));
    assert!(t.is_valid_bet(100));
    assert!(t.is_valid_bet(1_000));
    assert!(!t.is_valid_bet(1_001));
    assert!(is_amount_in_tier(500, &t));
    assert!(!is_amount_in_tier(99, &t));
}

#[test]
fn fee_split_rounds_down() {
    assert_eq!(compute_fee_split(1_000_000_000, 500, 3), Ok((50_000_000, 950_000_000)));
    assert_eq!(compute_fee_split(999, 500, 1), Ok((49, 950)));
    assert_eq!(compute_fee_split(999, 500, 0), Ok((0, 999)));
    assert_eq!(compute_fee_split(u64::MAX, 500, 1), Err(IC42NErrorCode::MathOverflow));
    assert_eq!(compute_fee_split(100, 20_000, 1), Err(IC42NErrorCode::MathOverflow));
}

#[test]
fn ring_keeps_last_forty() {
    let mut p = profile();
    for i in 0..45u8 {
        p.push_recent_bet([i; 32]);
    }
    assert_eq!(p.recent_bets_len, 40);
    assert_eq!(p.recent_bets_head, 5);
    assert_eq!(p.recent_bets[4], [44u8; 32]);
    assert_eq!(p.recent_bets[5], [5u8; 32]);
}

#[test]
fn tickets_are_capped() {
    let mut p = profile();
    award_tickets_to_profile(&mut p, 30);
    assert_eq!(p.tickets_available, 30);
    award_tickets_to_profile(&mut p, u32::MAX);
    assert_eq!(p.tickets_available, 100);
    let mut q = profile();
    assert_eq!(award_ticket_manual(&mut q, 0), Err(IC42NErrorCode::InvalidTicketAmount));
    assert_eq!(award_ticket_manual(&mut q, 6), Err(IC42NErrorCode::InvalidTicketAmount));
    assert_eq!(award_ticket_manual(&mut q, 5), Ok(()));
    assert_eq!(q.tickets_available, 5);
    let cfg = config();
    assert_eq!(award_ticket_auto(&cfg, &mut q, 1), Ok(()));
    assert_eq!(q.tickets_available, 7);
    assert_eq!(award_ticket_auto(&cfg, &mut q, 7), Err(IC42NErrorCode::UnknownTier));
}

#[test]
fn profile_close_waits_for_lock() {
    let p = profile();
    assert_eq!(close_profile(&p, 11), Err(IC42NErrorCode::ProfileLockedActiveGame));
    assert_eq!(close_profile(&p, 12), Ok(()));
}

#[test]
fn cutoff_window() {
    // consistent view: 432000-slot epoch starting at 0
    assert!(betting_window_open(0, 0, 0, 432_000, 100, 300));
    assert!(!betting_window_open(0, 0, 0, 432_000, 431_699, 300));
    assert!(betting_window_open(0, 0, 0, 432_000, 431_698, 300));
    assert!(!betting_window_open(0, 0, 0, 432_000, 500_000, 300));
    // the schedule disagrees with the clock: fail open
    assert!(betting_window_open(5, 4, 0, 432_000, 431_999, 300));
}

fn slots_of(e: &EpochSchedule) -> SlotSchedule {
    SlotSchedule {
        slots_per_epoch: e.slots_per_epoch,
        leader_schedule_slot_offset: e.leader_schedule_slot_offset,
        warmup: e.warmup,
        first_normal_epoch: e.first_normal_epoch,
        first_normal_slot: e.first_normal_slot,
    }
}

/// The cutoff computed directly from the cluster's schedule type.
fn expected_open(e: &EpochSchedule, clock: &ClockSnapshot, cutoff: u64) -> bool {
    let epoch = e.get_epoch(clock.slot);
    if epoch != clock.epoch {
        return true;
    }
    let last = e
        .get_first_slot_in_epoch(epoch)
        .saturating_add(e.get_slots_in_epoch(epoch))
        .saturating_sub(1);
    last.saturating_sub(clock.slot) > cutoff
}

#[test]
fn cutoff_from_schedule() {
    let schedule = EpochSchedule::without_warmup();
    let s = slots_of(&schedule);
    let slots = schedule.slots_per_epoch;
    let early = ClockSnapshot { slot: 3 * slots + 10, epoch: 3, unix_timestamp: 0 };
    assert!(is_betting_still_open(&s, &early, 300));
    let late = ClockSnapshot { slot: 4 * slots - 100, epoch: 3, unix_timestamp: 0 };
    assert!(!is_betting_still_open(&s, &late, 300));
    let skewed = ClockSnapshot { slot: 4 * slots - 100, epoch: 2, unix_timestamp: 0 };
    assert!(is_betting_still_open(&s, &skewed, 300));
}

#[test]
fn cutoff_during_warmup() {
    let schedule = EpochSchedule::custom(8_192, 8_192, true);
    let s = slots_of(&schedule);
    for slot in [0u64, 20, 31, 32, 90, 95, 1_000, 8_100, 16_300, 16_360, 40_000] {
        let epoch = schedule.get_epoch(slot);
        let clock = ClockSnapshot { slot, epoch, unix_timestamp: 0 };
        assert_eq!(is_betting_still_open(&s, &clock, 10), expected_open(&schedule, &clock, 10));
    }
    // the third warmup epoch (slots 96..224) closes 10 slots before its end
    let near_end = ClockSnapshot { slot: 213, epoch: 2, unix_timestamp: 0 };
    assert!(!is_betting_still_open(&s, &near_end, 10));
    let before = ClockSnapshot { slot: 212, epoch: 2, unix_timestamp: 0 };
    assert!(is_betting_still_open(&s, &before, 10));
}

#[test]
fn schedule_range_guard() {
    let mut s = slots_of(&EpochSchedule::custom(8_192, 8_192, true));
    assert!(schedule_covers_slot(&s, 1 << 62));
    s.first_normal_slot = u64::MAX;
    assert!(schedule_covers_slot(&s, (1u64 << 63) - 33));
    assert!(!schedule_covers_slot(&s, 1u64 << 63));
}

#[test]
fn pool_teardown_needs_empty_pool() {
    let mut live = LiveFeed {
        epoch: 1,
        first_epoch_in_chain: 1,
        total_lamports: 0,
        carried_over_lamports: 0,
        total_bets: 0,
        carried_over_bets: 0,
        bet_cutoff_slots: 300,
        tier: 1,
        treasury: [0u8; 32],
        epochs_carried_over: 0,
        bump: 0,
        lamports_per_number: [0u64; 10],
        bets_per_number: [0u32; 10],
        secondary_rollover_number: 0,
        current_fee_bps: 500,
    };
    assert_eq!(check_tier_closable(&live, 2), Err(IC42NErrorCode::InvalidTier));
    assert_eq!(check_tier_closable(&live, 1), Ok(()));
    live.total_bets = 1;
    assert_eq!(check_tier_closable(&live, 1), Err(IC42NErrorCode::LiveFeedNotEmpty));
}
