//! Staking while a pool is open: placing a record, raising its stake, and
//! changing its selection.
use vstd::prelude::*;

use crate::clock::ClockSnapshot;
use crate::config::{find_tier, is_amount_in_tier, Config};
use crate::errors::IC42NErrorCode;
use crate::live_feed::{
    lemma_entry_le_sum, lemma_entry_le_sum32, lemma_sum32_update, sum_u32, sum_u64, LiveFeed,
};
use crate::pool_math::{
    apply_per_number_to_live, check_canonical_list, lemma_occurrences_distinct,
    lemma_occurrences_mono, occurrences, retract_per_number_from_live, selection_list_canonical,
    selection_list_ok,
};
use crate::prediction::{is_unset_key, key_is_unset, Prediction, PREDICTION_VERSION};
use crate::profile::PlayerProfile;
use crate::selection::{
    ascending_where, derive_prediction_selections, in_list, in_mask, lemma_ascending_ext,
    lemma_list_count, lemma_mask_of_bits, lemma_selection_canonical, mask_bit, padded8,
    selection_for, spec_mask_of,
};
use crate::treasury::Treasury;

verus! {

/// Why placing a record is refused, in the order the checks run; `None` when
/// it is accepted.
pub open spec fn place_refusal(
    config: Config,
    live: LiveFeed,
    pred: Prediction,
    treasury: Treasury,
    clock: ClockSnapshot,
    betting_open: bool,
    tier: u8,
    prediction_type: u8,
    choice: u32,
    lamports: u64,
) -> Option<IC42NErrorCode> {
    let sel = selection_for(prediction_type, choice, live.secondary_rollover_number);
    if config.pause_bet != 0 {
        Some(IC42NErrorCode::BettingPaused)
    } else if lamports == 0 {
        Some(IC42NErrorCode::InvalidBetAmount)
    } else if clock.epoch != live.epoch {
        Some(IC42NErrorCode::EpochMismatch)
    } else if live.tier != tier {
        Some(IC42NErrorCode::TierMismatch)
    } else if !betting_open {
        Some(IC42NErrorCode::BettingClosed)
    } else if sel is None {
        Some(IC42NErrorCode::InvalidBetNumber)
    } else {
        let s = sel->Some_0;
        let total = lamports * s.len();
        match find_tier(config.tiers@, tier) {
            None => Some(IC42NErrorCode::UnknownTier),
            Some(t) => if t.active == 0 {
                Some(IC42NErrorCode::InactiveTier)
            } else if !(t.min_bet_lamports <= lamports <= t.max_bet_lamports) {
                Some(IC42NErrorCode::BetOutOfTierRange)
            } else if total > u64::MAX {
                Some(IC42NErrorCode::MathOverflow)
            } else if !is_unset_key(pred.player) {
                Some(IC42NErrorCode::AlreadyBetThisGame)
            } else if live.total_bets + s.len() > u32::MAX || live.total_lamports + total
                > u64::MAX || treasury.total_in_lamports + total > u64::MAX {
                Some(IC42NErrorCode::MathOverflow)
            } else {
                None
            },
        }
    }
}

proof fn lemma_take_push(s: Seq<u8>, i: int)
    requires
        0 <= i < s.len(),
    ensures
        s.take(i + 1) == s.take(i).push(s[i]),
        forall|x: u8| #[trigger] s.take(i + 1).contains(x) <==> (s.take(i).contains(x) || x == s[i]),
{
    assert(s.take(i + 1) == s.take(i).push(s[i]));
    assert forall|x: u8| #[trigger] s.take(i + 1).contains(x) <==> (s.take(i).contains(x) || x
        == s[i]) by {
        if s.take(i + 1).contains(x) {
            let t = s.take(i + 1);
            let j = choose|j: int| 0 <= j < t.len() && t[j] == x;
            if j < i {
                assert(s.take(i)[j] == x);
            }
        }
        if s.take(i).contains(x) {
            let t = s.take(i);
            let j = choose|j: int| 0 <= j < t.len() && t[j] == x;
            assert(s.take(i + 1)[j] == x);
        }
        if x == s[i] {
            assert(s.take(i + 1)[i] == x);
        }
    }
}

/// Adds one selection count for each number of a canonical selection.
fn count_selections(bets: [u32; 10], selections: &[u8; 8], k: u8, s: Ghost<Seq<u8>>) -> (r: [u32;
    10])
    requires
        s@.len() == k,
        k <= 8,
        sum_u32(bets@) + k <= u32::MAX,
        forall|i: int| 0 <= i < k ==> selections@[i] == s@[i],
        forall|i: int| 0 <= i < s@.len() ==> 1 <= #[trigger] s@[i] <= 9,
        forall|i: int, j: int| 0 <= i < j < s@.len() ==> s@[i] < s@[j],
    ensures
        sum_u32(r@) == sum_u32(bets@) + k,
        forall|n: int|
            0 <= n < 10 ==> #[trigger] r[n] == bets[n] + if s@.contains(n as u8) {
                1int
            } else {
                0int
            },
{
    let mut out = bets;
    let mut i: usize = 0;
    while i < k as usize
        invariant
            s@.len() == k,
            k <= 8,
            i <= k,
            sum_u32(bets@) + k <= u32::MAX,
            sum_u32(out@) == sum_u32(bets@) + i,
            forall|i: int| 0 <= i < k ==> selections@[i] == s@[i],
            forall|i: int| 0 <= i < s@.len() ==> 1 <= #[trigger] s@[i] <= 9,
            forall|i: int, j: int| 0 <= i < j < s@.len() ==> s@[i] < s@[j],
            forall|n: int|
                0 <= n < 10 ==> #[trigger] out[n] == bets[n] + if s@.take(i as int).contains(
                    n as u8,
                ) {
                    1int
                } else {
                    0int
                },
        decreases k - i,
    {
        let n = selections[i] as usize;
        proof {
            lemma_take_push(s@, i as int);
            if s@.take(i as int).contains(n as u8) {
                let t = s@.take(i as int);
                let j = choose|j: int| 0 <= j < t.len() && t[j] == n as u8;
                assert(s@[j] < s@[i as int]);
            }
            lemma_entry_le_sum32(bets@, n as int);
            lemma_sum32_update(out@, n as int, (out[n as int] + 1) as u32);
        }
        out[n] = out[n] + 1;
        i += 1;
    }
    assert(s@.take(k as int) =~= s@);
    out
}

/// Places a new record for `player` on the open pool of `tier`, choosing
/// `prediction_type`/`choice` with `lamports` on each selected number.
///
/// `betting_open` is the cutoff check's answer for the current slot. On
/// success the record, the pool, the custody counters and the profile are
/// updated together, and the total stake to move into custody is returned;
/// on refusal nothing changes.
pub fn place_prediction(
    config: &Config,
    live: &mut LiveFeed,
    pred: &mut Prediction,
    profile: &mut PlayerProfile,
    treasury: &mut Treasury,
    player: [u8; 32],
    record_key: [u8; 32],
    record_bump: u8,
    profile_bump: u8,
    clock: &ClockSnapshot,
    betting_open: bool,
    tier: u8,
    prediction_type: u8,
    choice: u32,
    lamports: u64,
) -> (r: Result<u64, IC42NErrorCode>)
    requires
        old(live).wf(),
        old(profile).wf(),
    ensures
        final(live).wf(),
        final(profile).wf(),
        match place_refusal(
            *config,
            *old(live),
            *old(pred),
            *old(treasury),
            *clock,
            betting_open,
            tier,
            prediction_type,
            choice,
            lamports,
        ) {
            Some(e) => {
                &&& r == Err::<u64, IC42NErrorCode>(e)
                &&& *final(live) == *old(live)
                &&& *final(pred) == *old(pred)
                &&& *final(profile) == *old(profile)
                &&& *final(treasury) == *old(treasury)
            },
            None => {
                let s = selection_for(prediction_type, choice, old(live).secondary_rollover_number)->Some_0;
                let total = lamports * s.len();
                let fresh = is_unset_key(old(profile).player);
                &&& r == Ok::<u64, IC42NErrorCode>(total as u64)
                // the record
                &&& final(pred).selections@ == padded8(s)
                &&& *final(pred) == (Prediction {
                    game_epoch: old(live).first_epoch_in_chain,
                    epoch: clock.epoch,
                    player: player,
                    tier: tier,
                    prediction_type: prediction_type,
                    selection_count: s.len() as u8,
                    selections_mask: spec_mask_of(s),
                    selections: final(pred).selections,
                    lamports: total as u64,
                    changed_count: 0,
                    placed_slot: clock.slot,
                    placed_at_ts: clock.unix_timestamp,
                    last_updated_at_ts: clock.unix_timestamp,
                    has_claimed: 0,
                    claimed_at_ts: 0,
                    bump: record_bump,
                    version: PREDICTION_VERSION,
                    lamports_per_number: lamports,
                })
                &&& final(pred).lamports == final(pred).lamports_per_number
                    * final(pred).selection_count
                // the pool
                &&& final(live).total_bets == old(live).total_bets + s.len()
                &&& final(live).total_lamports == old(live).total_lamports + total
                &&& forall|n: int|
                    0 <= n < 10 ==> #[trigger] final(live).lamports_per_number[n]
                        == old(live).lamports_per_number[n] + if s.contains(n as u8) {
                        lamports as int
                    } else {
                        0
                    }
                &&& forall|n: int|
                    0 <= n < 10 ==> #[trigger] final(live).bets_per_number[n]
                        == old(live).bets_per_number[n] + if s.contains(n as u8) {
                        1int
                    } else {
                        0
                    }
                &&& *final(live) == (LiveFeed {
                    total_bets: final(live).total_bets,
                    total_lamports: final(live).total_lamports,
                    lamports_per_number: final(live).lamports_per_number,
                    bets_per_number: final(live).bets_per_number,
                    ..*old(live)
                })
                // custody counters
                &&& *final(treasury) == (Treasury {
                    total_in_lamports: (old(treasury).total_in_lamports + total) as u64,
                    ..*old(treasury)
                })
                // the profile
                &&& final(profile).player == if fresh { player } else { old(profile).player }
                &&& final(profile).tickets_available == if fresh {
                    1
                } else {
                    old(profile).tickets_available
                }
                &&& final(profile).locked_until_epoch >= clock.epoch
                &&& final(profile).locked_until_epoch >= old(profile).locked_until_epoch
                &&& final(profile).last_played_epoch == clock.epoch
                &&& final(profile).last_played_tier == tier
                &&& final(profile).last_played_timestamp == clock.unix_timestamp
                &&& final(profile).recent_bets[(final(profile).recent_bets_head + 39) % 40]
                    == record_key
            },
        },
{
    if config.pause_bet != 0 {
        return Err(IC42NErrorCode::BettingPaused);
    }
    if lamports == 0 {
        return Err(IC42NErrorCode::InvalidBetAmount);
    }
    if clock.epoch != live.epoch {
        return Err(IC42NErrorCode::EpochMismatch);
    }
    if live.tier != tier {
        return Err(IC42NErrorCode::TierMismatch);
    }
    if !betting_open {
        return Err(IC42NErrorCode::BettingClosed);
    }
    let blocked = live.secondary_rollover_number;
    let (k, selections, mask) = derive_prediction_selections(prediction_type, choice, blocked)?;
    let ghost s = selection_for(prediction_type, choice, blocked)->Some_0;
    proof {
        lemma_selection_canonical(prediction_type, choice, blocked);
        assert forall|i: int| 0 <= i < k implies selections@[i] == s[i] by {
            assert(selections@ == padded8(s));
        }
    }
    let settings = config.get_tier_settings(tier)?;
    if !settings.is_active() {
        return Err(IC42NErrorCode::InactiveTier);
    }
    if !is_amount_in_tier(lamports, &settings) {
        return Err(IC42NErrorCode::BetOutOfTierRange);
    }
    let total = match lamports.checked_mul(k as u64) {
        Some(t) => t,
        None => {
            return Err(IC42NErrorCode::MathOverflow);
        },
    };
    if !key_is_unset(&pred.player) {
        return Err(IC42NErrorCode::AlreadyBetThisGame);
    }
    let new_total_bets = match live.total_bets.checked_add(k as u32) {
        Some(v) => v,
        None => {
            return Err(IC42NErrorCode::MathOverflow);
        },
    };
    let new_total_lamports = match live.total_lamports.checked_add(total) {
        Some(v) => v,
        None => {
            return Err(IC42NErrorCode::MathOverflow);
        },
    };
    let bets = count_selections(live.bets_per_number, &selections, k, Ghost(s));
    let new_total_in = match treasury.total_in_lamports.checked_add(total) {
        Some(v) => v,
        None => {
            return Err(IC42NErrorCode::MathOverflow);
        },
    };

    // Every check passed: apply.
    let mut next = *live;
    next.total_bets = new_total_bets;
    next.total_lamports = new_total_lamports;
    next.bets_per_number = bets;
    proof {
        assert(selections@.take(k as int) == s);
        assert forall|n: int| 0 <= n < 10 implies next.lamports_per_number@[n] + lamports
            * occurrences(selections@.take(k as int), n) <= u64::MAX by {
            lemma_occurrences_distinct(s, n);
            lemma_entry_le_sum(live.lamports_per_number@, n);
            assert(lamports * k >= lamports) by (nonlinear_arith)
                requires
                    k >= 1,
            ;
        }
    }
    let applied = apply_per_number_to_live(&mut next, lamports, &selections, k);
    assert(applied is Ok);
    proof {
        assert forall|n: int| 0 <= n < 10 implies #[trigger] next.lamports_per_number[n]
            == live.lamports_per_number[n] + if s.contains(n as u8) {
            lamports as int
        } else {
            0
        } by {
            lemma_occurrences_distinct(s, n);
        }
    }
    *live = next;

    *pred = Prediction {
        game_epoch: live.first_epoch_in_chain,
        epoch: clock.epoch,
        player: player,
        tier: tier,
        prediction_type: prediction_type,
        selection_count: k,
        selections_mask: mask,
        selections: selections,
        lamports: total,
        changed_count: 0,
        placed_slot: clock.slot,
        placed_at_ts: clock.unix_timestamp,
        last_updated_at_ts: clock.unix_timestamp,
        has_claimed: 0,
        claimed_at_ts: 0,
        bump: record_bump,
        version: PREDICTION_VERSION,
        lamports_per_number: lamports,
    };

    treasury.total_in_lamports = new_total_in;

    if key_is_unset(&profile.player) {
        profile.player = player;
        profile.bump = profile_bump;
        profile.total_bets = 0;
        profile.total_lamports_wagered = 0;
        profile.last_played_epoch = 0;
        profile.last_played_tier = 0;
        profile.last_played_timestamp = 0;
        profile.xp_points = 0;
        profile.recent_bets = [[0u8; 32]; 40];
        profile.recent_bets_len = 0;
        profile.recent_bets_head = 0;
        profile.tickets_available = 1;
    }
    let new_until = clock.epoch.saturating_add(2);
    if profile.locked_until_epoch < new_until {
        profile.locked_until_epoch = new_until;
    }
    profile.push_recent_bet(record_key);
    profile.total_bets = profile.total_bets.saturating_add(1);
    profile.total_lamports_wagered = profile.total_lamports_wagered.saturating_add(total);
    profile.last_played_epoch = clock.epoch;
    profile.last_played_tier = tier;
    profile.last_played_timestamp = clock.unix_timestamp;
    profile.xp_points = profile.xp_points.saturating_add(1);
    if profile.first_played_epoch == 0 {
        profile.first_played_epoch = live.first_epoch_in_chain;
    }
    Ok(total)
}


/// Why raising a record's stake is refused, in the order the checks run;
/// `None` when it is accepted.
pub open spec fn increase_refusal(
    config: Config,
    live: LiveFeed,
    pred: Prediction,
    treasury: Treasury,
    clock: ClockSnapshot,
    betting_open: bool,
    tier: u8,
    additional_lamports: u64,
    choice: u32,
) -> Option<IC42NErrorCode> {
    let k = pred.selection_count as int;
    let extra = additional_lamports * k;
    if pred.lamports != pred.spec_expected_total() {
        Some(IC42NErrorCode::AssertInvariantFailed)
    } else if config.pause_bet != 0 {
        Some(IC42NErrorCode::BettingPaused)
    } else if pred.has_claimed != 0 {
        Some(IC42NErrorCode::AlreadyClaimed)
    } else if additional_lamports == 0 {
        Some(IC42NErrorCode::InvalidBetAmount)
    } else if choice == 0 {
        Some(IC42NErrorCode::InvalidBetNumber)
    } else if clock.epoch != live.epoch || pred.game_epoch != live.first_epoch_in_chain || !(
    live.first_epoch_in_chain <= pred.epoch <= live.epoch) {
        Some(IC42NErrorCode::EpochMismatch)
    } else if pred.tier != tier || live.tier != tier {
        Some(IC42NErrorCode::TierMismatch)
    } else if !betting_open {
        Some(IC42NErrorCode::BettingClosed)
    } else {
        match find_tier(config.tiers@, tier) {
            None => Some(IC42NErrorCode::UnknownTier),
            Some(t) => if t.active == 0 {
                Some(IC42NErrorCode::InactiveTier)
            } else if !selection_list_canonical(pred.selections, pred.selection_count)
                || spec_mask_of(pred.active_selections()) != pred.selections_mask {
                Some(IC42NErrorCode::InvalidBetNumber)
            } else if pred.lamports_per_number + additional_lamports > u64::MAX {
                Some(IC42NErrorCode::MathOverflow)
            } else if !(t.min_bet_lamports <= pred.lamports_per_number + additional_lamports
                <= t.max_bet_lamports) {
                Some(IC42NErrorCode::BetOutOfTierRange)
            } else if extra > u64::MAX || pred.lamports + extra > u64::MAX || live.total_lamports
                + extra > u64::MAX || treasury.total_in_lamports + extra > u64::MAX {
                Some(IC42NErrorCode::MathOverflow)
            } else {
                None
            },
        }
    }
}

/// Raises the stake on every number of an existing record by
/// `additional_lamports`. Returns the total to move into custody.
pub fn increase_prediction(
    config: &Config,
    live: &mut LiveFeed,
    pred: &mut Prediction,
    profile: &mut PlayerProfile,
    treasury: &mut Treasury,
    clock: &ClockSnapshot,
    betting_open: bool,
    tier: u8,
    additional_lamports: u64,
    choice: u32,
) -> (r: Result<u64, IC42NErrorCode>)
    requires
        old(live).wf(),
    ensures
        final(live).wf(),
        match increase_refusal(
            *config,
            *old(live),
            *old(pred),
            *old(treasury),
            *clock,
            betting_open,
            tier,
            additional_lamports,
            choice,
        ) {
            Some(e) => {
                &&& r == Err::<u64, IC42NErrorCode>(e)
                &&& *final(live) == *old(live)
                &&& *final(pred) == *old(pred)
                &&& *final(profile) == *old(profile)
                &&& *final(treasury) == *old(treasury)
            },
            None => {
                let extra = additional_lamports * old(pred).selection_count;
                &&& r == Ok::<u64, IC42NErrorCode>(extra as u64)
                &&& *final(pred) == (Prediction {
                    lamports_per_number: (old(pred).lamports_per_number + additional_lamports) as u64,
                    lamports: (old(pred).lamports + extra) as u64,
                    changed_count: if old(pred).changed_count < 255 {
                        (old(pred).changed_count + 1) as u8
                    } else {
                        255
                    },
                    last_updated_at_ts: clock.unix_timestamp,
                    ..*old(pred)
                })
                &&& final(pred).lamports == final(pred).lamports_per_number
                    * final(pred).selection_count
                &&& forall|n: int|
                    0 <= n < 10 ==> #[trigger] final(live).lamports_per_number[n]
                        == old(live).lamports_per_number[n] + if old(
                        pred,
                    ).active_selections().contains(n as u8) {
                        additional_lamports as int
                    } else {
                        0
                    }
                &&& *final(live) == (LiveFeed {
                    total_lamports: (old(live).total_lamports + extra) as u64,
                    lamports_per_number: final(live).lamports_per_number,
                    ..*old(live)
                })
                &&& *final(treasury) == (Treasury {
                    total_in_lamports: (old(treasury).total_in_lamports + extra) as u64,
                    ..*old(treasury)
                })
                &&& *final(profile) == (PlayerProfile {
                    total_lamports_wagered: if old(profile).total_lamports_wagered + extra
                        <= u64::MAX {
                        (old(profile).total_lamports_wagered + extra) as u64
                    } else {
                        u64::MAX
                    },
                    ..*old(profile)
                })
            },
        },
{
    pred.assert_invariant()?;
    if config.pause_bet != 0 {
        return Err(IC42NErrorCode::BettingPaused);
    }
    if pred.has_claimed != 0 {
        return Err(IC42NErrorCode::AlreadyClaimed);
    }
    if additional_lamports == 0 {
        return Err(IC42NErrorCode::InvalidBetAmount);
    }
    if choice == 0 {
        return Err(IC42NErrorCode::InvalidBetNumber);
    }
    if clock.epoch != live.epoch || pred.game_epoch != live.first_epoch_in_chain || !(
    live.first_epoch_in_chain <= pred.epoch && pred.epoch <= live.epoch) {
        return Err(IC42NErrorCode::EpochMismatch);
    }
    if pred.tier != tier || live.tier != tier {
        return Err(IC42NErrorCode::TierMismatch);
    }
    if !betting_open {
        return Err(IC42NErrorCode::BettingClosed);
    }
    let settings = config.get_tier_settings(tier)?;
    if !settings.is_active() {
        return Err(IC42NErrorCode::InactiveTier);
    }
    let k = pred.selection_count;
    if !check_canonical_list(&pred.selections, k) {
        return Err(IC42NErrorCode::InvalidBetNumber);
    }
    if pred.recompute_mask_from_selections() != pred.selections_mask {
        return Err(IC42NErrorCode::InvalidBetNumber);
    }
    let new_per_number = match pred.lamports_per_number.checked_add(additional_lamports) {
        Some(v) => v,
        None => {
            return Err(IC42NErrorCode::MathOverflow);
        },
    };
    if !is_amount_in_tier(new_per_number, &settings) {
        return Err(IC42NErrorCode::BetOutOfTierRange);
    }
    let additional_total = match additional_lamports.checked_mul(k as u64) {
        Some(v) => v,
        None => {
            return Err(IC42NErrorCode::MathOverflow);
        },
    };
    let new_total = match pred.lamports.checked_add(additional_total) {
        Some(v) => v,
        None => {
            return Err(IC42NErrorCode::MathOverflow);
        },
    };
    let new_pool_total = match live.total_lamports.checked_add(additional_total) {
        Some(v) => v,
        None => {
            return Err(IC42NErrorCode::MathOverflow);
        },
    };
    let new_total_in = match treasury.total_in_lamports.checked_add(additional_total) {
        Some(v) => v,
        None => {
            return Err(IC42NErrorCode::MathOverflow);
        },
    };

    // Every check passed: apply.
    let mut next = *live;
    proof {
        let s = pred.selections@.take(k as int);
        assert forall|n: int| 0 <= n < 10 implies next.lamports_per_number@[n]
            + additional_lamports * occurrences(s, n) <= u64::MAX by {
            lemma_occurrences_mono(pred.selections@, k as int, k as int, n);
            lemma_entry_le_sum(live.lamports_per_number@, n);
            let o = occurrences(s, n);
            assert(additional_lamports * o <= additional_lamports * k) by (nonlinear_arith)
                requires
                    o <= k,
            ;
        }
    }
    let applied = apply_per_number_to_live(
        &mut next,
        additional_lamports,
        &pred.selections,
        pred.selection_count,
    );
    assert(applied is Ok);
    proof {
        let act = pred.active_selections();
        assert(act == pred.selections@.take(k as int));
        assert forall|n: int| 0 <= n < 10 implies #[trigger] next.lamports_per_number[n]
            == live.lamports_per_number[n] + if act.contains(n as u8) {
            additional_lamports as int
        } else {
            0
        } by {
            lemma_occurrences_distinct(act, n);
        }
    }
    next.total_lamports = new_pool_total;
    *live = next;

    proof {
        // The stored total was exact, so the raised total is exact too.
        let lpn = pred.lamports_per_number;
        if lpn * k > u64::MAX {
            assert(additional_lamports * k >= 1) by (nonlinear_arith)
                requires
                    additional_lamports >= 1,
                    k >= 1,
            ;
        }
        assert((lpn + additional_lamports) * k == lpn * k + additional_lamports * k)
            by (nonlinear_arith);
    }
    pred.lamports_per_number = new_per_number;
    pred.lamports = new_total;
    pred.changed_count = pred.changed_count.saturating_add(1);
    pred.last_updated_at_ts = clock.unix_timestamp;

    profile.total_lamports_wagered = profile.total_lamports_wagered.saturating_add(
        additional_total,
    );
    treasury.total_in_lamports = new_total_in;
    Ok(additional_total)
}

/// Pool selection counts after a change from `old_mask` to `new_mask`: one
/// less for each number dropped, one more for each number added.
pub open spec fn bets_after_change(bets: Seq<u32>, old_mask: u16, new_mask: u16, n: int) -> int {
    bets[n] - (if mask_bit(old_mask, n) && !mask_bit(new_mask, n) {
        1int
    } else {
        0
    }) + (if mask_bit(new_mask, n) && !mask_bit(old_mask, n) {
        1int
    } else {
        0
    })
}

/// The first number of `lo..=9` whose selection count cannot move as a change
/// asks: a dropped number already at zero, or an added one at the maximum.
pub open spec fn bets_change_refusal(bets: Seq<u32>, old_mask: u16, new_mask: u16, lo: int) -> Option<
    IC42NErrorCode,
>
    decreases 10 - lo,
{
    if lo >= 10 {
        None
    } else if mask_bit(old_mask, lo) && !mask_bit(new_mask, lo) && bets[lo] == 0 {
        Some(IC42NErrorCode::InvalidLiveFeedState)
    } else if mask_bit(new_mask, lo) && !mask_bit(old_mask, lo) && bets[lo] == u32::MAX {
        Some(IC42NErrorCode::MathOverflow)
    } else {
        bets_change_refusal(bets, old_mask, new_mask, lo + 1)
    }
}

/// Why changing a record's selection is refused, in the order the checks
/// run; `None` when it is accepted.
pub open spec fn change_refusal(
    live: LiveFeed,
    pred: Prediction,
    profile: PlayerProfile,
    clock: ClockSnapshot,
    betting_open: bool,
    tier: u8,
    new_prediction_type: u8,
    new_choice: u32,
) -> Option<IC42NErrorCode> {
    let sel = selection_for(new_prediction_type, new_choice, live.secondary_rollover_number);
    if pred.lamports != pred.spec_expected_total() {
        Some(IC42NErrorCode::AssertInvariantFailed)
    } else if clock.epoch != live.epoch {
        Some(IC42NErrorCode::EpochMismatch)
    } else if pred.has_claimed != 0 {
        Some(IC42NErrorCode::AlreadyClaimed)
    } else if pred.game_epoch != live.first_epoch_in_chain || !(live.first_epoch_in_chain
        <= pred.epoch <= live.epoch) {
        Some(IC42NErrorCode::EpochMismatch)
    } else if pred.tier != tier || live.tier != tier {
        Some(IC42NErrorCode::TierMismatch)
    } else if !betting_open {
        Some(IC42NErrorCode::BettingClosed)
    } else if profile.tickets_available == 0 {
        Some(IC42NErrorCode::NoChangeTickets)
    } else if sel is None {
        Some(IC42NErrorCode::InvalidBetNumber)
    } else {
        let s = sel->Some_0;
        if pred.selections_mask == spec_mask_of(s) {
            Some(IC42NErrorCode::NoOpChange)
        } else if s.len() != pred.selection_count {
            Some(IC42NErrorCode::InvalidChoiceCount)
        } else if !selection_list_canonical(pred.selections, pred.selection_count)
            || spec_mask_of(pred.active_selections()) != pred.selections_mask {
            Some(IC42NErrorCode::InvalidBetNumber)
        } else if pred.lamports_per_number == 0 {
            Some(IC42NErrorCode::InvalidBetAmount)
        } else if !crate::pool_math::covers_removal(
            live.lamports_per_number@,
            pred.lamports_per_number,
            pred.active_selections(),
        ) {
            Some(IC42NErrorCode::InvalidLiveFeedState)
        } else {
            bets_change_refusal(live.bets_per_number@, pred.selections_mask, spec_mask_of(s), 1)
        }
    }
}

proof fn lemma_mask_diff_bits(a: u16, b: u16, n: u16)
    requires
        n < 16,
    ensures
        (((a & !b) & (1u16 << n)) != 0) == ((a >> n) & 1u16 == 1u16 && !((b >> n) & 1u16
            == 1u16)),
{
    assert((((a & !b) & (1u16 << n)) != 0) == ((a >> n) & 1u16 == 1u16 && !((b >> n) & 1u16
        == 1u16))) by (bit_vector)
        requires
            n < 16,
    ;
}

/// Moves the pool's selection counts from the old mask to the new one.
fn change_bets(bets: [u32; 10], old_mask: u16, new_mask: u16) -> (r: Result<
    [u32; 10],
    IC42NErrorCode,
>)
    ensures
        match bets_change_refusal(bets@, old_mask, new_mask, 1) {
            Some(e) => r == Err::<[u32; 10], IC42NErrorCode>(e),
            None => r is Ok && r->Ok_0[0] == bets[0] && sum_u32(r->Ok_0@) == sum_u32(bets@)
                + ascending_where(in_mask(new_mask), 10).len() - ascending_where(
                in_mask(old_mask),
                10,
            ).len() && forall|n: int|
                1 <= n < 10 ==> #[trigger] r->Ok_0[n] == bets_after_change(
                    bets@,
                    old_mask,
                    new_mask,
                    n,
                ),
        },
{
    let removed = old_mask & !new_mask;
    let added = new_mask & !old_mask;
    let mut out = bets;
    let mut n: u8 = 1;
    while n <= 9
        invariant
            1 <= n <= 10,
            removed == old_mask & !new_mask,
            added == new_mask & !old_mask,
            bets_change_refusal(bets@, old_mask, new_mask, 1) == bets_change_refusal(
                bets@,
                old_mask,
                new_mask,
                n as int,
            ),
            out[0] == bets[0],
            sum_u32(out@) == sum_u32(bets@) + ascending_where(in_mask(new_mask), n as int).len()
                - ascending_where(in_mask(old_mask), n as int).len(),
            forall|m: int| 1 <= m < n ==> #[trigger] out[m] == bets_after_change(
                bets@,
                old_mask,
                new_mask,
                m,
            ),
            forall|m: int| n <= m < 10 ==> #[trigger] out[m] == bets[m],
        decreases 10 - n,
    {
        let bit: u16 = 1u16 << (n as u16);
        let idx = n as usize;
        proof {
            lemma_mask_diff_bits(old_mask, new_mask, n as u16);
            lemma_mask_diff_bits(new_mask, old_mask, n as u16);
        }
        if (removed & bit) != 0 {
            if out[idx] < 1 {
                return Err(IC42NErrorCode::InvalidLiveFeedState);
            }
            proof {
                lemma_sum32_update(out@, idx as int, (out[idx as int] - 1) as u32);
            }
            out[idx] = out[idx] - 1;
        }
        if (added & bit) != 0 {
            if out[idx] == u32::MAX {
                return Err(IC42NErrorCode::MathOverflow);
            }
            proof {
                lemma_sum32_update(out@, idx as int, (out[idx as int] + 1) as u32);
            }
            out[idx] = out[idx] + 1;
        }
        assert(in_mask(new_mask)(n as int) == mask_bit(new_mask, n as int));
        assert(in_mask(old_mask)(n as int) == mask_bit(old_mask, n as int));
        n = n + 1;
    }
    Ok(out)
}

/// Swaps a record's selection for another of the same size, spending one
/// change ticket; the stake per number stays, and the pool's per-number
/// totals move from the old numbers to the new ones.
pub fn change_prediction_number(
    live: &mut LiveFeed,
    pred: &mut Prediction,
    profile: &mut PlayerProfile,
    clock: &ClockSnapshot,
    betting_open: bool,
    tier: u8,
    new_prediction_type: u8,
    new_choice: u32,
) -> (r: Result<(), IC42NErrorCode>)
    requires
        old(live).wf(),
    ensures
        final(live).wf(),
        old(pred).lamports == old(pred).lamports_per_number * old(pred).selection_count
            ==> final(pred).lamports == final(pred).lamports_per_number
            * final(pred).selection_count,
        match change_refusal(
            *old(live),
            *old(pred),
            *old(profile),
            *clock,
            betting_open,
            tier,
            new_prediction_type,
            new_choice,
        ) {
            Some(e) => {
                &&& r == Err::<(), IC42NErrorCode>(e)
                &&& *final(live) == *old(live)
                &&& *final(pred) == *old(pred)
                &&& *final(profile) == *old(profile)
            },
            None => {
                let s = selection_for(
                    new_prediction_type,
                    new_choice,
                    old(live).secondary_rollover_number,
                )->Some_0;
                let lpn = old(pred).lamports_per_number as int;
                &&& r is Ok
                &&& final(pred).selections@ == padded8(s)
                &&& *final(pred) == (Prediction {
                    prediction_type: new_prediction_type,
                    selections: final(pred).selections,
                    selections_mask: spec_mask_of(s),
                    changed_count: if old(pred).changed_count < 255 {
                        (old(pred).changed_count + 1) as u8
                    } else {
                        255
                    },
                    last_updated_at_ts: clock.unix_timestamp,
                    ..*old(pred)
                })
                &&& forall|n: int|
                    0 <= n < 10 ==> #[trigger] final(live).lamports_per_number[n]
                        == old(live).lamports_per_number[n] - (if old(
                        pred,
                    ).active_selections().contains(n as u8) {
                        lpn
                    } else {
                        0
                    }) + if s.contains(n as u8) {
                        lpn
                    } else {
                        0
                    }
                &&& forall|n: int|
                    1 <= n < 10 ==> #[trigger] final(live).bets_per_number[n]
                        == old(live).bets_per_number[n] - (if old(
                        pred,
                    ).active_selections().contains(n as u8) && !s.contains(n as u8) {
                        1int
                    } else {
                        0
                    }) + (if s.contains(n as u8) && !old(pred).active_selections().contains(
                        n as u8,
                    ) {
                        1int
                    } else {
                        0
                    })
                &&& final(live).bets_per_number[0] == old(live).bets_per_number[0]
                &&& forall|n: int|
                    1 <= n < 10 ==> #[trigger] final(live).bets_per_number[n]
                        == bets_after_change(
                        old(live).bets_per_number@,
                        old(pred).selections_mask,
                        spec_mask_of(s),
                        n,
                    )
                &&& *final(live) == (LiveFeed {
                    lamports_per_number: final(live).lamports_per_number,
                    bets_per_number: final(live).bets_per_number,
                    ..*old(live)
                })
                &&& *final(profile) == (PlayerProfile {
                    tickets_available: (old(profile).tickets_available - 1) as u32,
                    ..*old(profile)
                })
            },
        },
{
    pred.assert_invariant()?;
    if clock.epoch != live.epoch {
        return Err(IC42NErrorCode::EpochMismatch);
    }
    if pred.has_claimed != 0 {
        return Err(IC42NErrorCode::AlreadyClaimed);
    }
    if pred.game_epoch != live.first_epoch_in_chain || !(live.first_epoch_in_chain <= pred.epoch
        && pred.epoch <= live.epoch) {
        return Err(IC42NErrorCode::EpochMismatch);
    }
    if pred.tier != tier || live.tier != tier {
        return Err(IC42NErrorCode::TierMismatch);
    }
    if !betting_open {
        return Err(IC42NErrorCode::BettingClosed);
    }
    if profile.tickets_available == 0 {
        return Err(IC42NErrorCode::NoChangeTickets);
    }
    let blocked = live.secondary_rollover_number;
    let (new_count, new_selections, new_mask) = derive_prediction_selections(
        new_prediction_type,
        new_choice,
        blocked,
    )?;
    let ghost s = selection_for(new_prediction_type, new_choice, blocked)->Some_0;
    proof {
        lemma_selection_canonical(new_prediction_type, new_choice, blocked);
    }
    if pred.selections_mask == new_mask {
        return Err(IC42NErrorCode::NoOpChange);
    }
    if new_count != pred.selection_count {
        return Err(IC42NErrorCode::InvalidChoiceCount);
    }
    if !check_canonical_list(&pred.selections, pred.selection_count)
        || pred.recompute_mask_from_selections() != pred.selections_mask {
        return Err(IC42NErrorCode::InvalidBetNumber);
    }
    let mut next = *live;
    retract_per_number_from_live(
        &mut next,
        pred.lamports_per_number,
        &pred.selections,
        pred.selection_count,
    )?;
    let bets = change_bets(next.bets_per_number, pred.selections_mask, new_mask)?;
    proof {
        let act = pred.active_selections();
        assert(act == pred.selections@.take(pred.selection_count as int));
        assert forall|i: int, j: int| 0 <= i < j < act.len() implies act[i] != act[j] by {
            assert(act[i] == pred.selections@[i] && act[j] == pred.selections@[j]);
        }
        assert forall|i: int| 0 <= i < act.len() implies 1 <= #[trigger] act[i] <= 9 by {
            assert(act[i] == pred.selections@[i]);
        }
        lemma_list_count(act);
        lemma_list_count(s);
        lemma_mask_of_bits(act);
        lemma_mask_of_bits(s);
        assert forall|n: int| 1 <= n < 10 implies #[trigger] in_mask(pred.selections_mask)(n)
            == in_list(act)(n) by {
            assert(mask_bit(spec_mask_of(act), n) <==> (1 <= n <= 9 && act.contains(n as u8)));
        }
        assert forall|n: int| 1 <= n < 10 implies #[trigger] in_mask(new_mask)(n) == in_list(s)(
            n,
        ) by {
            assert(mask_bit(spec_mask_of(s), n) <==> (1 <= n <= 9 && s.contains(n as u8)));
        }
        lemma_ascending_ext(in_mask(pred.selections_mask), in_list(act), 10);
        lemma_ascending_ext(in_mask(new_mask), in_list(s), 10);
    }
    next.bets_per_number = bets;

    let ghost after_retract = next.lamports_per_number@;
    proof {
        let k = new_count as int;
        let lpn = pred.lamports_per_number;
        assert(new_selections@.take(k) == s);
        assert forall|i: int| 0 <= i < k implies 1 <= #[trigger] new_selections@[i] <= 9 by {
            assert(new_selections@[i] == s[i]);
        }
        assert(sum_u64(after_retract) == live.total_lamports - lpn * k);
        assert forall|n: int| 0 <= n < 10 implies after_retract[n] + lpn * occurrences(
            new_selections@.take(k),
            n,
        ) <= u64::MAX by {
            lemma_occurrences_distinct(s, n);
            lemma_entry_le_sum(after_retract, n);
            assert(lpn * k >= lpn) by (nonlinear_arith)
                requires
                    k >= 1,
            ;
        }
    }
    let applied = apply_per_number_to_live(&mut next, pred.lamports_per_number, &new_selections, new_count);
    assert(applied is Ok);
    proof {
        assert forall|n: int| 0 <= n < 10 implies #[trigger] next.lamports_per_number[n]
            == live.lamports_per_number[n] - pred.lamports_per_number * occurrences(
            pred.active_selections(),
            n,
        ) + if s.contains(n as u8) {
            pred.lamports_per_number as int
        } else {
            0
        } by {
            lemma_occurrences_distinct(s, n);
            lemma_occurrences_distinct(pred.active_selections(), n);
            assert(new_selections@.take(new_count as int) == s);
            assert(pred.active_selections() == pred.selections@.take(pred.selection_count as int));
            let o = occurrences(pred.active_selections(), n);
            let lpn = pred.lamports_per_number as int;
            assert((-lpn) * o == -(lpn * o)) by (nonlinear_arith);
            assert(after_retract[n] == live.lamports_per_number[n] + (-lpn) * o);
        }
    }
    proof {
        let act = pred.active_selections();
        let lpn = pred.lamports_per_number as int;
        assert forall|i: int, j: int| 0 <= i < j < act.len() implies act[i] != act[j] by {
            assert(act[i] == pred.selections@[i] && act[j] == pred.selections@[j]);
        }
        assert forall|n: int| 0 <= n < 10 implies #[trigger] next.lamports_per_number[n]
            == live.lamports_per_number[n] - (if act.contains(n as u8) {
            lpn
        } else {
            0
        }) + if s.contains(n as u8) {
            lpn
        } else {
            0
        } by {
            lemma_occurrences_distinct(act, n);
            assert(next.lamports_per_number[n] == live.lamports_per_number[n]
                - pred.lamports_per_number * occurrences(act, n) + if s.contains(n as u8) {
                lpn
            } else {
                0
            });
        }
        lemma_mask_of_bits(act);
        lemma_mask_of_bits(s);
        assert forall|n: int| 1 <= n < 10 implies #[trigger] next.bets_per_number[n]
            == live.bets_per_number[n] - (if act.contains(n as u8) && !s.contains(n as u8) {
            1int
        } else {
            0
        }) + (if s.contains(n as u8) && !act.contains(n as u8) {
            1int
        } else {
            0
        }) by {
            assert(mask_bit(spec_mask_of(act), n) <==> act.contains(n as u8));
            assert(mask_bit(spec_mask_of(s), n) <==> s.contains(n as u8));
        }
    }
    *live = next;

    pred.prediction_type = new_prediction_type;
    pred.selection_count = new_count;
    pred.selections = new_selections;
    pred.selections_mask = new_mask;
    pred.changed_count = pred.changed_count.saturating_add(1);
    pred.last_updated_at_ts = clock.unix_timestamp;
    profile.tickets_available = profile.tickets_available - 1;
    Ok(())
}

/// Once the record, pool, cutoff and ticket checks pass, a change to a
/// selection with the same mask is refused as a no-op, and a change to one of
/// another size as a count mismatch; neither touches any state (see the
/// contract of `change_prediction_number`).
pub proof fn lemma_change_refusals(
    live: LiveFeed,
    pred: Prediction,
    profile: PlayerProfile,
    clock: ClockSnapshot,
    tier: u8,
    new_prediction_type: u8,
    new_choice: u32,
)
    requires
        pred.lamports == pred.spec_expected_total(),
        clock.epoch == live.epoch,
        pred.has_claimed == 0,
        pred.game_epoch == live.first_epoch_in_chain,
        live.first_epoch_in_chain <= pred.epoch <= live.epoch,
        pred.tier == tier,
        live.tier == tier,
        profile.tickets_available > 0,
        selection_for(new_prediction_type, new_choice, live.secondary_rollover_number) is Some,
    ensures
        ({
            let s = selection_for(new_prediction_type, new_choice, live.secondary_rollover_number)->Some_0;
            let r = change_refusal(live, pred, profile, clock, true, tier, new_prediction_type, new_choice);
            &&& spec_mask_of(s) == pred.selections_mask ==> r == Some(IC42NErrorCode::NoOpChange)
            &&& spec_mask_of(s) != pred.selections_mask && s.len() != pred.selection_count ==> r
                == Some(IC42NErrorCode::InvalidChoiceCount)
        }),
{
}

} // verus!
