//! Closing an epoch: opening its ledger, retrying, finalizing against the
//! resolver's proposal, and the one-step rollover.
use vstd::prelude::*;

use crate::clock::ClockSnapshot;
use crate::config::{find_tier, Config, FEE_BPS_DENOM};
use crate::errors::IC42NErrorCode;
use crate::live_feed::{sum_u64, LiveFeed};
use crate::prediction::{is_unset_key, key_is_unset};
use crate::resolve::{
    get_next_rollover_number, next_fee_bps_on_rollover, spec_next_fee_on_rollover,
    spec_next_rollover_number,
};
use crate::resolved_game::{
    GameStatus, ResolvedGame, RolloverReason, MAX_BITMAP_LEN, RESOLVED_GAME_VERSION,
};
use crate::treasury::Treasury;

verus! {

/// The fee on a gross pool at a rate in basis points, rounded down.
pub open spec fn spec_fee(gross: u64, fee_bps: u16) -> int {
    (gross * fee_bps) / (FEE_BPS_DENOM as int)
}

/// Fee and net prize pool of a settlement: nothing is charged when nobody
/// won (the whole pool carries on); otherwise the fee is taken from the gross
/// pool. `None` when the computation leaves `u64`.
pub open spec fn settlement_split(gross: u64, fee_bps: u16, total_winners: u32) -> Option<
    (u64, u64),
> {
    if total_winners == 0 {
        Some((0u64, gross))
    } else if gross * fee_bps > u64::MAX || spec_fee(gross, fee_bps) > gross {
        None
    } else {
        Some((spec_fee(gross, fee_bps) as u64, (gross - spec_fee(gross, fee_bps)) as u64))
    }
}

/// Computes the fee and the net prize pool of a settlement.
pub fn compute_fee_split(gross: u64, fee_bps: u16, total_winners: u32) -> (r: Result<
    (u64, u64),
    IC42NErrorCode,
>)
    ensures
        match settlement_split(gross, fee_bps, total_winners) {
            Some(p) => r == Ok::<(u64, u64), IC42NErrorCode>(p),
            None => r == Err::<(u64, u64), IC42NErrorCode>(IC42NErrorCode::MathOverflow),
        },
{
    if total_winners == 0 {
        return Ok((0, gross));
    }
    let fee = match gross.checked_mul(fee_bps as u64) {
        Some(v) => v / FEE_BPS_DENOM,
        None => {
            return Err(IC42NErrorCode::MathOverflow);
        },
    };
    let net = match gross.checked_sub(fee) {
        Some(v) => v,
        None => {
            return Err(IC42NErrorCode::MathOverflow);
        },
    };
    Ok((fee, net))
}

/// Whatever a settlement computes, fee and net never exceed the gross pool,
/// and with no winners there is no fee and the whole pool is the net pool.
pub proof fn lemma_settlement_split_bounded(gross: u64, fee_bps: u16, total_winners: u32)
    requires
        settlement_split(gross, fee_bps, total_winners) is Some,
    ensures
        ({
            let (fee, net) = settlement_split(gross, fee_bps, total_winners)->Some_0;
            &&& fee + net <= gross
            &&& fee + net == gross
            &&& total_winners == 0 ==> fee == 0 && net == gross
        }),
{
}

/// At least one byte of `uri` is nonzero.
pub open spec fn uri_is_set(uri: [u8; 128]) -> bool {
    exists|i: int| 0 <= i < 128 && #[trigger] uri@[i] != 0
}

fn has_nonzero_byte(uri: &[u8; 128]) -> (r: bool)
    ensures
        r == uri_is_set(*uri),
{
    let mut i: usize = 0;
    while i < 128
        invariant
            i <= 128,
            forall|j: int| 0 <= j < i ==> #[trigger] uri@[j] == 0,
        decreases 128 - i,
    {
        if uri[i] != 0 {
            return true;
        }
        i += 1;
    }
    false
}

fn zero_bitmap(len: usize) -> (r: Vec<u8>)
    ensures
        r@ == Seq::new(len as nat, |i: int| 0u8),
{
    let mut v: Vec<u8> = Vec::new();
    while v.len() < len
        invariant
            v.len() <= len,
            v@ == Seq::new(v.len() as nat, |i: int| 0u8),
        decreases len - v.len(),
    {
        v.push(0u8);
    }
    v
}

/// `after` is `before` carried into `new_epoch`: same chain, same totals and
/// per-number arrays, with everything staked now counted as carried in.
pub open spec fn carried_into(
    before: LiveFeed,
    after: LiveFeed,
    new_epoch: u64,
    cutoff: u64,
    next_fee_bps: u16,
) -> bool {
    &&& after.wf()
    &&& after == (LiveFeed {
        epoch: new_epoch,
        bet_cutoff_slots: cutoff,
        current_fee_bps: next_fee_bps,
        carried_over_lamports: before.total_lamports,
        carried_over_bets: before.total_bets,
        epochs_carried_over: if before.epochs_carried_over < 255 {
            (before.epochs_carried_over + 1) as u8
        } else {
            255
        },
        ..before
    })
}

/// `after` is `before` restarted as an empty chain beginning at `new_epoch`.
pub open spec fn restarted(
    before: LiveFeed,
    after: LiveFeed,
    new_epoch: u64,
    cutoff: u64,
    blocked: u8,
    next_fee_bps: u16,
) -> bool {
    &&& after.wf()
    &&& after.is_empty()
    &&& after.epoch == new_epoch
    &&& after.first_epoch_in_chain == new_epoch
    &&& after.bet_cutoff_slots == cutoff
    &&& after.current_fee_bps == next_fee_bps
    &&& after.secondary_rollover_number == blocked
    &&& after.epochs_carried_over == 0
    &&& after.tier == before.tier
    &&& after.treasury == before.treasury
    &&& after.bump == before.bump
    &&& forall|i: int| 0 <= i < 10 ==> after.lamports_per_number[i] == 0 && after.bets_per_number[i] == 0
}

/// Checks shared by the operations that settle `live` for (`epoch`, `tier`):
/// the pool is that epoch's, the epoch is over, and the tier is active.
pub open spec fn settle_window_refusal(
    config: Config,
    live: LiveFeed,
    clock: ClockSnapshot,
    epoch: u64,
    tier: u8,
) -> Option<IC42NErrorCode> {
    if live.epoch != epoch {
        Some(IC42NErrorCode::EpochMismatch)
    } else if !(live.epoch < clock.epoch) {
        Some(IC42NErrorCode::EpochNotComplete)
    } else if live.tier != tier {
        Some(IC42NErrorCode::TierMismatch)
    } else {
        match find_tier(config.tiers@, tier) {
            None => Some(IC42NErrorCode::UnknownTier),
            Some(t) => if t.active == 0 {
                Some(IC42NErrorCode::InactiveTier)
            } else {
                None
            },
        }
    }
}

fn check_settle_window(
    config: &Config,
    live: &LiveFeed,
    clock: &ClockSnapshot,
    epoch: u64,
    tier: u8,
) -> (r: Result<(), IC42NErrorCode>)
    ensures
        match settle_window_refusal(*config, *live, *clock, epoch, tier) {
            Some(e) => r == Err::<(), IC42NErrorCode>(e),
            None => r is Ok,
        },
{
    if live.epoch != epoch {
        return Err(IC42NErrorCode::EpochMismatch);
    }
    if !(live.epoch < clock.epoch) {
        return Err(IC42NErrorCode::EpochNotComplete);
    }
    if live.tier != tier {
        return Err(IC42NErrorCode::TierMismatch);
    }
    let settings = config.get_tier_settings(tier)?;
    if !settings.is_active() {
        return Err(IC42NErrorCode::InactiveTier);
    }
    Ok(())
}

/// Why opening a ledger is refused; `None` when it is accepted.
pub open spec fn init_refusal(
    config: Config,
    live: LiveFeed,
    clock: ClockSnapshot,
    epoch: u64,
    tier: u8,
    winning_number: u8,
) -> Option<IC42NErrorCode> {
    match settle_window_refusal(config, live, clock, epoch, tier) {
        Some(e) => Some(e),
        None => if winning_number > 9 {
            Some(IC42NErrorCode::InvalidWinningNumber)
        } else if !(live.total_bets > 0 && live.total_lamports > 0) {
            Some(IC42NErrorCode::NoBetsToResolve)
        } else {
            None
        },
    }
}

/// Opens the ledger of (`epoch`, `tier`) in Processing once the epoch is
/// over, recording the winning number and the randomness provenance.
pub fn init_resolved_game(
    config: &Config,
    live: &LiveFeed,
    clock: &ClockSnapshot,
    epoch: u64,
    tier: u8,
    winning_number: u8,
    rng_epoch_slot_used: u64,
    rng_blockhash_used: [u8; 32],
    bump: u8,
) -> (r: Result<ResolvedGame, IC42NErrorCode>)
    ensures
        match init_refusal(*config, *live, *clock, epoch, tier, winning_number) {
            Some(e) => r == Err::<ResolvedGame, IC42NErrorCode>(e),
            None => r is Ok && r->Ok_0.claimed_bitmap@.len() == 0 && r->Ok_0 == (ResolvedGame {
                epoch: epoch,
                tier: tier,
                status: GameStatus::Processing.spec_code(),
                bump: bump,
                winning_number: winning_number,
                rng_epoch_slot_used: rng_epoch_slot_used,
                rng_blockhash_used: rng_blockhash_used,
                attempt_count: 1,
                last_updated_slot: clock.slot,
                last_updated_ts: clock.unix_timestamp,
                carry_over_bets: 0,
                total_bets: 0,
                carry_in_lamports: live.carried_over_lamports,
                carry_out_lamports: 0,
                protocol_fee_lamports: 0,
                net_prize_pool: 0,
                total_winners: 0,
                claimed_winners: 0,
                resolved_at: 0,
                merkle_root: r->Ok_0.merkle_root,
                results_uri: r->Ok_0.results_uri,
                claimed_bitmap: r->Ok_0.claimed_bitmap,
                version: RESOLVED_GAME_VERSION,
                claimed_lamports: 0,
                first_epoch_in_chain: live.first_epoch_in_chain,
                rollover_reason: RolloverReason::NoRollover.spec_code(),
                secondary_rollover_number: live.secondary_rollover_number,
                fee_bps: 0,
            }) && is_unset_key(r->Ok_0.merkle_root) && !uri_is_set(r->Ok_0.results_uri),
        },
{
    check_settle_window(config, live, clock, epoch, tier)?;
    if winning_number > 9 {
        return Err(IC42NErrorCode::InvalidWinningNumber);
    }
    if !(live.total_bets > 0 && live.total_lamports > 0) {
        return Err(IC42NErrorCode::NoBetsToResolve);
    }
    let uri: [u8; 128] = [0u8; 128];
    let root: [u8; 32] = [0u8; 32];
    assert(!uri_is_set(uri));
    Ok(
        ResolvedGame {
            epoch,
            tier,
            status: GameStatus::Processing.as_u8(),
            bump,
            winning_number,
            rng_epoch_slot_used,
            rng_blockhash_used,
            attempt_count: 1,
            last_updated_slot: clock.slot,
            last_updated_ts: clock.unix_timestamp,
            carry_over_bets: 0,
            total_bets: 0,
            carry_in_lamports: live.carried_over_lamports,
            carry_out_lamports: 0,
            protocol_fee_lamports: 0,
            net_prize_pool: 0,
            total_winners: 0,
            claimed_winners: 0,
            resolved_at: 0,
            merkle_root: root,
            results_uri: uri,
            claimed_bitmap: Vec::new(),
            version: RESOLVED_GAME_VERSION,
            claimed_lamports: 0,
            first_epoch_in_chain: live.first_epoch_in_chain,
            rollover_reason: RolloverReason::NoRollover.as_u8(),
            secondary_rollover_number: live.secondary_rollover_number,
            fee_bps: 0,
        },
    )
}

/// Why a retry is refused; `None` when it is accepted.
pub open spec fn reprocess_refusal(
    config: Config,
    live: LiveFeed,
    game: ResolvedGame,
    clock: ClockSnapshot,
    epoch: u64,
    tier: u8,
) -> Option<IC42NErrorCode> {
    match settle_window_refusal(config, live, clock, epoch, tier) {
        Some(e) => Some(e),
        None => if game.epoch != epoch {
            Some(IC42NErrorCode::EpochMismatch)
        } else if game.tier != tier {
            Some(IC42NErrorCode::TierMismatch)
        } else if game.status == GameStatus::Resolved.spec_code() {
            Some(IC42NErrorCode::GameAlreadyResolved)
        } else {
            None
        },
    }
}

/// Puts an unresolved ledger back in Processing for another attempt.
pub fn begin_resolve_game(
    config: &Config,
    live: &LiveFeed,
    game: &mut ResolvedGame,
    clock: &ClockSnapshot,
    epoch: u64,
    tier: u8,
) -> (r: Result<(), IC42NErrorCode>)
    ensures
        match reprocess_refusal(*config, *live, *old(game), *clock, epoch, tier) {
            Some(e) => r == Err::<(), IC42NErrorCode>(e) && *final(game) == *old(game),
            None => r is Ok && *final(game) == (ResolvedGame {
                attempt_count: if old(game).attempt_count < 255 {
                    (old(game).attempt_count + 1) as u8
                } else {
                    255
                },
                status: GameStatus::Processing.spec_code(),
                last_updated_slot: clock.slot,
                last_updated_ts: clock.unix_timestamp,
                ..*old(game)
            }),
        },
{
    check_settle_window(config, live, clock, epoch, tier)?;
    if game.epoch != epoch {
        return Err(IC42NErrorCode::EpochMismatch);
    }
    if game.tier != tier {
        return Err(IC42NErrorCode::TierMismatch);
    }
    if game.status == GameStatus::Resolved.as_u8() {
        return Err(IC42NErrorCode::GameAlreadyResolved);
    }
    game.attempt_count = game.attempt_count.saturating_add(1);
    game.status = GameStatus::Processing.as_u8();
    game.last_updated_slot = clock.slot;
    game.last_updated_ts = clock.unix_timestamp;
    Ok(())
}

/// Number of bitmap bytes for `total_winners` winners.
pub open spec fn bitmap_len_for(total_winners: u32) -> int {
    (total_winners + 7) / 8
}

/// Why finalizing is refused, in the order the checks run; `None` when it
/// is accepted.
pub open spec fn finalize_refusal(
    config: Config,
    live: LiveFeed,
    game: ResolvedGame,
    treasury: Treasury,
    clock: ClockSnapshot,
    custody_balance: u64,
    epoch: u64,
    tier: u8,
    protocol_fee_lamports: u64,
    net_prize_pool: u64,
    total_winners: u32,
    results_uri: [u8; 128],
) -> Option<IC42NErrorCode> {
    if game.epoch != epoch {
        Some(IC42NErrorCode::EpochMismatch)
    } else if game.tier != tier {
        Some(IC42NErrorCode::TierMismatch)
    } else if live.total_bets == 0 || live.total_lamports == 0 {
        Some(IC42NErrorCode::NoBetsToResolve)
    } else {
        match settle_window_refusal(config, live, clock, epoch, tier) {
            Some(e) => Some(e),
            None => if !uri_is_set(results_uri) {
                Some(IC42NErrorCode::EmptyResultsUri)
            } else if game.status != GameStatus::Processing.spec_code() {
                Some(IC42NErrorCode::GameNotInResolvingState)
            } else {
                match settlement_split(live.total_lamports, live.current_fee_bps, total_winners) {
                    None => Some(IC42NErrorCode::MathOverflow),
                    Some(split) => {
                        let (fee, net) = split;
                        if fee != protocol_fee_lamports {
                            Some(IC42NErrorCode::InvalidFee)
                        } else if net != net_prize_pool {
                            Some(IC42NErrorCode::InvalidPotBreakdown)
                        } else if custody_balance < fee {
                            Some(IC42NErrorCode::MathOverflow)
                        } else if custody_balance - fee < net {
                            Some(IC42NErrorCode::InsufficientTreasuryBalance)
                        } else if fee > 0 && treasury.total_fees_withdrawn + fee > u64::MAX {
                            Some(IC42NErrorCode::MathOverflow)
                        } else if bitmap_len_for(total_winners) > MAX_BITMAP_LEN {
                            Some(IC42NErrorCode::TooManyWinners)
                        } else {
                            None
                        }
                    },
                }
            },
        }
    }
}

/// Finalizes a Processing ledger with the resolver's proposal. The fee and
/// net pool are recomputed from the pool and must equal the proposal. With
/// winners the fee is charged and the pool restarts; with none, nothing is
/// charged and the whole pool carries into the next epoch. Returns the fee
/// to move from custody to the fee destination.
pub fn complete_resolve_game(
    config: &Config,
    live: &mut LiveFeed,
    game: &mut ResolvedGame,
    treasury: &mut Treasury,
    clock: &ClockSnapshot,
    custody_balance: u64,
    epoch: u64,
    tier: u8,
    protocol_fee_lamports: u64,
    net_prize_pool: u64,
    total_winners: u32,
    merkle_root: [u8; 32],
    results_uri: [u8; 128],
) -> (r: Result<u64, IC42NErrorCode>)
    requires
        old(live).wf(),
    ensures
        final(live).wf(),
        match finalize_refusal(
            *config,
            *old(live),
            *old(game),
            *old(treasury),
            *clock,
            custody_balance,
            epoch,
            tier,
            protocol_fee_lamports,
            net_prize_pool,
            total_winners,
            results_uri,
        ) {
            Some(e) => {
                &&& r == Err::<u64, IC42NErrorCode>(e)
                &&& *final(live) == *old(live)
                &&& *final(game) == *old(game)
                &&& *final(treasury) == *old(treasury)
            },
            None => {
                let gross = old(live).total_lamports;
                let no_winners = total_winners == 0;
                &&& r == Ok::<u64, IC42NErrorCode>(protocol_fee_lamports)
                &&& protocol_fee_lamports + net_prize_pool <= gross
                &&& no_winners ==> protocol_fee_lamports == 0 && net_prize_pool == gross
                &&& final(game).claimed_bitmap@ == Seq::new(
                    bitmap_len_for(total_winners) as nat,
                    |i: int| 0u8,
                )
                &&& *final(game) == (ResolvedGame {
                    total_bets: old(live).total_bets,
                    carry_over_bets: if no_winners {
                        old(live).total_bets
                    } else {
                        0
                    },
                    protocol_fee_lamports: protocol_fee_lamports,
                    fee_bps: old(live).current_fee_bps,
                    net_prize_pool: net_prize_pool,
                    carry_in_lamports: old(live).carried_over_lamports,
                    carry_out_lamports: if no_winners {
                        net_prize_pool
                    } else {
                        0
                    },
                    total_winners: total_winners,
                    claimed_winners: 0,
                    claimed_bitmap: final(game).claimed_bitmap,
                    merkle_root: merkle_root,
                    results_uri: results_uri,
                    resolved_at: clock.unix_timestamp,
                    status: GameStatus::Resolved.spec_code(),
                    last_updated_slot: clock.slot,
                    last_updated_ts: clock.unix_timestamp,
                    ..*old(game)
                })
                &&& *final(treasury) == (Treasury {
                    total_fees_withdrawn: (old(treasury).total_fees_withdrawn
                        + protocol_fee_lamports) as u64,
                    ..*old(treasury)
                })
                &&& if no_winners {
                    carried_into(
                        *old(live),
                        *final(live),
                        (old(live).epoch + 1) as u64,
                        config.bet_cutoff_slots,
                        config.base_fee_bps,
                    )
                } else {
                    restarted(
                        *old(live),
                        *final(live),
                        (old(live).epoch + 1) as u64,
                        config.bet_cutoff_slots,
                        spec_next_rollover_number(
                            old(game).winning_number,
                            old(live).secondary_rollover_number,
                        ),
                        config.base_fee_bps,
                    )
                }
            },
        },
{
    if game.epoch != epoch {
        return Err(IC42NErrorCode::EpochMismatch);
    }
    if game.tier != tier {
        return Err(IC42NErrorCode::TierMismatch);
    }
    if live.total_bets == 0 || live.total_lamports == 0 {
        return Err(IC42NErrorCode::NoBetsToResolve);
    }
    check_settle_window(config, live, clock, epoch, tier)?;
    if !has_nonzero_byte(&results_uri) {
        return Err(IC42NErrorCode::EmptyResultsUri);
    }
    if game.status != GameStatus::Processing.as_u8() {
        return Err(IC42NErrorCode::GameNotInResolvingState);
    }
    let gross = live.total_lamports;
    let (expected_fee, expected_net) = compute_fee_split(
        gross,
        live.current_fee_bps,
        total_winners,
    )?;
    if expected_fee != protocol_fee_lamports {
        return Err(IC42NErrorCode::InvalidFee);
    }
    if expected_net != net_prize_pool {
        return Err(IC42NErrorCode::InvalidPotBreakdown);
    }
    let balance_after_fee = match custody_balance.checked_sub(expected_fee) {
        Some(v) => v,
        None => {
            return Err(IC42NErrorCode::MathOverflow);
        },
    };
    if balance_after_fee < expected_net {
        return Err(IC42NErrorCode::InsufficientTreasuryBalance);
    }
    let fees_withdrawn = if expected_fee > 0 {
        match treasury.total_fees_withdrawn.checked_add(expected_fee) {
            Some(v) => v,
            None => {
                return Err(IC42NErrorCode::MathOverflow);
            },
        }
    } else {
        treasury.total_fees_withdrawn
    };
    let bitmap_bytes = ((total_winners as u64) + 7) / 8;
    if bitmap_bytes > MAX_BITMAP_LEN as u64 {
        return Err(IC42NErrorCode::TooManyWinners);
    }

    // Every check passed: apply.
    treasury.total_fees_withdrawn = fees_withdrawn;

    let no_winners = total_winners == 0;
    let carry_lamports: u64 = if no_winners { expected_net } else { 0 };
    let carry_bets: u32 = if no_winners { live.total_bets } else { 0 };
    let carry_lamports_per_number: [u64; 10] = if no_winners {
        live.lamports_per_number
    } else {
        [0u64; 10]
    };
    let carry_bets_per_number: [u32; 10] = if no_winners {
        live.bets_per_number
    } else {
        [0u32; 10]
    };

    game.total_bets = live.total_bets;
    game.carry_over_bets = carry_bets;
    game.protocol_fee_lamports = expected_fee;
    game.fee_bps = live.current_fee_bps;
    game.net_prize_pool = expected_net;
    game.carry_in_lamports = live.carried_over_lamports;
    game.carry_out_lamports = carry_lamports;
    game.total_winners = total_winners;
    game.claimed_winners = 0;
    game.claimed_bitmap = zero_bitmap(bitmap_bytes as usize);
    game.merkle_root = merkle_root;
    game.results_uri = results_uri;
    game.resolved_at = clock.unix_timestamp;
    game.status = GameStatus::Resolved.as_u8();
    game.last_updated_slot = clock.slot;
    game.last_updated_ts = clock.unix_timestamp;

    let next_epoch = live.epoch + 1;
    let next_secondary = get_next_rollover_number(
        game.winning_number,
        live.secondary_rollover_number,
    );
    live.reset_for_new_epoch(
        next_epoch,
        config.bet_cutoff_slots,
        carry_lamports,
        carry_bets,
        carry_lamports_per_number,
        carry_bets_per_number,
        next_secondary,
        config.base_fee_bps,
    );
    Ok(expected_fee)
}

/// The winning number triggers a rollover by itself: it is 0 or the blocked number.
pub open spec fn is_rollover_number(live: LiveFeed, winning_number: u8) -> bool {
    winning_number == 0 || winning_number == live.secondary_rollover_number
}

/// Fee rate of the next epoch after a rollover: one step down (never below
/// the floor) when the blocked number was hit; otherwise unchanged but raised
/// to the floor.
pub open spec fn fee_after_rollover(current: u16, step: u16, min: u16, hit_blocked: bool) -> u16 {
    if hit_blocked {
        spec_next_fee_on_rollover(current, step, min)
    } else if current >= min {
        current
    } else {
        min
    }
}

/// The fee rate after a run of rollovers starting from `start`; each entry
/// of `hits` says whether that rollover was caused by the blocked number.
pub open spec fn fee_after_rollovers(start: u16, step: u16, min: u16, hits: Seq<bool>) -> u16
    decreases hits.len(),
{
    if hits.len() == 0 {
        start
    } else {
        fee_after_rollover(fee_after_rollovers(start, step, min, hits.drop_last()), step, min, hits.last())
    }
}

/// Across any run of one or more rollovers the fee rate never ends below the
/// floor; a blocked-number rollover never raises a rate already at or above
/// the floor; and a rate at the floor stays there.
pub proof fn lemma_fee_floor_across_rollovers(start: u16, step: u16, min: u16, hits: Seq<bool>)
    ensures
        hits.len() > 0 ==> fee_after_rollovers(start, step, min, hits) >= min,
        start >= min ==> fee_after_rollover(start, step, min, true) <= start,
        fee_after_rollover(min, step, min, true) == min,
        fee_after_rollover(min, step, min, false) == min,
    decreases hits.len(),
{
    if hits.len() > 1 {
        lemma_fee_floor_across_rollovers(start, step, min, hits.drop_last());
    }
}

/// Why the one-step rollover is refused, in the order the checks run;
/// `None` when it is accepted.
pub open spec fn rollover_refusal(
    config: Config,
    live: LiveFeed,
    clock: ClockSnapshot,
    custody_balance: u64,
    epoch: u64,
    tier: u8,
    winning_number: u8,
) -> Option<IC42NErrorCode> {
    if winning_number >= 10 {
        Some(IC42NErrorCode::InvalidWinningNumber)
    } else if !(is_rollover_number(live, winning_number) || live.bets_per_number[winning_number as int]
        == 0) {
        Some(IC42NErrorCode::CarryNotAllowed)
    } else if live.total_bets == 0 || live.total_lamports == 0 {
        Some(IC42NErrorCode::NoBetsToResolve)
    } else {
        match settle_window_refusal(config, live, clock, epoch, tier) {
            Some(e) => Some(e),
            None => if custody_balance < live.total_lamports {
                Some(IC42NErrorCode::InsufficientTreasuryBalance)
            } else {
                None
            },
        }
    }
}

/// Settles an epoch that carries over in one step: the winning number is 0
/// or the blocked number, or nobody staked on it. Nothing is charged, the
/// ledger is created Resolved with no winners, and the whole pool carries
/// into the next epoch. The fee rate decays one step only when the blocked
/// number was hit.
pub fn complete_rollover_game(
    config: &Config,
    live: &mut LiveFeed,
    clock: &ClockSnapshot,
    custody_balance: u64,
    epoch: u64,
    tier: u8,
    winning_number: u8,
    rng_epoch_slot_used: u64,
    rng_blockhash_used: [u8; 32],
    bump: u8,
) -> (r: Result<ResolvedGame, IC42NErrorCode>)
    requires
        old(live).wf(),
    ensures
        final(live).wf(),
        match rollover_refusal(
            *config,
            *old(live),
            *clock,
            custody_balance,
            epoch,
            tier,
            winning_number,
        ) {
            Some(e) => r == Err::<ResolvedGame, IC42NErrorCode>(e) && *final(live) == *old(live),
            None => {
                let gross = old(live).total_lamports;
                let hit = is_rollover_number(*old(live), winning_number);
                &&& r is Ok
                &&& r->Ok_0.claimed_bitmap@.len() == 0
                &&& is_unset_key(r->Ok_0.merkle_root)
                &&& !uri_is_set(r->Ok_0.results_uri)
                &&& r->Ok_0 == (ResolvedGame {
                    epoch: epoch,
                    tier: tier,
                    status: GameStatus::Resolved.spec_code(),
                    bump: bump,
                    winning_number: winning_number,
                    rng_epoch_slot_used: rng_epoch_slot_used,
                    rng_blockhash_used: rng_blockhash_used,
                    attempt_count: 1,
                    last_updated_slot: clock.slot,
                    last_updated_ts: clock.unix_timestamp,
                    carry_over_bets: old(live).total_bets,
                    total_bets: old(live).total_bets,
                    carry_in_lamports: old(live).carried_over_lamports,
                    carry_out_lamports: gross,
                    protocol_fee_lamports: 0,
                    net_prize_pool: gross,
                    total_winners: 0,
                    claimed_winners: 0,
                    resolved_at: clock.unix_timestamp,
                    merkle_root: r->Ok_0.merkle_root,
                    results_uri: r->Ok_0.results_uri,
                    claimed_bitmap: r->Ok_0.claimed_bitmap,
                    version: RESOLVED_GAME_VERSION,
                    claimed_lamports: 0,
                    first_epoch_in_chain: old(live).first_epoch_in_chain,
                    rollover_reason: if hit {
                        RolloverReason::RolloverNumber.spec_code()
                    } else {
                        RolloverReason::NoWinners.spec_code()
                    },
                    secondary_rollover_number: old(live).secondary_rollover_number,
                    fee_bps: old(live).current_fee_bps,
                })
                &&& carried_into(
                    *old(live),
                    *final(live),
                    (old(live).epoch + 1) as u64,
                    config.bet_cutoff_slots,
                    fee_after_rollover(
                        old(live).current_fee_bps,
                        config.rollover_fee_step_bps,
                        config.min_fee_bps,
                        hit,
                    ),
                )
            },
        },
{
    if winning_number >= 10 {
        return Err(IC42NErrorCode::InvalidWinningNumber);
    }
    let hit = winning_number == 0 || winning_number == live.secondary_rollover_number;
    let has_winners = live.bets_per_number[winning_number as usize] > 0;
    if !(hit || !has_winners) {
        return Err(IC42NErrorCode::CarryNotAllowed);
    }
    let reason = if hit {
        RolloverReason::RolloverNumber
    } else {
        RolloverReason::NoWinners
    };
    if live.total_bets == 0 || live.total_lamports == 0 {
        return Err(IC42NErrorCode::NoBetsToResolve);
    }
    check_settle_window(config, live, clock, epoch, tier)?;
    let gross = live.total_lamports;
    let (fee, net) = compute_fee_split(gross, live.current_fee_bps, 0)?;
    if custody_balance < net {
        return Err(IC42NErrorCode::InsufficientTreasuryBalance);
    }

    let uri: [u8; 128] = [0u8; 128];
    let root: [u8; 32] = [0u8; 32];
    assert(!uri_is_set(uri));
    let game = ResolvedGame {
        epoch,
        tier,
        status: GameStatus::Resolved.as_u8(),
        bump,
        winning_number,
        rng_epoch_slot_used,
        rng_blockhash_used,
        attempt_count: 1,
        last_updated_slot: clock.slot,
        last_updated_ts: clock.unix_timestamp,
        carry_over_bets: live.total_bets,
        total_bets: live.total_bets,
        carry_in_lamports: live.carried_over_lamports,
        carry_out_lamports: gross,
        protocol_fee_lamports: fee,
        net_prize_pool: net,
        total_winners: 0,
        claimed_winners: 0,
        resolved_at: clock.unix_timestamp,
        merkle_root: root,
        results_uri: uri,
        claimed_bitmap: Vec::new(),
        version: RESOLVED_GAME_VERSION,
        claimed_lamports: 0,
        first_epoch_in_chain: live.first_epoch_in_chain,
        rollover_reason: reason.as_u8(),
        secondary_rollover_number: live.secondary_rollover_number,
        fee_bps: live.current_fee_bps,
    };

    let next_secondary = get_next_rollover_number(winning_number, live.secondary_rollover_number);
    let next_fee_bps = if hit {
        next_fee_bps_on_rollover(
            live.current_fee_bps,
            config.rollover_fee_step_bps,
            config.min_fee_bps,
        )
    } else if live.current_fee_bps >= config.min_fee_bps {
        live.current_fee_bps
    } else {
        config.min_fee_bps
    };
    let next_epoch = live.epoch + 1;
    let carry_bets = live.total_bets;
    let carry_lamports_per_number = live.lamports_per_number;
    let carry_bets_per_number = live.bets_per_number;
    live.reset_for_new_epoch(
        next_epoch,
        config.bet_cutoff_slots,
        gross,
        carry_bets,
        carry_lamports_per_number,
        carry_bets_per_number,
        next_secondary,
        next_fee_bps,
    );
    Ok(game)
}

/// Why an administrative reset of an idle pool is refused; `None` when it
/// is accepted.
pub open spec fn reset_refusal(live: LiveFeed, clock: ClockSnapshot, tier: u8, rollover: u8) -> Option<
    IC42NErrorCode,
> {
    if live.tier != tier {
        Some(IC42NErrorCode::TierMismatch)
    } else if clock.epoch < live.epoch {
        Some(IC42NErrorCode::EpochNotAdvanced)
    } else if !(1 <= rollover <= 9) {
        Some(IC42NErrorCode::InvalidRollOverNumber)
    } else if !live.is_empty() {
        Some(IC42NErrorCode::LiveFeedNotEmpty)
    } else {
        None
    }
}

/// Restarts an idle pool at the current epoch with blocked number
/// `rollover`; a pool holding stakes or carry is never wiped.
pub fn reset_live_feed(
    config: &Config,
    live: &mut LiveFeed,
    clock: &ClockSnapshot,
    tier: u8,
    rollover: u8,
) -> (r: Result<(), IC42NErrorCode>)
    ensures
        match reset_refusal(*old(live), *clock, tier, rollover) {
            Some(e) => r == Err::<(), IC42NErrorCode>(e) && *final(live) == *old(live),
            None => r is Ok && restarted(
                *old(live),
                *final(live),
                clock.epoch,
                config.bet_cutoff_slots,
                rollover,
                config.base_fee_bps,
            ),
        },
{
    if live.tier != tier {
        return Err(IC42NErrorCode::TierMismatch);
    }
    if clock.epoch < live.epoch {
        return Err(IC42NErrorCode::EpochNotAdvanced);
    }
    if rollover < 1 || rollover > 9 {
        return Err(IC42NErrorCode::InvalidRollOverNumber);
    }
    if !(live.total_lamports == 0 && live.carried_over_lamports == 0 && live.total_bets == 0
        && live.carried_over_bets == 0) {
        return Err(IC42NErrorCode::LiveFeedNotEmpty);
    }
    live.reset_for_new_epoch(
        clock.epoch,
        config.bet_cutoff_slots,
        0,
        0,
        [0u64; 10],
        [0u32; 10],
        rollover,
        config.base_fee_bps,
    );
    Ok(())
}

/// A pool may be torn down only for its own tier and with no bets in it.
pub fn check_tier_closable(live: &LiveFeed, tier: u8) -> (r: Result<(), IC42NErrorCode>)
    ensures
        live.tier != tier ==> r == Err::<(), IC42NErrorCode>(IC42NErrorCode::InvalidTier),
        live.tier == tier && live.total_bets != 0 ==> r == Err::<(), IC42NErrorCode>(
            IC42NErrorCode::LiveFeedNotEmpty,
        ),
        live.tier == tier && live.total_bets == 0 ==> r is Ok,
{
    if live.tier != tier {
        return Err(IC42NErrorCode::InvalidTier);
    }
    if live.total_bets != 0 {
        return Err(IC42NErrorCode::LiveFeedNotEmpty);
    }
    Ok(())
}

} // verus!
