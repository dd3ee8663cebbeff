//! Protocol configuration as the engine reads it: tiers, fee bounds, cutoff.
use vstd::prelude::*;

use crate::errors::IC42NErrorCode;

verus! {

/// Largest fee, in basis points (100%).
pub const FEE_BPS_DENOM: u64 = 10_000;

/// Settings of one tier.
#[derive(Clone, Copy)]
pub struct TierSettings {
    /// Tier id (1..=5).
    pub tier_id: u8,
    /// 1 when staking and resolution are allowed.
    pub active: u8,
    /// Smallest per-number stake.
    pub min_bet_lamports: u64,
    /// Largest per-number stake.
    pub max_bet_lamports: u64,
    /// Payout shaping factor, kept as the bits of a 32-bit IEEE value; the
    /// engine never reads it.
    pub curve_factor_bits: u32,
    /// Ticket rate in basis points of losers (0 disables).
    pub ticket_reward_bps: u16,
    /// Largest number of ticket recipients per game.
    pub ticket_reward_max: u16,
    /// Tickets per selected recipient.
    pub tickets_per_recipient: u8,
}

impl TierSettings {
    /// Whether the tier is active.
    pub fn is_active(&self) -> (r: bool)
        ensures
            r == (self.active != 0),
    {
        self.active != 0
    }

    /// Whether `lamports` lies within the tier's per-number bounds.
    pub fn is_valid_bet(&self, lamports: u64) -> (r: bool)
        ensures
            r == (self.min_bet_lamports <= lamports <= self.max_bet_lamports),
    {
        lamports >= self.min_bet_lamports && lamports <= self.max_bet_lamports
    }
}

/// Whether `amount` lies within the tier's per-number bounds.
pub fn is_amount_in_tier(amount: u64, tier: &TierSettings) -> (r: bool)
    ensures
        r == (tier.min_bet_lamports <= amount <= tier.max_bet_lamports),
{
    amount >= tier.min_bet_lamports && amount <= tier.max_bet_lamports
}

/// The first tier in `tiers` with id `tier_id`.
pub open spec fn find_tier(tiers: Seq<TierSettings>, tier_id: u8) -> Option<TierSettings>
    decreases tiers.len(),
{
    if tiers.len() == 0 {
        None
    } else if tiers[0].tier_id == tier_id {
        Some(tiers[0])
    } else {
        find_tier(tiers.drop_first(), tier_id)
    }
}

/// Protocol-wide configuration.
#[derive(Clone, Copy)]
pub struct Config {
    /// 1 = staking paused.
    pub pause_bet: u8,
    /// 1 = withdrawals and claims paused.
    pub pause_withdraw: u8,
    /// Administrator.
    pub authority: [u8; 32],
    /// Destination of protocol fees.
    pub fee_vault: [u8; 32],
    /// Fee rate a new chain starts with, in basis points.
    pub base_fee_bps: u16,
    /// Minimum slots left in an epoch for staking.
    pub bet_cutoff_slots: u64,
    /// Time the protocol was set up.
    pub started_at: i64,
    /// Epoch the protocol was set up in.
    pub started_epoch: u64,
    /// Primary rollover number.
    pub primary_roll_over_number: u8,
    /// Tier settings.
    pub tiers: [TierSettings; 5],
    /// Address bump of the configuration account.
    pub bump: u8,
    /// Floor of the fee rate, in basis points.
    pub min_fee_bps: u16,
    /// Fee decrease per blocked-number rollover, in basis points.
    pub rollover_fee_step_bps: u16,
}

impl Config {
    /// Returns the settings of tier `tier_id`.
    pub fn get_tier_settings(&self, tier_id: u8) -> (r: Result<TierSettings, IC42NErrorCode>)
        ensures
            match find_tier(self.tiers@, tier_id) {
                Some(t) => r == Ok::<TierSettings, IC42NErrorCode>(t),
                None => r == Err::<TierSettings, IC42NErrorCode>(IC42NErrorCode::UnknownTier),
            },
    {
        let mut i: usize = 0;
        assert(self.tiers@.skip(0) == self.tiers@);
        while i < 5
            invariant
                i <= 5,
                find_tier(self.tiers@, tier_id) == find_tier(self.tiers@.skip(i as int), tier_id),
            decreases 5 - i,
        {
            assert(self.tiers@.skip(i as int).drop_first() == self.tiers@.skip(i + 1));
            if self.tiers[i].tier_id == tier_id {
                return Ok(self.tiers[i]);
            }
            i += 1;
        }
        assert(self.tiers@.skip(5).len() == 0);
        Err(IC42NErrorCode::UnknownTier)
    }

    /// Whether staking is paused.
    pub fn is_betting_paused(&self) -> (r: bool)
        ensures
            r == (self.pause_bet != 0),
    {
        self.pause_bet != 0
    }

    /// Whether a fee rate, floor and step (already merged with any update) are
    /// consistent: each at most 100%, the floor and the step at most the rate.
    pub open spec fn fee_bounds_ok(base: u16, min: u16, step: u16) -> bool {
        &&& base <= FEE_BPS_DENOM
        &&& min <= FEE_BPS_DENOM
        &&& step <= FEE_BPS_DENOM
        &&& min <= base
        &&& step <= base
    }

    /// Checks the fee rate, floor and step an update would leave in place.
    pub fn check_fee_bounds(base: u16, min: u16, step: u16) -> (r: Result<(), IC42NErrorCode>)
        ensures
            r is Ok <==> Self::fee_bounds_ok(base, min, step),
            r == Err::<(), IC42NErrorCode>(IC42NErrorCode::InvalidFee) <==> base > FEE_BPS_DENOM,
            r == Err::<(), IC42NErrorCode>(IC42NErrorCode::InvalidMinimumFee) <==> base
                <= FEE_BPS_DENOM && min > FEE_BPS_DENOM,
            r == Err::<(), IC42NErrorCode>(IC42NErrorCode::InvalidFeeStep) <==> base
                <= FEE_BPS_DENOM && min <= FEE_BPS_DENOM && (step > FEE_BPS_DENOM || (min <= base
                && step > base)),
            r == Err::<(), IC42NErrorCode>(IC42NErrorCode::InvalidFeeConfig) <==> base
                <= FEE_BPS_DENOM && min <= FEE_BPS_DENOM && step <= FEE_BPS_DENOM && min > base,
    {
        if base as u64 > FEE_BPS_DENOM {
            return Err(IC42NErrorCode::InvalidFee);
        }
        if min as u64 > FEE_BPS_DENOM {
            return Err(IC42NErrorCode::InvalidMinimumFee);
        }
        if step as u64 > FEE_BPS_DENOM {
            return Err(IC42NErrorCode::InvalidFeeStep);
        }
        if min > base {
            return Err(IC42NErrorCode::InvalidFeeConfig);
        }
        if step > base {
            return Err(IC42NErrorCode::InvalidFeeStep);
        }
        Ok(())
    }
}

/// Largest per-recipient ticket count a tier may grant.
pub const MAX_TICKETS_PER_RECIPIENT: u32 = 100;

/// Smallest staking cutoff an update may set, exclusive.
pub const MIN_CUTOFF_SLOTS: u64 = 20;

/// A new curve factor for a tier: its bits, with the two facts about its
/// value that the update rules read.
#[derive(Clone, Copy)]
pub struct CurveFactorUpdate {
    /// Bits of the 32-bit IEEE value.
    pub bits: u32,
    /// The value is finite.
    pub is_finite: bool,
    /// The value is greater than zero.
    pub is_positive: bool,
}

/// Changes to one tier; `None` leaves a field as it is.
#[derive(Clone, Copy)]
pub struct TierUpdate {
    /// Tier to change.
    pub tier_id: u8,
    /// New active flag (0 or 1).
    pub active: Option<u8>,
    /// New per-number minimum.
    pub min_bet_lamports: Option<u64>,
    /// New per-number maximum.
    pub max_bet_lamports: Option<u64>,
    /// New curve factor.
    pub curve_factor: Option<CurveFactorUpdate>,
    /// New ticket rate in basis points.
    pub ticket_reward_bps: Option<u16>,
    /// New cap on ticket recipients.
    pub ticket_reward_max: Option<u16>,
    /// New tickets per recipient.
    pub tickets_rewarded: Option<u8>,
}

/// Changes to the global settings; `None` leaves a field as it is.
#[derive(Clone, Copy)]
pub struct ConfigUpdate {
    /// Staking pause (1 pauses, anything else resumes).
    pub pause_bet: Option<u8>,
    /// Withdrawal pause (1 pauses, anything else resumes).
    pub pause_withdraw: Option<u8>,
    /// New administrator.
    pub new_authority: Option<[u8; 32]>,
    /// New fee destination.
    pub new_fee_vault: Option<[u8; 32]>,
    /// New base fee rate.
    pub new_fee_bps: Option<u16>,
    /// New fee floor.
    pub new_min_fee_bps: Option<u16>,
    /// New fee decrease per blocked-number rollover.
    pub new_rollover_fee_step_bps: Option<u16>,
    /// New staking cutoff, in slots (more than twenty).
    pub new_cutoff_slots: Option<u64>,
    /// New primary rollover number (0..=9).
    pub new_roll_over_number: Option<u8>,
}

/// Keys no authority or fee destination may be set to: the all-zero key,
/// the system program, this program and the configuration account.
#[derive(Clone, Copy)]
pub struct ReservedKeys {
    /// The system program.
    pub system_program: [u8; 32],
    /// This program.
    pub program: [u8; 32],
    /// The configuration account.
    pub config: [u8; 32],
}

/// `key` is one of the reserved keys (or all zeros).
pub open spec fn is_reserved(key: [u8; 32], reserved: ReservedKeys) -> bool {
    key@ == Seq::new(32, |i: int| 0u8) || key@ == reserved.system_program@ || key@
        == reserved.program@ || key@ == reserved.config@
}

/// The index of the first tier with id `tier_id`.
pub open spec fn tier_index(tiers: Seq<TierSettings>, tier_id: u8) -> Option<int>
    decreases tiers.len(),
{
    if tiers.len() == 0 {
        None
    } else if tiers[0].tier_id == tier_id {
        Some(0)
    } else {
        match tier_index(tiers.drop_first(), tier_id) {
            Some(i) => Some(i + 1),
            None => None,
        }
    }
}

/// One tier after an update, or the reason the update is refused.
pub open spec fn updated_tier(t: TierSettings, u: TierUpdate) -> Result<TierSettings, IC42NErrorCode> {
    let active_bad = u.active is Some && u.active->Some_0 > 1;
    let active = if u.active is Some { u.active->Some_0 } else { t.active };
    let min = if u.min_bet_lamports is Some { u.min_bet_lamports->Some_0 } else { t.min_bet_lamports };
    let max = if u.max_bet_lamports is Some { u.max_bet_lamports->Some_0 } else { t.max_bet_lamports };
    let changed = u.min_bet_lamports is Some || u.max_bet_lamports is Some;
    let curve_bad = u.curve_factor is Some && (!u.curve_factor->Some_0.is_finite || (active == 1
        && !u.curve_factor->Some_0.is_positive));
    let curve = if u.curve_factor is Some { u.curve_factor->Some_0.bits } else { t.curve_factor_bits };
    let bps = if u.ticket_reward_bps is Some { u.ticket_reward_bps->Some_0 } else { t.ticket_reward_bps };
    let max_recipients = if u.ticket_reward_max is Some {
        u.ticket_reward_max->Some_0
    } else {
        t.ticket_reward_max
    };
    let tickets = if u.tickets_rewarded is Some {
        u.tickets_rewarded->Some_0
    } else {
        t.tickets_per_recipient
    };
    if active_bad {
        Err(IC42NErrorCode::InvalidTierFlag)
    } else if curve_bad {
        Err(IC42NErrorCode::InvalidCurveValue)
    } else if (active == 1 || changed) && !(min < max) {
        Err(IC42NErrorCode::InvalidTierBounds)
    } else if u.ticket_reward_bps is Some && u.ticket_reward_bps->Some_0 > FEE_BPS_DENOM {
        Err(IC42NErrorCode::InvalidTicketBps)
    } else if u.ticket_reward_max is Some && bps > 0 && u.ticket_reward_max->Some_0 == 0 {
        Err(IC42NErrorCode::InvalidTicketMax)
    } else if u.tickets_rewarded is Some && u.tickets_rewarded->Some_0 > MAX_TICKETS_PER_RECIPIENT {
        Err(IC42NErrorCode::InvalidTicketAmount)
    } else {
        Ok(
            TierSettings {
                active: active,
                min_bet_lamports: min,
                max_bet_lamports: max,
                curve_factor_bits: curve,
                ticket_reward_bps: bps,
                ticket_reward_max: max_recipients,
                tickets_per_recipient: tickets,
                ..t
            },
        )
    }
}

/// The tiers after applying `updates` in order, or the first refusal.
pub open spec fn updated_tiers(tiers: Seq<TierSettings>, updates: Seq<TierUpdate>) -> Result<
    Seq<TierSettings>,
    IC42NErrorCode,
>
    decreases updates.len(),
{
    if updates.len() == 0 {
        Ok(tiers)
    } else {
        match updated_tiers(tiers, updates.drop_last()) {
            Err(e) => Err(e),
            Ok(ts) => match tier_index(ts, updates.last().tier_id) {
                None => Err(IC42NErrorCode::UnknownTier),
                Some(i) => match updated_tier(ts[i], updates.last()) {
                    Err(e) => Err(e),
                    Ok(t) => Ok(ts.update(i, t)),
                },
            },
        }
    }
}

proof fn lemma_tier_index_bounds(tiers: Seq<TierSettings>, tier_id: u8)
    ensures
        match tier_index(tiers, tier_id) {
            Some(i) => 0 <= i < tiers.len() && tiers[i].tier_id == tier_id,
            None => true,
        },
    decreases tiers.len(),
{
    if tiers.len() > 0 {
        lemma_tier_index_bounds(tiers.drop_first(), tier_id);
    }
}

/// The global settings after an update (tiers aside), or the first refusal.
pub open spec fn updated_globals(cfg: Config, u: ConfigUpdate, reserved: ReservedKeys) -> Result<
    Config,
    IC42NErrorCode,
> {
    let authority = if u.new_authority is Some { u.new_authority->Some_0 } else { cfg.authority };
    let vault = if u.new_fee_vault is Some { u.new_fee_vault->Some_0 } else { cfg.fee_vault };
    let base = if u.new_fee_bps is Some { u.new_fee_bps->Some_0 } else { cfg.base_fee_bps };
    let min = if u.new_min_fee_bps is Some { u.new_min_fee_bps->Some_0 } else { cfg.min_fee_bps };
    let step = if u.new_rollover_fee_step_bps is Some {
        u.new_rollover_fee_step_bps->Some_0
    } else {
        cfg.rollover_fee_step_bps
    };
    if u.new_authority is Some && (is_reserved(authority, reserved) || authority@
        == cfg.fee_vault@) {
        Err(IC42NErrorCode::InvalidAuthorityTarget)
    } else if u.new_fee_vault is Some && (is_reserved(vault, reserved) || vault@ == authority@) {
        Err(IC42NErrorCode::InvalidFeeVault)
    } else if u.new_cutoff_slots is Some && u.new_cutoff_slots->Some_0 <= MIN_CUTOFF_SLOTS {
        Err(IC42NErrorCode::InvalidCutOffNumber)
    } else if u.new_roll_over_number is Some && u.new_roll_over_number->Some_0 > 9 {
        Err(IC42NErrorCode::InvalidRollOverNumber)
    } else {
        Ok(
            Config {
                pause_bet: if u.pause_bet is Some {
                    if u.pause_bet->Some_0 == 1 {
                        1u8
                    } else {
                        0u8
                    }
                } else {
                    cfg.pause_bet
                },
                pause_withdraw: if u.pause_withdraw is Some {
                    if u.pause_withdraw->Some_0 == 1 {
                        1u8
                    } else {
                        0u8
                    }
                } else {
                    cfg.pause_withdraw
                },
                authority: authority,
                fee_vault: vault,
                bet_cutoff_slots: if u.new_cutoff_slots is Some {
                    u.new_cutoff_slots->Some_0
                } else {
                    cfg.bet_cutoff_slots
                },
                primary_roll_over_number: if u.new_roll_over_number is Some {
                    u.new_roll_over_number->Some_0
                } else {
                    cfg.primary_roll_over_number
                },
                base_fee_bps: base,
                min_fee_bps: min,
                rollover_fee_step_bps: step,
                ..cfg
            },
        )
    }
}

/// The fee-bound refusal for a configuration after an update, if any.
pub open spec fn fee_refusal(cfg: Config) -> Option<IC42NErrorCode> {
    if cfg.authority@ == cfg.fee_vault@ {
        Some(IC42NErrorCode::AuthorityCannotEqualFeeVault)
    } else if cfg.base_fee_bps > FEE_BPS_DENOM {
        Some(IC42NErrorCode::InvalidFee)
    } else if cfg.min_fee_bps > FEE_BPS_DENOM {
        Some(IC42NErrorCode::InvalidMinimumFee)
    } else if cfg.rollover_fee_step_bps > FEE_BPS_DENOM {
        Some(IC42NErrorCode::InvalidFeeStep)
    } else if cfg.min_fee_bps > cfg.base_fee_bps {
        Some(IC42NErrorCode::InvalidFeeConfig)
    } else if cfg.rollover_fee_step_bps > cfg.base_fee_bps {
        Some(IC42NErrorCode::InvalidFeeStep)
    } else {
        None
    }
}

fn keys_equal(a: &[u8; 32], b: &[u8; 32]) -> (r: bool)
    ensures
        r == (a@ == b@),
{
    let mut i: usize = 0;
    while i < 32
        invariant
            i <= 32,
            forall|j: int| 0 <= j < i ==> a@[j] == b@[j],
        decreases 32 - i,
    {
        if a[i] != b[i] {
            return false;
        }
        i += 1;
    }
    assert(a@ == b@);
    true
}

fn key_is_reserved(key: &[u8; 32], reserved: &ReservedKeys) -> (r: bool)
    ensures
        r == is_reserved(*key, *reserved),
{
    let zero: [u8; 32] = [0u8; 32];
    assert(zero@ == Seq::new(32, |i: int| 0u8));
    keys_equal(key, &zero) || keys_equal(key, &reserved.system_program) || keys_equal(
        key,
        &reserved.program,
    ) || keys_equal(key, &reserved.config)
}

/// Once a run of tier updates is refused, longer runs are refused the same way.
proof fn lemma_updated_tiers_err_extends(tiers: Seq<TierSettings>, updates: Seq<TierUpdate>, i: int)
    requires
        0 <= i <= updates.len(),
    ensures
        updated_tiers(tiers, updates.take(i)) is Err ==> updated_tiers(tiers, updates)
            == updated_tiers(tiers, updates.take(i)),
    decreases updates.len() - i,
{
    if i < updates.len() {
        lemma_updated_tiers_err_extends(tiers, updates, i + 1);
        assert(updates.take(i + 1).drop_last() == updates.take(i));
    } else {
        assert(updates.take(i) == updates);
    }
}

fn find_tier_slot(tiers: &[TierSettings; 5], tier_id: u8) -> (r: Option<usize>)
    ensures
        match r {
            Some(j) => tier_index(tiers@, tier_id) == Some(j as int) && j < 5,
            None => tier_index(tiers@, tier_id) is None,
        },
{
    let mut j: usize = 0;
    assert(tiers@.skip(0) == tiers@);
    while j < 5
        invariant
            j <= 5,
            tier_index(tiers@, tier_id) == match tier_index(tiers@.skip(j as int), tier_id) {
                Some(k) => Some(k + j),
                None => None,
            },
        decreases 5 - j,
    {
        if tiers[j].tier_id == tier_id {
            return Some(j);
        }
        assert(tiers@.skip(j as int).drop_first() == tiers@.skip(j + 1));
        j += 1;
    }
    assert(tiers@.skip(5).len() == 0);
    None
}

fn apply_tier_update(t: TierSettings, u: &TierUpdate) -> (r: Result<TierSettings, IC42NErrorCode>)
    ensures
        r == updated_tier(t, *u),
{
    let mut t = t;
    if let Some(active) = u.active {
        if active > 1 {
            return Err(IC42NErrorCode::InvalidTierFlag);
        }
        t.active = active;
    }
    let mut changed = false;
    if let Some(min) = u.min_bet_lamports {
        t.min_bet_lamports = min;
        changed = true;
    }
    if let Some(max) = u.max_bet_lamports {
        t.max_bet_lamports = max;
        changed = true;
    }
    if let Some(curve) = u.curve_factor {
        if !curve.is_finite {
            return Err(IC42NErrorCode::InvalidCurveValue);
        }
        if t.active == 1 && !curve.is_positive {
            return Err(IC42NErrorCode::InvalidCurveValue);
        }
        t.curve_factor_bits = curve.bits;
    }
    if (t.active == 1 || changed) && !(t.min_bet_lamports < t.max_bet_lamports) {
        return Err(IC42NErrorCode::InvalidTierBounds);
    }
    let mut effective_bps = t.ticket_reward_bps;
    if let Some(bps) = u.ticket_reward_bps {
        if bps as u64 > FEE_BPS_DENOM {
            return Err(IC42NErrorCode::InvalidTicketBps);
        }
        t.ticket_reward_bps = bps;
        effective_bps = bps;
    }
    if let Some(max) = u.ticket_reward_max {
        if effective_bps > 0 && max == 0 {
            return Err(IC42NErrorCode::InvalidTicketMax);
        }
        t.ticket_reward_max = max;
    }
    if let Some(tickets) = u.tickets_rewarded {
        if tickets as u32 > MAX_TICKETS_PER_RECIPIENT {
            return Err(IC42NErrorCode::InvalidTicketAmount);
        }
        t.tickets_per_recipient = tickets;
    }
    Ok(t)
}

impl Config {
    /// Applies an administrative update: global fields, then each tier update
    /// in order, then the fee bounds on the result. All or nothing.
    pub fn update(
        &mut self,
        update: &ConfigUpdate,
        tier_updates: &Vec<TierUpdate>,
        reserved: &ReservedKeys,
    ) -> (r: Result<(), IC42NErrorCode>)
        ensures
            match updated_globals(*old(self), *update, *reserved) {
                Err(e) => r == Err::<(), IC42NErrorCode>(e) && *final(self) == *old(self),
                Ok(g) => match updated_tiers(g.tiers@, tier_updates@) {
                    Err(e) => r == Err::<(), IC42NErrorCode>(e) && *final(self) == *old(self),
                    Ok(ts) => match fee_refusal(g) {
                        Some(e) => r == Err::<(), IC42NErrorCode>(e) && *final(self)
                            == *old(self),
                        None => r is Ok && final(self).tiers@ == ts && *final(self) == (Config {
                            tiers: final(self).tiers,
                            ..g
                        }),
                    },
                },
            },
    {
        let mut cfg = *self;
        if let Some(p) = update.pause_bet {
            cfg.pause_bet = if p == 1 { 1 } else { 0 };
        }
        if let Some(p) = update.pause_withdraw {
            cfg.pause_withdraw = if p == 1 { 1 } else { 0 };
        }
        if let Some(a) = update.new_authority {
            if key_is_reserved(&a, reserved) || keys_equal(&a, &cfg.fee_vault) {
                return Err(IC42NErrorCode::InvalidAuthorityTarget);
            }
            cfg.authority = a;
        }
        if let Some(v) = update.new_fee_vault {
            if key_is_reserved(&v, reserved) || keys_equal(&v, &cfg.authority) {
                return Err(IC42NErrorCode::InvalidFeeVault);
            }
            cfg.fee_vault = v;
        }
        if let Some(c) = update.new_cutoff_slots {
            if c <= MIN_CUTOFF_SLOTS {
                return Err(IC42NErrorCode::InvalidCutOffNumber);
            }
            cfg.bet_cutoff_slots = c;
        }
        if let Some(n) = update.new_roll_over_number {
            if n > 9 {
                return Err(IC42NErrorCode::InvalidRollOverNumber);
            }
            cfg.primary_roll_over_number = n;
        }
        if let Some(v) = update.new_fee_bps {
            cfg.base_fee_bps = v;
        }
        if let Some(v) = update.new_min_fee_bps {
            cfg.min_fee_bps = v;
        }
        if let Some(v) = update.new_rollover_fee_step_bps {
            cfg.rollover_fee_step_bps = v;
        }
        let ghost g = cfg;
        assert(updated_globals(*old(self), *update, *reserved) == Ok::<Config, IC42NErrorCode>(g));
        let mut i: usize = 0;
        while i < tier_updates.len()
            invariant
                i <= tier_updates@.len(),
                *self == *old(self),
                updated_globals(*old(self), *update, *reserved) == Ok::<Config, IC42NErrorCode>(g),
                cfg == (Config { tiers: cfg.tiers, ..g }),
                updated_tiers(g.tiers@, tier_updates@.take(i as int)) == Ok::<
                    Seq<TierSettings>,
                    IC42NErrorCode,
                >(cfg.tiers@),
            decreases tier_updates@.len() - i,
        {
            let u = &tier_updates[i];
            assert(tier_updates@.take(i + 1).drop_last() == tier_updates@.take(i as int));
            assert(tier_updates@.take(i + 1).last() == *u);
            let j = match find_tier_slot(&cfg.tiers, u.tier_id) {
                Some(j) => j,
                None => {
                    proof {
                        lemma_updated_tiers_err_extends(g.tiers@, tier_updates@, i as int + 1);
                    }
                    return Err(IC42NErrorCode::UnknownTier);
                },
            };
            proof {
                lemma_tier_index_bounds(cfg.tiers@, u.tier_id);
                lemma_updated_tiers_err_extends(g.tiers@, tier_updates@, i as int + 1);
            }
            let t = match apply_tier_update(cfg.tiers[j], u) {
                Ok(t) => t,
                Err(e) => {
                    assert(cfg.tiers@[j as int] == cfg.tiers[j as int]);
                    return Err(e);
                },
            };
            cfg.tiers[j] = t;
            i += 1;
        }
        assert(tier_updates@.take(tier_updates@.len() as int) == tier_updates@);
        if keys_equal(&cfg.authority, &cfg.fee_vault) {
            return Err(IC42NErrorCode::AuthorityCannotEqualFeeVault);
        }
        Self::check_fee_bounds(cfg.base_fee_bps, cfg.min_fee_bps, cfg.rollover_fee_step_bps)?;
        *self = cfg;
        Ok(())
    }
}

} // verus!
