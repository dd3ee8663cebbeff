//! Chain time as the engine reads it, and the staking cutoff near an epoch's end.
use vstd::arithmetic::power2::pow2;
use vstd::prelude::*;

use anchor_lang::solana_program::epoch_schedule::EpochSchedule;

verus! {

/// The chain clock at the time of an operation.
#[derive(Clone, Copy)]
pub struct ClockSnapshot {
    /// Current slot.
    pub slot: u64,
    /// Current epoch.
    pub epoch: u64,
    /// Current time in seconds.
    pub unix_timestamp: i64,
}

/// The cluster's epoch schedule, as plain values: how slots are grouped into
/// epochs (short, growing epochs during warmup, then fixed-length ones).
#[derive(Clone, Copy)]
pub struct SlotSchedule {
    /// Slots in each epoch after warmup.
    pub slots_per_epoch: u64,
    /// Slots before an epoch at which its leader schedule is fixed.
    pub leader_schedule_slot_offset: u64,
    /// Whether epochs start short and grow.
    pub warmup: bool,
    /// First epoch after warmup.
    pub first_normal_epoch: u64,
    /// First slot after warmup.
    pub first_normal_slot: u64,
}

/// Shortest epoch, in slots; warmup epochs double from here.
pub const MINIMUM_SLOTS_PER_EPOCH: u64 = 32;

/// `x` clamped into `u64`.
pub open spec fn saturate(x: int) -> u64 {
    if x > u64::MAX {
        u64::MAX
    } else if x < 0 {
        0
    } else {
        x as u64
    }
}

/// `2^e`, saturating at the largest `u64`.
pub open spec fn pow2_saturating(e: nat) -> u64 {
    if e >= 64 {
        u64::MAX
    } else {
        pow2(e) as u64
    }
}

/// Length in slots of `epoch`: during warmup `2^(epoch + 5)` (the epoch taken
/// modulo `2^32`, the exponent and the power saturating), then the fixed length.
pub open spec fn spec_slots_in_epoch(s: SlotSchedule, epoch: u64) -> u64 {
    if epoch < s.first_normal_epoch {
        let e32: int = epoch as int % 0x1_0000_0000;
        let exp: int = if e32 + 5 > u32::MAX { u32::MAX as int } else { e32 + 5 };
        pow2_saturating(exp as nat)
    } else {
        s.slots_per_epoch
    }
}

/// First slot of `epoch`: during warmup `(2^epoch - 1) * 32`, afterwards
/// `first_normal_slot` plus whole fixed-length epochs, each step saturating.
pub open spec fn spec_first_slot_in_epoch(s: SlotSchedule, epoch: u64) -> u64 {
    if epoch <= s.first_normal_epoch {
        saturate(
            (pow2_saturating((epoch as int % 0x1_0000_0000) as nat) - 1) * MINIMUM_SLOTS_PER_EPOCH,
        )
    } else {
        saturate(
            saturate((epoch - s.first_normal_epoch) * s.slots_per_epoch) + s.first_normal_slot,
        )
    }
}

/// The epoch a slot falls in under a schedule.
pub uninterp spec fn epoch_of_slot(
    slots_per_epoch: u64,
    leader_schedule_slot_offset: u64,
    warmup: bool,
    first_normal_epoch: u64,
    first_normal_slot: u64,
    slot: u64,
) -> u64;

/// The schedule's epoch for `slot`.
pub open spec fn spec_epoch_of(s: SlotSchedule, slot: u64) -> u64 {
    epoch_of_slot(
        s.slots_per_epoch,
        s.leader_schedule_slot_offset,
        s.warmup,
        s.first_normal_epoch,
        s.first_normal_slot,
        slot,
    )
}

/// The schedule can place `slot` without overflow: a warmup slot must leave
/// `slot + 33` rounded up to a power of two within `u64`.
pub open spec fn slot_in_range(s: SlotSchedule, slot: u64) -> bool {
    slot >= s.first_normal_slot || slot + MINIMUM_SLOTS_PER_EPOCH + 1 <= 0x8000_0000_0000_0000
}

/// Relies on `EpochSchedule::get_epoch`: the epoch of a slot, a function of
/// the schedule and the slot alone. For a warmup slot it rounds `slot + 33` up
/// to a power of two, which overflows past `2^63`; `requires` leaves that out.
#[verifier::external_body]
fn schedule_epoch(s: &SlotSchedule, slot: u64) -> (r: u64)
    requires
        slot_in_range(*s, slot),
    ensures
        r == epoch_of_slot(
            s.slots_per_epoch,
            s.leader_schedule_slot_offset,
            s.warmup,
            s.first_normal_epoch,
            s.first_normal_slot,
            slot,
        ),
{
    EpochSchedule {
        slots_per_epoch: s.slots_per_epoch,
        leader_schedule_slot_offset: s.leader_schedule_slot_offset,
        warmup: s.warmup,
        first_normal_epoch: s.first_normal_epoch,
        first_normal_slot: s.first_normal_slot,
    }.get_epoch(slot)
}

/// Relies on `EpochSchedule::get_first_slot_in_epoch`: the first slot of an
/// epoch, computed with saturating arithmetic as stated.
#[verifier::external_body]
fn schedule_first_slot(s: &SlotSchedule, epoch: u64) -> (r: u64)
    ensures
        r == spec_first_slot_in_epoch(*s, epoch),
{
    EpochSchedule {
        slots_per_epoch: s.slots_per_epoch,
        leader_schedule_slot_offset: s.leader_schedule_slot_offset,
        warmup: s.warmup,
        first_normal_epoch: s.first_normal_epoch,
        first_normal_slot: s.first_normal_slot,
    }.get_first_slot_in_epoch(epoch)
}

/// Relies on `EpochSchedule::get_slots_in_epoch`: the length of an epoch in
/// slots, computed with saturating arithmetic as stated.
#[verifier::external_body]
fn schedule_slots_in_epoch(s: &SlotSchedule, epoch: u64) -> (r: u64)
    ensures
        r == spec_slots_in_epoch(*s, epoch),
{
    EpochSchedule {
        slots_per_epoch: s.slots_per_epoch,
        leader_schedule_slot_offset: s.leader_schedule_slot_offset,
        warmup: s.warmup,
        first_normal_epoch: s.first_normal_epoch,
        first_normal_slot: s.first_normal_slot,
    }.get_slots_in_epoch(epoch)
}

/// Staking is open when more than `cutoff` slots are left in the epoch. When
/// the schedule places the slot in another epoch than the clock does, the
/// check fails open: the disagreement is timing skew, not a boundary.
pub open spec fn spec_betting_window_open(
    clock_epoch: u64,
    epoch_from_slot: u64,
    first_slot: u64,
    slots_in_epoch: u64,
    current_slot: u64,
    cutoff: u64,
) -> bool {
    if epoch_from_slot != clock_epoch {
        true
    } else {
        let end: int = if first_slot + slots_in_epoch > u64::MAX {
            u64::MAX as int
        } else {
            first_slot + slots_in_epoch
        };
        let last: int = if end >= 1 { end - 1 } else { 0 };
        let remaining: int = if last >= current_slot { last - current_slot } else { 0 };
        remaining > cutoff
    }
}

/// Decides the staking cutoff from the schedule's view of the current slot.
pub fn betting_window_open(
    clock_epoch: u64,
    epoch_from_slot: u64,
    first_slot: u64,
    slots_in_epoch: u64,
    current_slot: u64,
    min_slots_cutoff: u64,
) -> (r: bool)
    ensures
        r == spec_betting_window_open(
            clock_epoch,
            epoch_from_slot,
            first_slot,
            slots_in_epoch,
            current_slot,
            min_slots_cutoff,
        ),
{
    if epoch_from_slot != clock_epoch {
        return true;
    }
    let last_slot = first_slot.saturating_add(slots_in_epoch).saturating_sub(1);
    let slots_remaining = last_slot.saturating_sub(current_slot);
    slots_remaining > min_slots_cutoff
}

/// Whether staking is still open at `clock` under `schedule`, given the
/// minimum number of slots that must remain in the epoch: fails open when the
/// schedule puts the slot in another epoch than the clock, otherwise compares
/// the slots left in the schedule's epoch with the cutoff.
pub fn is_betting_still_open(schedule: &SlotSchedule, clock: &ClockSnapshot, min_slots_cutoff: u64) -> (r:
    bool)
    requires
        slot_in_range(*schedule, clock.slot),
    ensures
        ({
            let e = spec_epoch_of(*schedule, clock.slot);
            r == spec_betting_window_open(
                clock.epoch,
                e,
                spec_first_slot_in_epoch(*schedule, e),
                spec_slots_in_epoch(*schedule, e),
                clock.slot,
                min_slots_cutoff,
            )
        }),
{
    let epoch_from_slot = schedule_epoch(schedule, clock.slot);
    let first_slot = schedule_first_slot(schedule, epoch_from_slot);
    let slots_in_epoch = schedule_slots_in_epoch(schedule, epoch_from_slot);
    betting_window_open(
        clock.epoch,
        epoch_from_slot,
        first_slot,
        slots_in_epoch,
        clock.slot,
        min_slots_cutoff,
    )
}

/// Whether the schedule can place `slot` (see `slot_in_range`).
pub fn schedule_covers_slot(schedule: &SlotSchedule, slot: u64) -> (r: bool)
    ensures
        r == slot_in_range(*schedule, slot),
{
    slot >= schedule.first_normal_slot || slot <= 0x8000_0000_0000_0000 - (MINIMUM_SLOTS_PER_EPOCH
        + 1)
}

} // verus!
