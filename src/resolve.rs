//! Rules applied when an epoch closes: the next blocked number and the fee curve.
use vstd::prelude::*;

verus! {

/// Next blocked number: unchanged when the winning number is 0 or is the
/// blocked number itself, otherwise the winning number.
pub open spec fn spec_next_rollover_number(winning_number: u8, current_rollover: u8) -> u8 {
    if winning_number == 0 || winning_number == current_rollover {
        current_rollover
    } else {
        winning_number
    }
}

/// Next blocked number after an epoch with winning number `winning_number`.
pub fn get_next_rollover_number(winning_number: u8, current_rollover: u8) -> (r: u8)
    ensures
        r == spec_next_rollover_number(winning_number, current_rollover),
{
    if winning_number == 0 || winning_number == current_rollover {
        current_rollover
    } else {
        winning_number
    }
}

/// The fee after a rollover caused by the blocked number: one step below the
/// current fee (itself first raised to the floor), and never below the floor.
pub open spec fn spec_next_fee_on_rollover(current: u16, step: u16, min: u16) -> u16 {
    let cur: int = if current >= min { current as int } else { min as int };
    if cur - step >= min { (cur - step) as u16 } else { min }
}

/// Fee in basis points after a rollover caused by the blocked number.
pub fn next_fee_bps_on_rollover(current_fee_bps: u16, rollover_step_bps: u16, min_fee_bps: u16) -> (r: u16)
    ensures
        r == spec_next_fee_on_rollover(current_fee_bps, rollover_step_bps, min_fee_bps),
        r >= min_fee_bps,
{
    if rollover_step_bps == 0 {
        return if current_fee_bps >= min_fee_bps { current_fee_bps } else { min_fee_bps };
    }
    let current = if current_fee_bps >= min_fee_bps { current_fee_bps } else { min_fee_bps };
    let decreased = current.saturating_sub(rollover_step_bps);
    if decreased >= min_fee_bps { decreased } else { min_fee_bps }
}

} // verus!
