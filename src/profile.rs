//! Player profile: tickets, the deletion lock and a ring of recent records.
use vstd::prelude::*;

use crate::config::{find_tier, Config};
use crate::errors::IC42NErrorCode;

verus! {

/// Largest number of tickets one grant may give.
pub const MAX_TICKETS_PER_GRANT: u32 = 5;
/// Largest number of tickets a player may hold.
pub const MAX_TICKETS_PER_PLAYER: u32 = 100;
/// How many recent records the profile remembers.
pub const RECENT_BETS_CAP: usize = 40;

/// Per-player statistics and tickets.
#[derive(Clone, Copy)]
pub struct PlayerProfile {
    /// Owner; all zeros while the profile is unused.
    pub player: [u8; 32],
    /// Address bump of the profile account.
    pub bump: u8,
    /// Tickets left; one is spent per selection change.
    pub tickets_available: u32,
    /// Records ever placed.
    pub total_bets: u64,
    /// Lamports ever staked.
    pub total_lamports_wagered: u64,
    /// Epoch of the last placement.
    pub last_played_epoch: u64,
    /// Tier of the last placement.
    pub last_played_tier: u8,
    /// Time of the last placement.
    pub last_played_timestamp: i64,
    /// Experience points.
    pub xp_points: u32,
    /// Ring of the most recent record addresses.
    pub recent_bets: [[u8; 32]; 40],
    /// Entries of the ring in use.
    pub recent_bets_len: u16,
    /// Next ring slot to write.
    pub recent_bets_head: u16,
    /// The profile may not be closed before this epoch.
    pub locked_until_epoch: u64,
    /// First epoch the player played in.
    pub first_played_epoch: u64,
}

impl PlayerProfile {
    /// The ring's head and length stay within its capacity.
    pub open spec fn wf(&self) -> bool {
        &&& self.recent_bets_head < RECENT_BETS_CAP
        &&& self.recent_bets_len <= RECENT_BETS_CAP
    }

    /// Writes `bet` at the ring's head and advances it, keeping only the last
    /// forty entries.
    pub fn push_recent_bet(&mut self, bet: [u8; 32])
        requires
            old(self).wf(),
        ensures
            final(self).wf(),
            final(self).recent_bets@ == old(self).recent_bets@.update(
                old(self).recent_bets_head as int,
                bet,
            ),
            final(self).recent_bets_head as int == (old(self).recent_bets_head + 1) % 40,
            final(self).recent_bets_len == if old(self).recent_bets_len < 40 {
                (old(self).recent_bets_len + 1) as u16
            } else {
                40
            },
            *final(self) == (PlayerProfile {
                recent_bets: final(self).recent_bets,
                recent_bets_head: final(self).recent_bets_head,
                recent_bets_len: final(self).recent_bets_len,
                ..*old(self)
            }),
    {
        let head = self.recent_bets_head as usize;
        self.recent_bets[head] = bet;
        let next = (head + 1) % RECENT_BETS_CAP;
        self.recent_bets_head = next as u16;
        if (self.recent_bets_len as usize) < RECENT_BETS_CAP {
            self.recent_bets_len = self.recent_bets_len + 1;
        }
    }
}

/// Tickets after a grant: added with saturation, capped at the per-player maximum.
pub open spec fn tickets_after_grant(available: u32, tickets: u32) -> u32 {
    if available + tickets >= MAX_TICKETS_PER_PLAYER {
        MAX_TICKETS_PER_PLAYER
    } else {
        (available + tickets) as u32
    }
}

/// Grants `tickets`, never beyond the per-player maximum.
pub fn award_tickets_to_profile(profile: &mut PlayerProfile, tickets: u32)
    ensures
        *final(profile) == (PlayerProfile {
            tickets_available: tickets_after_grant(old(profile).tickets_available, tickets),
            ..*old(profile)
        }),
{
    let total = profile.tickets_available.saturating_add(tickets);
    profile.tickets_available = if total < MAX_TICKETS_PER_PLAYER {
        total
    } else {
        MAX_TICKETS_PER_PLAYER
    };
}

/// Grants the tickets that tier `tier` gives each selected recipient.
pub fn award_ticket_auto(config: &Config, profile: &mut PlayerProfile, tier: u8) -> (r: Result<
    (),
    IC42NErrorCode,
>)
    ensures
        match find_tier(config.tiers@, tier) {
            None => r == Err::<(), IC42NErrorCode>(IC42NErrorCode::UnknownTier) && *final(profile)
                == *old(profile),
            Some(t) => r is Ok && *final(profile) == (PlayerProfile {
                tickets_available: if t.tickets_per_recipient == 0 {
                    old(profile).tickets_available
                } else {
                    tickets_after_grant(
                        old(profile).tickets_available,
                        t.tickets_per_recipient as u32,
                    )
                },
                ..*old(profile)
            }),
        },
{
    let settings = config.get_tier_settings(tier)?;
    let tickets = settings.tickets_per_recipient as u32;
    if tickets == 0 {
        return Ok(());
    }
    award_tickets_to_profile(profile, tickets);
    Ok(())
}

/// Grants `tickets` by hand: one to five at a time.
pub fn award_ticket_manual(profile: &mut PlayerProfile, tickets: u32) -> (r: Result<
    (),
    IC42NErrorCode,
>)
    ensures
        1 <= tickets <= MAX_TICKETS_PER_GRANT ==> r is Ok && *final(profile) == (PlayerProfile {
            tickets_available: tickets_after_grant(old(profile).tickets_available, tickets),
            ..*old(profile)
        }),
        !(1 <= tickets <= MAX_TICKETS_PER_GRANT) ==> r == Err::<(), IC42NErrorCode>(
            IC42NErrorCode::InvalidTicketAmount,
        ) && *final(profile) == *old(profile),
{
    if tickets == 0 || tickets > MAX_TICKETS_PER_GRANT {
        return Err(IC42NErrorCode::InvalidTicketAmount);
    }
    award_tickets_to_profile(profile, tickets);
    Ok(())
}

/// A profile may be closed once its lock epoch is reached.
pub fn close_profile(profile: &PlayerProfile, current_epoch: u64) -> (r: Result<(), IC42NErrorCode>)
    ensures
        r is Ok <==> current_epoch >= profile.locked_until_epoch,
        r is Err ==> r == Err::<(), IC42NErrorCode>(IC42NErrorCode::ProfileLockedActiveGame),
{
    if current_epoch >= profile.locked_until_epoch {
        Ok(())
    } else {
        Err(IC42NErrorCode::ProfileLockedActiveGame)
    }
}

} // verus!
