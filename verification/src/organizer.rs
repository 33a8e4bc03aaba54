use vstd::prelude::*;

use crate::errors::CycleError;

verus! {

/// Cap on the number of cycles an organizer may have created; the lifetime
/// count never decreases, so it is also a cap on open cycles.
pub const MAX_CYCLES_PER_ORGANIZER: u64 = 5;

/// Aggregate ledger of one organizer's exposure across its cycles: how many
/// cycles it has created, how much stake those cycles hold, and when the last
/// one was created.
#[derive(Clone, Copy, Debug, PartialEq, Eq, Structural)]
pub struct OrganizerAccount {
    /// Lifetime count of cycles created; never decremented.
    pub total_cycles: u64,
    /// Sum of organizer stakes locked across open cycles.
    pub locked_stake: u64,
    /// Timestamp of the most recent cycle creation.
    pub last_cycle_time: i64,
}

impl OrganizerAccount {
    /// The ledger of an organizer that has not created any cycle yet.
    pub fn new() -> (r: OrganizerAccount)
        ensures
            r == (OrganizerAccount { total_cycles: 0, locked_stake: 0, last_cycle_time: 0 }),
    {
        OrganizerAccount { total_cycles: 0, locked_stake: 0, last_cycle_time: 0 }
    }

    /// Whether this organizer is still below the cycle-creation cap.
    pub fn can_create(&self) -> (r: bool)
        ensures
            r == (self.total_cycles < MAX_CYCLES_PER_ORGANIZER),
    {
        self.total_cycles < MAX_CYCLES_PER_ORGANIZER
    }

    /// Records one cycle creation: bumps the lifetime count, locks the new
    /// cycle's stake, and stamps the creation time. Rejects (leaving the
    /// ledger unchanged) if the locked-stake sum would overflow.
    pub fn record_creation(&mut self, stake: u64, now: i64) -> (r: Result<(), CycleError>)
        requires
            old(self).total_cycles < MAX_CYCLES_PER_ORGANIZER,
        ensures
            old(self).locked_stake + stake <= u64::MAX ==> r == Ok::<(), CycleError>(())
                && *final(self) == (OrganizerAccount {
                total_cycles: (old(self).total_cycles + 1) as u64,
                locked_stake: (old(self).locked_stake + stake) as u64,
                last_cycle_time: now,
            }),
            old(self).locked_stake + stake > u64::MAX ==> r == Err::<(), CycleError>(
                CycleError::ArithmeticOverflow,
            ) && *final(self) == *old(self),
    {
        match self.locked_stake.checked_add(stake) {
            Some(locked) => {
                self.total_cycles = self.total_cycles + 1;
                self.locked_stake = locked;
                self.last_cycle_time = now;
                Ok(())
            },
            None => Err(CycleError::ArithmeticOverflow),
        }
    }
}

} // verus!
