use vstd::prelude::*;

verus! {

/// Structured error codes for every cycle operation. A rejected operation is
/// atomic: it leaves every record unchanged.
#[derive(Clone, Copy, Debug, PartialEq, Eq, Structural)]
pub enum CycleError {
    /// The payout order's length does not match `max_participants`, or it
    /// contains a duplicate identity.
    InvalidPayoutOrder,
    /// A fixed cycle parameter is outside its allowed range (zero participants,
    /// fee above 100%, non-positive interval, zero rounds).
    InvalidParams,
    /// The organizer is at the cap of simultaneously creatable cycles.
    TooManyCycles,
    /// A balance or counter update would overflow.
    ArithmeticOverflow,
    /// A balance or counter update would underflow.
    ArithmeticUnderflow,
    /// The available escrow balance is below the required stake or contribution.
    InsufficientStake,
    /// The cycle already has `max_participants` members.
    CycleFull,
    /// The joining identity does not appear in the cycle's payout order.
    NotInPayoutOrder,
    /// The identity already holds a membership in this cycle.
    AlreadyJoined,
    /// The cycle has not been activated (or was never filled).
    CycleNotActive,
    /// The cycle is active, so the operation is no longer (or not yet) allowed.
    CycleStillActive,
    /// The current time is before `next_round_time`.
    PayoutTooEarly,
    /// Every round of the cycle has already elapsed.
    CycleComplete,
    /// The designated recipient is not the member due for this payout round.
    InvalidPayoutRecipient,
    /// The grace period for the current round has not elapsed yet.
    TooEarlyToReport,
    /// The contribution window for the current round has closed.
    ContributionWindowClosed,
    /// The member has already contributed for every elapsed round.
    AlreadyContributed,
    /// The membership is no longer active.
    MemberNotActive,
    /// The membership is still active.
    MemberStillActive,
    /// The membership does not belong to this cycle.
    InvalidCycle,
    /// The membership does not belong to the designated recipient.
    InvalidMember,
}

} // verus!
