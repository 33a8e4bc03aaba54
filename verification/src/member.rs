use vstd::prelude::*;

verus! {

/// Per-participant record of one cycle: collateral balance, contribution
/// count, and the activity and payout flags.
///
/// `collateral` only ever shrinks, and once `is_active` turns false it never
/// turns true again.
#[derive(Clone, Copy, Debug, PartialEq, Eq, Structural)]
pub struct Membership {
    /// Identifier of the cycle this membership belongs to.
    pub cycle: u64,
    /// Identity of the participant.
    pub member: u64,
    /// Number of contributions the member has made so far.
    pub contributions_made: u64,
    /// Whether the member has already received a pot payout.
    pub payout_received: bool,
    /// Remaining posted collateral.
    pub collateral: u64,
    /// Whether the membership is still active.
    pub is_active: bool,
}

impl Membership {
    /// A fresh membership, as created on admission: full collateral posted,
    /// no contributions yet, no payout received.
    pub fn new(cycle: u64, member: u64, collateral: u64) -> (r: Membership)
        ensures
            r == (Membership {
                cycle,
                member,
                contributions_made: 0,
                payout_received: false,
                collateral,
                is_active: true,
            }),
    {
        Membership {
            cycle,
            member,
            contributions_made: 0,
            payout_received: false,
            collateral,
            is_active: true,
        }
    }
}

} // verus!
