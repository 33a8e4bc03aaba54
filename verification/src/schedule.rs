use vstd::prelude::*;

verus! {

/// Whether a round boundary has been reached: a payout may be triggered once
/// the clock reaches `next_round_time`.
pub fn round_due(now: i64, next_round_time: i64) -> (r: bool)
    ensures
        r == (now >= next_round_time),
{
    now >= next_round_time
}

/// Whether the grace period for the current round has elapsed, so a default
/// may be reported: strictly after `next_round_time`.
pub fn grace_elapsed(now: i64, next_round_time: i64) -> (r: bool)
    ensures
        r == (now > next_round_time),
{
    now > next_round_time
}

/// Total number of contribution rounds in a cycle's life.
pub open spec fn spec_rounds_total(round_count: u8, contributions_per_payout: u8) -> int {
    round_count * contributions_per_payout
}

/// Whether every round of the cycle has elapsed.
pub open spec fn spec_cycle_complete(
    current_round: u64,
    round_count: u8,
    contributions_per_payout: u8,
) -> bool {
    current_round >= spec_rounds_total(round_count, contributions_per_payout)
}

/// Whether advancing past `current_round` closes a payout round: one payout is
/// due every `contributions_per_payout` elapsed rounds.
pub open spec fn spec_is_payout_round(current_round: u64, contributions_per_payout: u8) -> bool {
    (current_round + 1) % (contributions_per_payout as int) == 0
}

/// The position in the payout order of the member due for the payout that
/// closes at `current_round`.
pub open spec fn spec_payout_index(current_round: u64, contributions_per_payout: u8) -> int {
    (current_round + 1) / (contributions_per_payout as int) - 1
}

/// Total number of contribution rounds in a cycle's life.
pub fn rounds_total(round_count: u8, contributions_per_payout: u8) -> (r: u64)
    ensures
        r == spec_rounds_total(round_count, contributions_per_payout),
{
    proof {
        assert(round_count as int * contributions_per_payout as int <= 255 * 255)
            by (nonlinear_arith)
            requires round_count <= 255, contributions_per_payout <= 255,
        ;
    }
    (round_count as u64) * (contributions_per_payout as u64)
}

/// Whether every round of the cycle has elapsed.
pub fn cycle_complete(current_round: u64, round_count: u8, contributions_per_payout: u8) -> (r:
    bool)
    ensures
        r == spec_cycle_complete(current_round, round_count, contributions_per_payout),
{
    current_round >= rounds_total(round_count, contributions_per_payout)
}

/// Whether advancing past `current_round` closes a payout round.
pub fn is_payout_round(current_round: u64, contributions_per_payout: u8) -> (r: bool)
    requires
        contributions_per_payout >= 1,
        current_round < u64::MAX,
    ensures
        r == spec_is_payout_round(current_round, contributions_per_payout),
{
    (current_round + 1) % (contributions_per_payout as u64) == 0
}

/// The position in the payout order of the member due for the payout that
/// closes at `current_round`.
pub fn payout_index(current_round: u64, contributions_per_payout: u8) -> (r: u64)
    requires
        contributions_per_payout >= 1,
        current_round < u64::MAX,
        spec_is_payout_round(current_round, contributions_per_payout),
    ensures
        r == spec_payout_index(current_round, contributions_per_payout),
{
    (current_round + 1) / (contributions_per_payout as u64) - 1
}

} // verus!
