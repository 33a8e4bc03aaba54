use rotofi::cycle::{Cycle, CycleParams};
use rotofi::errors::CycleError;
use rotofi::member::Membership;
use rotofi::organizer::OrganizerAccount;
use rotofi::penalty::penalty_for;

// Pot is 10_000, so each member posts 1_000 of collateral.
fn active_cycle() -> (Cycle, Vec<Membership>) {
    let mut ledger = OrganizerAccount::new();
    let params = CycleParams {
        amount_per_user: 2_000,
        max_participants: 5,
        organizer_fee_bps: 0,
        contribution_interval: 60,
        contributions_per_payout: 1,
        round_count: 5,
        payout_order: vec![1, 2, 3, 4, 5],
        token_kind: 7,
    };
    let mut cycle = Cycle::create_cycle(1, 9, params, 1_000_000, &mut ledger, 100).unwrap();
    let mut memberships = Vec::new();
    for member in 1..=5u64 {
        memberships.push(cycle.join_cycle(member, 1_000_000).unwrap());
    }
    (cycle, memberships)
}

#[test]
fn penalty_tiers() {
    assert_eq!(penalty_for(1_000, false, 0).unwrap(), 0);
    assert_eq!(penalty_for(1_000, false, 1).unwrap(), 200);
    assert_eq!(penalty_for(1_000, false, 2).unwrap(), 400);
    assert_eq!(penalty_for(1_000, false, 3).unwrap(), 1_000);
    assert_eq!(penalty_for(1_000, false, 4).unwrap(), 1_000);
    // A member who already took the pot forfeits everything at once.
    assert_eq!(penalty_for(1_000, true, 0).unwrap(), 1_000);
}

#[test]
fn penalty_is_monotone_in_missed_rounds() {
    let mut last = 0u64;
    for missed in 0..6u64 {
        let p = penalty_for(1_000, false, missed).unwrap();
        assert!(p >= last);
        last = p;
    }
    assert_eq!(last, 1_000);
}

#[test]
fn scenario_single_missed_round() {
    let (mut cycle, mut members) = active_cycle();
    assert_eq!(members[2].collateral, 1_000);
    // Round 0 is open and member 3 has not contributed: one round missed.
    let after_grace = cycle.next_round_time + 1;
    let penalty = cycle.report_default(&mut members[2], after_grace).unwrap();
    assert_eq!(penalty, 200);
    assert_eq!(members[2].collateral, 800);
    assert!(members[2].is_active);
    assert_eq!(cycle.slashed_stakes, 200);
    assert_eq!(cycle.payout_order.len(), 5);
}

#[test]
fn scenario_three_missed_rounds_full_slash() {
    let (mut cycle, mut members) = active_cycle();
    // Let two rounds elapse with payouts to the members due for them.
    for round in 0..2usize {
        let due = cycle.next_round_time;
        let recipient = cycle.payout_order[round];
        cycle
            .trigger_payout(recipient, &mut members[round], due)
            .unwrap()
            .unwrap();
    }
    // Member 3 never contributed: rounds 0, 1 and the open round 2 are missed.
    let after_grace = cycle.next_round_time + 1;
    let penalty = cycle.report_default(&mut members[2], after_grace).unwrap();
    assert_eq!(penalty, 1_000);
    assert_eq!(members[2].collateral, 0);
    assert!(!members[2].is_active);
    assert_eq!(cycle.slashed_stakes, 1_000);
    // The member left the payout order; the count matches the entries left.
    assert_eq!(cycle.payout_order, vec![1, 2, 4, 5]);
    assert_eq!(cycle.current_participants, 4);
}

#[test]
fn post_payout_default_slashes_everything() {
    let (mut cycle, mut members) = active_cycle();
    let due = cycle.next_round_time;
    cycle.trigger_payout(1, &mut members[0], due).unwrap().unwrap();
    assert!(members[0].payout_received);
    // Member 1 contributed for round 0 but stops afterwards; even with a
    // single missed round the slash is total.
    members[0].contributions_made = 1;
    let after_grace = cycle.next_round_time + 1;
    let penalty = cycle.report_default(&mut members[0], after_grace).unwrap();
    assert_eq!(penalty, 1_000);
    assert_eq!(members[0].collateral, 0);
    assert!(!members[0].is_active);
}

#[test]
fn contribution_prevents_penalty() {
    let (mut cycle, mut members) = active_cycle();
    let now = cycle.next_round_time - 10;
    let amount = cycle.submit_contribution(&mut members[2], 1_000_000, now).unwrap();
    assert_eq!(amount, 2_000);
    assert_eq!(members[2].contributions_made, 1);
    // Nothing is missed, so the reported penalty is zero.
    let after_grace = cycle.next_round_time + 1;
    let penalty = cycle.report_default(&mut members[2], after_grace).unwrap();
    assert_eq!(penalty, 0);
    assert_eq!(members[2].collateral, 1_000);
}

#[test]
fn report_before_grace_fails() {
    let (mut cycle, mut members) = active_cycle();
    let r = cycle.report_default(&mut members[2], cycle.next_round_time);
    assert_eq!(r.unwrap_err(), CycleError::TooEarlyToReport);
    assert_eq!(members[2].collateral, 1_000);
    assert_eq!(cycle.slashed_stakes, 0);
}

#[test]
fn report_overcounted_contributions_fails() {
    let (mut cycle, mut members) = active_cycle();
    // A record claiming more contributions than rounds elapsed is rejected
    // rather than wrapped around.
    members[2].contributions_made = 7;
    let after_grace = cycle.next_round_time + 1;
    let r = cycle.report_default(&mut members[2], after_grace);
    assert_eq!(r.unwrap_err(), CycleError::ArithmeticUnderflow);
}

#[test]
fn contribute_twice_in_one_round_fails() {
    let (cycle, mut members) = active_cycle();
    let now = cycle.next_round_time - 10;
    cycle.submit_contribution(&mut members[0], 1_000_000, now).unwrap();
    let r = cycle.submit_contribution(&mut members[0], 1_000_000, now);
    assert_eq!(r.unwrap_err(), CycleError::AlreadyContributed);
    assert_eq!(members[0].contributions_made, 1);
}

#[test]
fn contribute_after_window_fails() {
    let (cycle, mut members) = active_cycle();
    let r = cycle.submit_contribution(&mut members[0], 1_000_000, cycle.next_round_time);
    assert_eq!(r.unwrap_err(), CycleError::ContributionWindowClosed);
}

#[test]
fn contribute_insufficient_balance_fails() {
    let (cycle, mut members) = active_cycle();
    let now = cycle.next_round_time - 10;
    let r = cycle.submit_contribution(&mut members[0], 1_999, now);
    assert_eq!(r.unwrap_err(), CycleError::InsufficientStake);
}

#[test]
fn catching_up_missed_rounds() {
    let (mut cycle, mut members) = active_cycle();
    let due = cycle.next_round_time;
    cycle.trigger_payout(1, &mut members[0], due).unwrap().unwrap();
    // Member 2 missed round 0; during round 1 it may submit twice to catch up.
    let now = cycle.next_round_time - 10;
    cycle.submit_contribution(&mut members[1], 1_000_000, now).unwrap();
    cycle.submit_contribution(&mut members[1], 1_000_000, now).unwrap();
    assert_eq!(members[1].contributions_made, 2);
    let r = cycle.submit_contribution(&mut members[1], 1_000_000, now);
    assert_eq!(r.unwrap_err(), CycleError::AlreadyContributed);
}
