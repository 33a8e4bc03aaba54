use rotofi::cycle::{Cycle, CycleParams};
use rotofi::errors::CycleError;
use rotofi::member::Membership;
use rotofi::organizer::OrganizerAccount;

fn cycle_of(max: u8) -> Cycle {
    let mut ledger = OrganizerAccount::new();
    let params = CycleParams {
        amount_per_user: 100,
        max_participants: max,
        organizer_fee_bps: 0,
        contribution_interval: 60,
        contributions_per_payout: 1,
        round_count: max,
        payout_order: (1..=max as u64).collect(),
        token_kind: 7,
    };
    Cycle::create_cycle(1, 9, params, 1_000_000, &mut ledger, 100).unwrap()
}

fn inactive_membership(cycle: &Cycle, member: u64, collateral: u64) -> Membership {
    Membership {
        cycle: cycle.id,
        member,
        contributions_made: 0,
        payout_received: false,
        collateral,
        is_active: false,
    }
}

#[test]
fn scenario_claim_splits_collateral() {
    let mut cycle = cycle_of(3);
    for member in 1..=3u64 {
        cycle.join_cycle(member, 1_000).unwrap();
    }
    let slashed_before = cycle.slashed_stakes;
    let mut membership = inactive_membership(&cycle, 2, 300);
    let split = cycle.claim_collateral(&mut membership).unwrap();
    assert_eq!(split.organizer_share, 150);
    assert_eq!(split.redistribution_share, 150);
    assert_eq!(cycle.slashed_stakes, slashed_before + 150);
    assert_eq!(membership.collateral, 0);
}

#[test]
fn claim_rounds_organizer_share_down() {
    let mut cycle = cycle_of(3);
    for member in 1..=3u64 {
        cycle.join_cycle(member, 1_000).unwrap();
    }
    let mut membership = inactive_membership(&cycle, 2, 301);
    let split = cycle.claim_collateral(&mut membership).unwrap();
    assert_eq!(split.organizer_share, 150);
    assert_eq!(split.redistribution_share, 151);
}

#[test]
fn claim_active_member_fails() {
    let mut cycle = cycle_of(3);
    let mut memberships = Vec::new();
    for member in 1..=3u64 {
        memberships.push(cycle.join_cycle(member, 1_000).unwrap());
    }
    let r = cycle.claim_collateral(&mut memberships[0]);
    assert_eq!(r.unwrap_err(), CycleError::MemberStillActive);
}

#[test]
fn claim_on_inactive_cycle_fails() {
    let mut cycle = cycle_of(3);
    let mut membership = inactive_membership(&cycle, 2, 300);
    let r = cycle.claim_collateral(&mut membership);
    assert_eq!(r.unwrap_err(), CycleError::CycleNotActive);
    assert_eq!(membership.collateral, 300);
}

#[test]
fn claim_foreign_membership_fails() {
    let mut cycle = cycle_of(3);
    for member in 1..=3u64 {
        cycle.join_cycle(member, 1_000).unwrap();
    }
    let mut membership = inactive_membership(&cycle, 2, 300);
    membership.cycle = 99;
    let r = cycle.claim_collateral(&mut membership);
    assert_eq!(r.unwrap_err(), CycleError::InvalidCycle);
}

#[test]
fn exit_before_activation_refunds_collateral() {
    let mut cycle = cycle_of(3);
    let mut membership = cycle.join_cycle(2, 1_000).unwrap();
    assert_eq!(cycle.current_participants, 1);
    let refund = cycle.exit_cycle(&mut membership).unwrap();
    assert_eq!(refund, 30);
    assert_eq!(membership.collateral, 0);
    assert!(!membership.is_active);
    assert_eq!(cycle.current_participants, 0);
    assert_eq!(cycle.payout_order, vec![1, 3]);
}

#[test]
fn exit_active_cycle_fails() {
    let mut cycle = cycle_of(2);
    let mut m1 = cycle.join_cycle(1, 1_000).unwrap();
    cycle.join_cycle(2, 1_000).unwrap();
    assert!(cycle.is_active);
    let r = cycle.exit_cycle(&mut m1);
    assert_eq!(r.unwrap_err(), CycleError::CycleStillActive);
    assert!(m1.is_active);
}

#[test]
fn exited_member_cannot_rejoin() {
    let mut cycle = cycle_of(3);
    let mut membership = cycle.join_cycle(2, 1_000).unwrap();
    cycle.exit_cycle(&mut membership).unwrap();
    let r = cycle.join_cycle(2, 1_000);
    assert_eq!(r.unwrap_err(), CycleError::NotInPayoutOrder);
}

#[test]
fn close_cycle_settles_residue() {
    let mut ledger = OrganizerAccount::new();
    let params = CycleParams {
        amount_per_user: 100,
        max_participants: 2,
        organizer_fee_bps: 0,
        contribution_interval: 60,
        contributions_per_payout: 1,
        round_count: 2,
        payout_order: vec![1, 2],
        token_kind: 7,
    };
    let mut cycle = Cycle::create_cycle(1, 9, params, 1_000, &mut ledger, 100).unwrap();
    let mut m1 = cycle.join_cycle(1, 1_000).unwrap();
    let mut m2 = cycle.join_cycle(2, 1_000).unwrap();
    let r = cycle.close_cycle();
    assert_eq!(r.unwrap_err(), CycleError::CycleStillActive);
    for (round, m) in [&mut m1, &mut m2].into_iter().enumerate() {
        let due = cycle.next_round_time;
        let recipient = cycle.payout_order[round];
        cycle.trigger_payout(recipient, m, due).unwrap().unwrap();
    }
    assert!(!cycle.is_active);
    let r = cycle.close_cycle();
    assert_eq!(r.unwrap_err(), CycleError::MemberStillActive);
    cycle.exit_cycle(&mut m1).unwrap();
    cycle.exit_cycle(&mut m2).unwrap();
    // Residue: the organizer stake (40) plus the undistributed slash pool (0).
    assert_eq!(cycle.close_cycle().unwrap(), 40);
}
