use rotofi::cycle::{Cycle, CycleParams};
use rotofi::errors::CycleError;
use rotofi::organizer::OrganizerAccount;

fn params(amount: u64, max: u8, fee_bps: u16, cpp: u8, rounds: u8) -> CycleParams {
    let order: Vec<u64> = (1..=max as u64).collect();
    CycleParams {
        amount_per_user: amount,
        max_participants: max,
        organizer_fee_bps: fee_bps,
        contribution_interval: 60,
        contributions_per_payout: cpp,
        round_count: rounds,
        payout_order: order,
        token_kind: 7,
    }
}

#[test]
fn scenario_pot_and_stakes() {
    let mut ledger = OrganizerAccount::new();
    let cycle = Cycle::create_cycle(1, 9, params(100, 5, 0, 1, 5), 1_000, &mut ledger, 100).unwrap();
    assert_eq!(cycle.pot_amount, 500);
    assert_eq!(cycle.organizer_stake, 100);
    // The member stake is 10% of the pot: checked through a join below.
    let mut cycle = cycle;
    let membership = cycle.join_cycle(1, 50).unwrap();
    assert_eq!(membership.collateral, 50);
}

#[test]
fn create_initial_state() {
    let mut ledger = OrganizerAccount::new();
    let cycle = Cycle::create_cycle(1, 9, params(100, 5, 250, 2, 3), 1_000, &mut ledger, 100).unwrap();
    assert_eq!(cycle.id, 1);
    assert_eq!(cycle.organizer, 9);
    assert_eq!(cycle.token_kind, 7);
    assert!(!cycle.is_active);
    assert_eq!(cycle.current_participants, 0);
    assert_eq!(cycle.current_round, 0);
    assert_eq!(cycle.created_at, 100);
    assert_eq!(cycle.next_round_time, 160);
    assert_eq!(cycle.slashed_stakes, 0);
    assert_eq!(cycle.payout_order, vec![1, 2, 3, 4, 5]);
}

#[test]
fn create_updates_ledger() {
    let mut ledger = OrganizerAccount::new();
    let cycle = Cycle::create_cycle(1, 9, params(100, 5, 0, 1, 5), 1_000, &mut ledger, 321).unwrap();
    assert_eq!(ledger.total_cycles, 1);
    assert_eq!(ledger.locked_stake, cycle.organizer_stake);
    assert_eq!(ledger.last_cycle_time, 321);
}

#[test]
fn create_rejects_wrong_order_length() {
    let mut ledger = OrganizerAccount::new();
    let mut p = params(100, 5, 0, 1, 5);
    p.payout_order.pop();
    let r = Cycle::create_cycle(1, 9, p, 1_000, &mut ledger, 100);
    assert_eq!(r.unwrap_err(), CycleError::InvalidPayoutOrder);
    assert_eq!(ledger.total_cycles, 0);
}

#[test]
fn create_rejects_duplicate_order_entry() {
    let mut ledger = OrganizerAccount::new();
    let mut p = params(100, 5, 0, 1, 5);
    p.payout_order[4] = p.payout_order[0];
    let r = Cycle::create_cycle(1, 9, p, 1_000, &mut ledger, 100);
    assert_eq!(r.unwrap_err(), CycleError::InvalidPayoutOrder);
}

#[test]
fn create_rejects_zero_contributions_per_payout() {
    let mut ledger = OrganizerAccount::new();
    let p = params(100, 5, 0, 0, 5);
    let r = Cycle::create_cycle(1, 9, p, 1_000, &mut ledger, 100);
    assert_eq!(r.unwrap_err(), CycleError::InvalidParams);
}

#[test]
fn create_rejects_fee_above_ten_thousand_bps() {
    let mut ledger = OrganizerAccount::new();
    let p = params(100, 5, 10_001, 1, 5);
    let r = Cycle::create_cycle(1, 9, p, 1_000, &mut ledger, 100);
    assert_eq!(r.unwrap_err(), CycleError::InvalidParams);
}

#[test]
fn create_rejects_insufficient_stake() {
    let mut ledger = OrganizerAccount::new();
    // Required organizer stake is 100; the balance offers 99.
    let r = Cycle::create_cycle(1, 9, params(100, 5, 0, 1, 5), 99, &mut ledger, 100);
    assert_eq!(r.unwrap_err(), CycleError::InsufficientStake);
    assert_eq!(ledger.locked_stake, 0);
}

#[test]
fn create_rejects_pot_overflow() {
    let mut ledger = OrganizerAccount::new();
    let r = Cycle::create_cycle(1, 9, params(u64::MAX, 2, 0, 1, 1), u64::MAX, &mut ledger, 100);
    assert_eq!(r.unwrap_err(), CycleError::ArithmeticOverflow);
}

#[test]
fn create_rejects_sixth_cycle() {
    let mut ledger = OrganizerAccount::new();
    for id in 0..5u64 {
        Cycle::create_cycle(id, 9, params(100, 5, 0, 1, 5), 1_000, &mut ledger, 100).unwrap();
    }
    assert_eq!(ledger.total_cycles, 5);
    let r = Cycle::create_cycle(5, 9, params(100, 5, 0, 1, 5), 1_000, &mut ledger, 100);
    assert_eq!(r.unwrap_err(), CycleError::TooManyCycles);
}
