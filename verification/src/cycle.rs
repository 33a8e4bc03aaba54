use vstd::prelude::*;

use vstd::arithmetic::div_mod::{lemma_div_is_ordered, lemma_div_multiples_vanish};

use crate::arith::{add_i64, add_u64, mul_u64, sub_u64};
use crate::errors::CycleError;
use crate::member::Membership;
use crate::organizer::{OrganizerAccount, MAX_CYCLES_PER_ORGANIZER};
use crate::penalty::{penalty_for, penalty_of};
use crate::roster::{
    lemma_nodup_strict_subset_len, lemma_nodup_subset_len, lemma_remove_keeps_others,
    roster_contains, roster_nodup, roster_remove, seq_subset,
};
use crate::schedule::{
    cycle_complete, grace_elapsed, is_payout_round, payout_index, round_due,
    spec_cycle_complete, spec_is_payout_round, spec_payout_index, spec_rounds_total,
};

verus! {

/// Percentage of the pot an organizer must stake at creation.
pub const ORGANIZER_STAKE_PCT: u64 = 20;

/// Percentage of the pot a member must post as collateral on joining.
pub const MEMBER_STAKE_PCT: u64 = 10;

/// Denominator of the organizer fee, given in basis points.
pub const BPS_DENOMINATOR: u64 = 10000;

/// The immutable parameters a cycle is created from.
#[derive(Clone, Debug, PartialEq, Eq)]
pub struct CycleParams {
    /// Contribution each member pays per round.
    pub amount_per_user: u64,
    /// Size of the roster; the cycle activates when this many members joined.
    pub max_participants: u8,
    /// Organizer fee per payout, in basis points of the payout.
    pub organizer_fee_bps: u16,
    /// Length of one contribution round, in seconds.
    pub contribution_interval: i64,
    /// Number of contribution rounds between consecutive payouts.
    pub contributions_per_payout: u8,
    /// Number of payout rounds in the cycle's life.
    pub round_count: u8,
    /// The fixed order in which members receive the pot.
    pub payout_order: Vec<u64>,
    /// Identifier of the asset the cycle is denominated in.
    pub token_kind: u64,
}

impl CycleParams {
    /// The pot: what one payout distributes before the organizer fee.
    pub open spec fn pot(self) -> int {
        self.amount_per_user * self.max_participants * self.contributions_per_payout
    }

    /// The stake the organizer must lock at creation: 20% of the pot.
    pub open spec fn organizer_stake(self) -> int {
        self.pot() * ORGANIZER_STAKE_PCT / 100
    }

    /// Range constraints on the scalar parameters.
    pub open spec fn valid(self) -> bool {
        &&& self.max_participants >= 1
        &&& self.organizer_fee_bps <= BPS_DENOMINATOR
        &&& self.contribution_interval >= 1
        &&& self.contributions_per_payout >= 1
        &&& self.round_count >= 1
    }

    /// The payout order must hold exactly `max_participants` identities, each
    /// at most once.
    pub open spec fn order_valid(self) -> bool {
        &&& self.payout_order@.len() == self.max_participants as int
        &&& self.payout_order@.no_duplicates()
    }
}

/// The two transfers the host owes out of the cycle's escrow after a payout
/// round: the pot minus the fee to the recipient, the fee to the organizer.
#[derive(Clone, Copy, Debug, PartialEq, Eq, Structural)]
pub struct PayoutTransfer {
    /// Amount owed to the payout recipient.
    pub recipient_payout: u64,
    /// Amount owed to the organizer.
    pub organizer_fee: u64,
}

/// How the residual collateral of a settled membership is split: half to the
/// organizer as compensation for default administration, the rest pooled for
/// the remaining members.
#[derive(Clone, Copy, Debug, PartialEq, Eq, Structural)]
pub struct CollateralSplit {
    /// Amount owed to the organizer out of the cycle's escrow.
    pub organizer_share: u64,
    /// Amount added to the cycle's slash pool.
    pub redistribution_share: u64,
}

/// One rotating pool: its immutable parameters and its live state.
#[derive(Clone, Debug, PartialEq, Eq)]
pub struct Cycle {
    /// Identifier of this cycle's record, as assigned by the host.
    pub id: u64,
    /// Identity of the organizer.
    pub organizer: u64,
    /// Identifier of the asset the cycle is denominated in.
    pub token_kind: u64,
    /// Contribution each member pays per round.
    pub amount_per_user: u64,
    /// Size of the roster at creation.
    pub max_participants: u8,
    /// Organizer fee per payout, in basis points.
    pub organizer_fee_bps: u16,
    /// Length of one contribution round, in seconds.
    pub contribution_interval: i64,
    /// Number of contribution rounds between consecutive payouts.
    pub contributions_per_payout: u8,
    /// Number of payout rounds in the cycle's life.
    pub round_count: u8,
    /// The order in which members receive the pot; shrinks only when a fully
    /// slashed or exiting member is removed, preserving relative order.
    pub payout_order: Vec<u64>,
    /// Creation timestamp.
    pub created_at: i64,
    /// Number of members currently admitted and counted.
    pub current_participants: u8,
    /// True from the moment the roster fills until the last round elapses.
    pub is_active: bool,
    /// Count of elapsed contribution rounds.
    pub current_round: u64,
    /// The moment the current round ends and the next may be triggered.
    pub next_round_time: i64,
    /// The organizer's locked stake.
    pub organizer_stake: u64,
    /// What one payout distributes before the organizer fee; fixed at creation.
    pub pot_amount: u64,
    /// Accumulated slashed collateral, pooled for redistribution.
    pub slashed_stakes: u64,
    /// Identities currently holding an admitted membership in this cycle.
    pub admitted: Vec<u64>,
}

impl Cycle {
    /// The stake a member must post as collateral on joining: 10% of the pot.
    pub open spec fn member_stake(self) -> int {
        self.pot_amount * MEMBER_STAKE_PCT / 100
    }

    /// Well-formedness: the internal invariant every operation preserves.
    ///
    /// The pot equals `amount_per_user * max_participants *
    /// contributions_per_payout` for the cycle's whole life; the rosters are
    /// duplicate-free; every admitted member still stands in the payout
    /// order; `current_participants` counts exactly the admitted members; and
    /// once the cycle has activated (and so whenever a round has elapsed) it
    /// also counts exactly the payout-order entries still present.
    pub open spec fn wf(self) -> bool {
        &&& self.max_participants >= 1
        &&& self.organizer_fee_bps <= BPS_DENOMINATOR
        &&& self.contribution_interval >= 1
        &&& self.contributions_per_payout >= 1
        &&& self.round_count >= 1
        &&& self.pot_amount == self.amount_per_user * self.max_participants
            * self.contributions_per_payout
        &&& self.payout_order@.no_duplicates()
        &&& self.admitted@.no_duplicates()
        &&& seq_subset(self.admitted@, self.payout_order@)
        &&& self.current_participants as int == self.admitted@.len()
        &&& self.current_participants <= self.max_participants
        &&& self.payout_order@.len() <= self.max_participants as int
        &&& self.current_round <= spec_rounds_total(self.round_count, self.contributions_per_payout)
        &&& self.is_active ==> self.current_round < spec_rounds_total(
            self.round_count,
            self.contributions_per_payout,
        )
        &&& self.is_active ==> self.current_participants as int == self.payout_order@.len()
        &&& self.current_round > 0 ==> self.current_participants as int == self.payout_order@.len()
    }

    /// Whether `m` is a record of this cycle that the cycle's own operations
    /// could have produced: an active membership of the cycle belongs to an
    /// admitted identity.
    pub open spec fn holds_member(self, m: Membership) -> bool {
        m.cycle == self.id && m.is_active ==> self.admitted@.contains(m.member)
    }

    /// Whether cycle creation succeeds on these inputs.
    pub open spec fn create_ok(
        params: CycleParams,
        ledger: OrganizerAccount,
        organizer_balance: u64,
        now: i64,
    ) -> bool {
        &&& params.order_valid()
        &&& params.valid()
        &&& ledger.total_cycles < MAX_CYCLES_PER_ORGANIZER
        &&& params.pot() <= u64::MAX
        &&& params.pot() * ORGANIZER_STAKE_PCT <= u64::MAX
        &&& organizer_balance >= params.organizer_stake()
        &&& now + params.contribution_interval <= i64::MAX
        &&& ledger.locked_stake + params.organizer_stake() <= u64::MAX
    }

    /// The error cycle creation rejects with, by the first failing check.
    pub open spec fn create_err(
        params: CycleParams,
        ledger: OrganizerAccount,
        organizer_balance: u64,
        now: i64,
    ) -> CycleError {
        if !params.order_valid() {
            CycleError::InvalidPayoutOrder
        } else if !params.valid() {
            CycleError::InvalidParams
        } else if ledger.total_cycles >= MAX_CYCLES_PER_ORGANIZER {
            CycleError::TooManyCycles
        } else if params.pot() > u64::MAX || params.pot() * ORGANIZER_STAKE_PCT > u64::MAX {
            CycleError::ArithmeticOverflow
        } else if organizer_balance < params.organizer_stake() {
            CycleError::InsufficientStake
        } else {
            CycleError::ArithmeticOverflow
        }
    }

    /// Creates a cycle.
    ///
    /// On success the organizer's ledger records one more cycle with the
    /// required stake (20% of the pot) locked, and the host owes one transfer
    /// of `organizer_stake` from the organizer's escrow into the cycle's
    /// escrow. The cycle starts inactive, with no rounds elapsed and the
    /// first round ending one contribution interval after creation.
    ///
    /// On any rejection the ledger is unchanged and no transfer is owed.
    pub fn create_cycle(
        id: u64,
        organizer: u64,
        params: CycleParams,
        organizer_balance: u64,
        ledger: &mut OrganizerAccount,
        now: i64,
    ) -> (r: Result<Cycle, CycleError>)
        ensures
            Self::create_ok(params, *old(ledger), organizer_balance, now) ==> (r matches Ok(c)
                && c.wf() && c == (Cycle {
                id,
                organizer,
                token_kind: params.token_kind,
                amount_per_user: params.amount_per_user,
                max_participants: params.max_participants,
                organizer_fee_bps: params.organizer_fee_bps,
                contribution_interval: params.contribution_interval,
                contributions_per_payout: params.contributions_per_payout,
                round_count: params.round_count,
                payout_order: c.payout_order,
                created_at: now,
                current_participants: 0,
                is_active: false,
                current_round: 0,
                next_round_time: (now + params.contribution_interval) as i64,
                organizer_stake: params.organizer_stake() as u64,
                pot_amount: params.pot() as u64,
                slashed_stakes: 0,
                admitted: c.admitted,
            }) && c.payout_order@ == params.payout_order@ && c.admitted@ == Seq::<u64>::empty()
                && *final(ledger) == (OrganizerAccount {
                total_cycles: (old(ledger).total_cycles + 1) as u64,
                locked_stake: (old(ledger).locked_stake + params.organizer_stake()) as u64,
                last_cycle_time: now,
            })),
            !Self::create_ok(params, *old(ledger), organizer_balance, now) ==> r == Err::<
                Cycle,
                CycleError,
            >(Self::create_err(params, *old(ledger), organizer_balance, now)) && *final(ledger)
                == *old(ledger),
    {
        if !(params.payout_order.len() == params.max_participants as usize && roster_nodup(
            &params.payout_order,
        )) {
            return Err(CycleError::InvalidPayoutOrder);
        }
        if !(params.max_participants >= 1 && params.organizer_fee_bps as u64 <= BPS_DENOMINATOR
            && params.contribution_interval >= 1 && params.contributions_per_payout >= 1
            && params.round_count >= 1) {
            return Err(CycleError::InvalidParams);
        }
        if !ledger.can_create() {
            return Err(CycleError::TooManyCycles);
        }
        proof {
            let a = params.amount_per_user as int;
            let mx = params.max_participants as int;
            let cpp = params.contributions_per_payout as int;
            assert(a * mx <= a * mx * cpp && a * mx * cpp >= 0) by (nonlinear_arith)
                requires a >= 0, mx >= 0, cpp >= 1,
            ;
        }
        let per_round = match mul_u64(params.amount_per_user, params.max_participants as u64) {
            Ok(v) => v,
            Err(e) => { return Err(e) },
        };
        let pot_amount = match mul_u64(per_round, params.contributions_per_payout as u64) {
            Ok(v) => v,
            Err(e) => { return Err(e) },
        };
        let stake_scaled = match mul_u64(pot_amount, ORGANIZER_STAKE_PCT) {
            Ok(v) => v,
            Err(e) => { return Err(e) },
        };
        let organizer_stake = stake_scaled / 100;
        if organizer_balance < organizer_stake {
            return Err(CycleError::InsufficientStake);
        }
        let next_round_time = match add_i64(now, params.contribution_interval) {
            Ok(v) => v,
            Err(e) => { return Err(e) },
        };
        match ledger.record_creation(organizer_stake, now) {
            Ok(()) => {},
            Err(e) => { return Err(e) },
        }
        proof {
            let rc = params.round_count as int;
            let cpp = params.contributions_per_payout as int;
            assert(rc * cpp >= 1) by (nonlinear_arith)
                requires rc >= 1, cpp >= 1,
            ;
        }
        Ok(
            Cycle {
                id,
                organizer,
                token_kind: params.token_kind,
                amount_per_user: params.amount_per_user,
                max_participants: params.max_participants,
                organizer_fee_bps: params.organizer_fee_bps,
                contribution_interval: params.contribution_interval,
                contributions_per_payout: params.contributions_per_payout,
                round_count: params.round_count,
                payout_order: params.payout_order,
                created_at: now,
                current_participants: 0,
                is_active: false,
                current_round: 0,
                next_round_time,
                organizer_stake,
                pot_amount,
                slashed_stakes: 0,
                admitted: Vec::new(),
            },
        )
    }

    /// Whether admission succeeds for `member` with this escrow balance.
    pub open spec fn join_ok(self, member: u64, member_balance: u64) -> bool {
        &&& self.current_participants < self.max_participants
        &&& self.payout_order@.contains(member)
        &&& !self.admitted@.contains(member)
        &&& self.pot_amount * MEMBER_STAKE_PCT <= u64::MAX
        &&& member_balance >= self.member_stake()
    }

    /// The error admission rejects with, by the first failing check.
    pub open spec fn join_err(self, member: u64, member_balance: u64) -> CycleError {
        if self.current_participants >= self.max_participants {
            CycleError::CycleFull
        } else if !self.payout_order@.contains(member) {
            CycleError::NotInPayoutOrder
        } else if self.admitted@.contains(member) {
            CycleError::AlreadyJoined
        } else if self.pot_amount * MEMBER_STAKE_PCT > u64::MAX {
            CycleError::ArithmeticOverflow
        } else {
            CycleError::InsufficientStake
        }
    }

    /// Admits `member` into the cycle.
    ///
    /// The member must stand in the payout order, must not already hold a
    /// membership, and must have escrow for the required collateral (10% of
    /// the pot). On success the returned membership posts that collateral,
    /// the participant count grows by one, the cycle activates exactly when
    /// the roster fills, and the host owes one transfer of the collateral
    /// from the member's escrow into the cycle's escrow.
    ///
    /// On any rejection the cycle is unchanged and no transfer is owed; in
    /// particular a second join by the same identity always fails.
    pub fn join_cycle(&mut self, member: u64, member_balance: u64) -> (r: Result<
        Membership,
        CycleError,
    >)
        requires
            old(self).wf(),
        ensures
            final(self).wf(),
            old(self).join_ok(member, member_balance) ==> (r matches Ok(m) && m == (Membership {
                cycle: old(self).id,
                member,
                contributions_made: 0,
                payout_received: false,
                collateral: old(self).member_stake() as u64,
                is_active: true,
            }) && *final(self) == (Cycle {
                current_participants: (old(self).current_participants + 1) as u8,
                is_active: old(self).current_participants + 1 == old(self).max_participants,
                admitted: final(self).admitted,
                ..*old(self)
            }) && final(self).admitted@ == old(self).admitted@.push(member)
                && final(self).holds_member(m)),
            !old(self).join_ok(member, member_balance) ==> r == Err::<Membership, CycleError>(
                old(self).join_err(member, member_balance),
            ) && *final(self) == *old(self),
    {
        if self.current_participants >= self.max_participants {
            return Err(CycleError::CycleFull);
        }
        if !roster_contains(&self.payout_order, member) {
            return Err(CycleError::NotInPayoutOrder);
        }
        if roster_contains(&self.admitted, member) {
            return Err(CycleError::AlreadyJoined);
        }
        let scaled = match mul_u64(self.pot_amount, MEMBER_STAKE_PCT) {
            Ok(v) => v,
            Err(e) => { return Err(e) },
        };
        let stake = scaled / 100;
        if member_balance < stake {
            return Err(CycleError::InsufficientStake);
        }
        proof {
            if old(self).current_round > 0 || old(self).is_active {
                // A member still absent from a cycle that has activated or
                // begun its rounds would contradict the roster count
                // invariant.
                lemma_nodup_strict_subset_len(
                    old(self).admitted@,
                    old(self).payout_order@,
                    member,
                );
                assert(false);
            }
            let rc = old(self).round_count as int;
            let cpp = old(self).contributions_per_payout as int;
            assert(rc * cpp >= 1) by (nonlinear_arith)
                requires rc >= 1, cpp >= 1,
            ;
        }
        self.admitted.push(member);
        self.current_participants = self.current_participants + 1;
        proof {
            assert(self.admitted@.no_duplicates()) by {
                assert(forall|k: int|
                    0 <= k < old(self).admitted@.len() ==> old(self).admitted@[k] == self.admitted@[k]);
            }
            assert(seq_subset(self.admitted@, self.payout_order@));
            assert(self.admitted@[old(self).admitted@.len() as int] == member);
            assert(self.admitted@.contains(member));
            if self.current_participants == self.max_participants {
                lemma_nodup_subset_len(self.admitted@, self.payout_order@);
            }
        }
        if self.current_participants == self.max_participants {
            self.is_active = true;
        }
        Ok(Membership::new(self.id, member, stake))
    }

    /// Whether advancing past the current round closes a payout round.
    pub open spec fn payout_due(self) -> bool {
        spec_is_payout_round(self.current_round, self.contributions_per_payout)
    }

    /// What one payout distributes: the contributions of the counted
    /// participants over the rounds since the previous payout.
    pub open spec fn total_payout(self) -> int {
        self.amount_per_user * self.current_participants * self.contributions_per_payout
    }

    /// The organizer's cut of one payout, truncated basis points.
    pub open spec fn organizer_fee(self) -> int {
        self.total_payout() * self.organizer_fee_bps / (BPS_DENOMINATOR as int)
    }

    /// Whether triggering the round advance succeeds on these inputs.
    pub open spec fn trigger_ok(self, recipient: u64, m: Membership, now: i64) -> bool {
        &&& !spec_cycle_complete(self.current_round, self.round_count, self.contributions_per_payout)
        &&& self.is_active
        &&& m.cycle == self.id
        &&& m.member == recipient
        &&& m.is_active
        &&& now >= self.next_round_time
        &&& self.payout_due() ==> {
            let idx = spec_payout_index(self.current_round, self.contributions_per_payout);
            &&& 0 <= idx < self.payout_order@.len()
            &&& self.payout_order@[idx] == recipient
            &&& self.total_payout() * self.organizer_fee_bps <= u64::MAX
        }
        &&& self.next_round_time + self.contribution_interval <= i64::MAX
    }

    /// The error the round advance rejects with, by the first failing check.
    pub open spec fn trigger_err(self, recipient: u64, m: Membership, now: i64) -> CycleError {
        if spec_cycle_complete(self.current_round, self.round_count, self.contributions_per_payout) {
            CycleError::CycleComplete
        } else if !self.is_active {
            CycleError::CycleNotActive
        } else if m.cycle != self.id {
            CycleError::InvalidCycle
        } else if m.member != recipient {
            CycleError::InvalidMember
        } else if !m.is_active {
            CycleError::MemberNotActive
        } else if now < self.next_round_time {
            CycleError::PayoutTooEarly
        } else if self.payout_due() && !{
            let idx = spec_payout_index(self.current_round, self.contributions_per_payout);
            0 <= idx < self.payout_order@.len() && self.payout_order@[idx] == recipient
        } {
            CycleError::InvalidPayoutRecipient
        } else {
            CycleError::ArithmeticOverflow
        }
    }

    /// Advances the cycle by one contribution round, paying out the pot when
    /// the round closes a payout window.
    ///
    /// The recipient's membership must belong to this cycle and be active,
    /// and the round boundary must have been reached. On a payout round the
    /// designated recipient must be the payout-order entry the round count
    /// selects; the result then carries the two transfers the host owes from
    /// the cycle's escrow (pot minus fee to the recipient, fee to the
    /// organizer), and the recipient is marked as paid. On every successful
    /// call one round elapses, the next round boundary moves one interval
    /// later, and the cycle deactivates permanently once the last round has
    /// elapsed.
    ///
    /// On any rejection cycle and membership are unchanged and no transfer
    /// is owed; in particular a call before `next_round_time` fails, and a
    /// call on a completed cycle always fails with `CycleComplete`.
    pub fn trigger_payout(&mut self, recipient: u64, m: &mut Membership, now: i64) -> (r: Result<
        Option<PayoutTransfer>,
        CycleError,
    >)
        requires
            old(self).wf(),
        ensures
            final(self).wf(),
            old(self).trigger_ok(recipient, *old(m), now) ==> (r matches Ok(t) && *final(self)
                == (Cycle {
                current_round: (old(self).current_round + 1) as u64,
                next_round_time: (old(self).next_round_time + old(self).contribution_interval)
                    as i64,
                is_active: old(self).current_round + 1 < spec_rounds_total(
                    old(self).round_count,
                    old(self).contributions_per_payout,
                ),
                ..*old(self)
            }) && (old(self).payout_due() ==> (t matches Some(p) && p == (PayoutTransfer {
                recipient_payout: (old(self).total_payout() - old(self).organizer_fee()) as u64,
                organizer_fee: old(self).organizer_fee() as u64,
            }) && *final(m) == (Membership { payout_received: true, ..*old(m) }))) && (!old(
                self,
            ).payout_due() ==> t is None && *final(m) == *old(m))),
            !old(self).trigger_ok(recipient, *old(m), now) ==> r == Err::<
                Option<PayoutTransfer>,
                CycleError,
            >(old(self).trigger_err(recipient, *old(m), now)) && *final(self) == *old(self)
                && *final(m) == *old(m),
    {
        if cycle_complete(self.current_round, self.round_count, self.contributions_per_payout) {
            return Err(CycleError::CycleComplete);
        }
        if !self.is_active {
            return Err(CycleError::CycleNotActive);
        }
        if m.cycle != self.id {
            return Err(CycleError::InvalidCycle);
        }
        if m.member != recipient {
            return Err(CycleError::InvalidMember);
        }
        if !m.is_active {
            return Err(CycleError::MemberNotActive);
        }
        if !round_due(now, self.next_round_time) {
            return Err(CycleError::PayoutTooEarly);
        }
        proof {
            let a = self.amount_per_user as int;
            let p = self.current_participants as int;
            let mx = self.max_participants as int;
            let cpp = self.contributions_per_payout as int;
            let rc = self.round_count as int;
            assert(0 <= a * p <= a * p * cpp <= a * mx * cpp && rc * cpp <= 255 * 255)
                by (nonlinear_arith)
                requires 0 <= a, 0 <= p <= mx, 1 <= cpp <= 255, 1 <= rc <= 255,
            ;
        }
        let payout: Option<PayoutTransfer> = if is_payout_round(
            self.current_round,
            self.contributions_per_payout,
        ) {
            let idx = payout_index(self.current_round, self.contributions_per_payout);
            if !(idx < self.payout_order.len() as u64) {
                return Err(CycleError::InvalidPayoutRecipient);
            }
            if self.payout_order[idx as usize] != recipient {
                return Err(CycleError::InvalidPayoutRecipient);
            }
            let per_round = match mul_u64(self.amount_per_user, self.current_participants as u64) {
                Ok(v) => v,
                Err(e) => { return Err(e) },
            };
            let total = match mul_u64(per_round, self.contributions_per_payout as u64) {
                Ok(v) => v,
                Err(e) => { return Err(e) },
            };
            let fee_scaled = match mul_u64(total, self.organizer_fee_bps as u64) {
                Ok(v) => v,
                Err(e) => { return Err(e) },
            };
            let fee = fee_scaled / BPS_DENOMINATOR;
            proof {
                let t = total as int;
                let bps = self.organizer_fee_bps as int;
                assert(0 <= t * bps <= 10000 * t) by (nonlinear_arith)
                    requires 0 <= t, 0 <= bps <= 10000,
                ;
                lemma_div_is_ordered(0, t * bps, BPS_DENOMINATOR as int);
                lemma_div_is_ordered(t * bps, 10000 * t, BPS_DENOMINATOR as int);
                lemma_div_multiples_vanish(t, BPS_DENOMINATOR as int);
            }
            let recipient_payout = match sub_u64(total, fee) {
                Ok(v) => v,
                Err(e) => { return Err(e) },
            };
            Some(PayoutTransfer { recipient_payout, organizer_fee: fee })
        } else {
            None
        };
        let next_time = match add_i64(self.next_round_time, self.contribution_interval) {
            Ok(v) => v,
            Err(e) => { return Err(e) },
        };
        self.current_round = self.current_round + 1;
        self.next_round_time = next_time;
        if cycle_complete(self.current_round, self.round_count, self.contributions_per_payout) {
            self.is_active = false;
        }
        if payout.is_some() {
            m.payout_received = true;
        }
        Ok(payout)
    }

    /// How many contributions `m` is behind: one is expected for every round
    /// elapsed so far and for the round currently open.
    pub open spec fn missed_rounds_of(self, m: Membership) -> u64 {
        (self.current_round + 1 - m.contributions_made) as u64
    }

    /// Whether reporting `m` as defaulting succeeds on these inputs.
    pub open spec fn report_ok(self, m: Membership, now: i64) -> bool {
        &&& self.is_active
        &&& m.cycle == self.id
        &&& m.is_active
        &&& now > self.next_round_time
        &&& m.contributions_made <= self.current_round + 1
        &&& (m.payout_received || self.missed_rounds_of(m) >= 3 || m.collateral * 20
            * self.missed_rounds_of(m) <= u64::MAX)
        &&& self.slashed_stakes + penalty_of(
            m.collateral,
            m.payout_received,
            self.missed_rounds_of(m),
        ) <= u64::MAX
    }

    /// The error default reporting rejects with, by the first failing check.
    pub open spec fn report_err(self, m: Membership, now: i64) -> CycleError {
        if !self.is_active {
            CycleError::CycleNotActive
        } else if m.cycle != self.id {
            CycleError::InvalidCycle
        } else if !m.is_active {
            CycleError::MemberNotActive
        } else if now <= self.next_round_time {
            CycleError::TooEarlyToReport
        } else if m.contributions_made > self.current_round + 1 {
            CycleError::ArithmeticUnderflow
        } else {
            CycleError::ArithmeticOverflow
        }
    }

    /// Reports `m` as defaulting and slashes its collateral.
    ///
    /// Allowed for any reporter once the grace period of the open round has
    /// elapsed (strictly after `next_round_time`), while the cycle and the
    /// membership are active. The penalty is `penalty_of` applied to the
    /// member's remaining collateral, payout flag, and missed-round count;
    /// it moves from the member's collateral into the cycle's slash pool
    /// (no transfer is owed: both balances live in the cycle's escrow). A
    /// member whose collateral reaches zero is deactivated and removed from
    /// the payout order, which keeps its relative order, and the participant
    /// count drops by one.
    ///
    /// On any rejection cycle and membership are unchanged.
    pub fn report_default(&mut self, m: &mut Membership, now: i64) -> (r: Result<u64, CycleError>)
        requires
            old(self).wf(),
            old(self).holds_member(*old(m)),
        ensures
            final(self).wf(),
            old(self).report_ok(*old(m), now) ==> (r matches Ok(pen) && pen == penalty_of(
                old(m).collateral,
                old(m).payout_received,
                old(self).missed_rounds_of(*old(m)),
            ) && final(m).collateral == old(m).collateral - pen && final(self).slashed_stakes
                == old(self).slashed_stakes + pen && (old(m).collateral > pen ==> (*final(m)
                == (Membership { collateral: (old(m).collateral - pen) as u64, ..*old(m) })
                && *final(self) == (Cycle {
                slashed_stakes: (old(self).slashed_stakes + pen) as u64,
                ..*old(self)
            }))) && (old(m).collateral == pen ==> (*final(m) == (Membership {
                collateral: 0,
                is_active: false,
                ..*old(m)
            }) && final(self).current_participants == old(self).current_participants - 1
                && !final(self).payout_order@.contains(old(m).member) && (exists|i: int|
                0 <= i < old(self).payout_order@.len() && old(self).payout_order@[i] == old(
                    m,
                ).member && final(self).payout_order@ == old(self).payout_order@.remove(i))
                && *final(self) == (Cycle {
                slashed_stakes: (old(self).slashed_stakes + pen) as u64,
                current_participants: (old(self).current_participants - 1) as u8,
                payout_order: final(self).payout_order,
                admitted: final(self).admitted,
                ..*old(self)
            })))),
            !old(self).report_ok(*old(m), now) ==> r == Err::<u64, CycleError>(
                old(self).report_err(*old(m), now),
            ) && *final(self) == *old(self) && *final(m) == *old(m),
    {
        if !self.is_active {
            return Err(CycleError::CycleNotActive);
        }
        if m.cycle != self.id {
            return Err(CycleError::InvalidCycle);
        }
        if !m.is_active {
            return Err(CycleError::MemberNotActive);
        }
        if !grace_elapsed(now, self.next_round_time) {
            return Err(CycleError::TooEarlyToReport);
        }
        proof {
            let rc = self.round_count as int;
            let cpp = self.contributions_per_payout as int;
            assert(rc * cpp <= 255 * 255) by (nonlinear_arith)
                requires 1 <= rc <= 255, 1 <= cpp <= 255,
            ;
        }
        let expected = self.current_round + 1;
        let missed = match sub_u64(expected, m.contributions_made) {
            Ok(v) => v,
            Err(e) => { return Err(e) },
        };
        let pen = match penalty_for(m.collateral, m.payout_received, missed) {
            Ok(v) => v,
            Err(e) => { return Err(e) },
        };
        let new_slashed = match add_u64(self.slashed_stakes, pen) {
            Ok(v) => v,
            Err(e) => { return Err(e) },
        };
        let new_collateral = m.collateral - pen;
        m.collateral = new_collateral;
        self.slashed_stakes = new_slashed;
        if new_collateral == 0 {
            m.is_active = false;
            let _removed_order = roster_remove(&mut self.payout_order, m.member);
            let _removed_admitted = roster_remove(&mut self.admitted, m.member);
            self.current_participants = self.current_participants - 1;
            proof {
                let member = old(m).member;
                let po = old(self).payout_order@;
                let ad = old(self).admitted@;
                let i = choose|i: int| 0 <= i < po.len() && po[i] == member && self.payout_order@
                    == po.remove(i);
                let j = choose|j: int| 0 <= j < ad.len() && ad[j] == member && self.admitted@
                    == ad.remove(j);
                lemma_remove_keeps_others(po, i);
                lemma_remove_keeps_others(ad, j);
                assert(seq_subset(self.admitted@, self.payout_order@)) by {
                    assert forall|k: int| 0 <= k < self.admitted@.len() implies self
                        .payout_order@.contains(#[trigger] self.admitted@[k]) by {
                        let x = self.admitted@[k];
                        assert(self.admitted@.contains(x));
                        assert(x != member);
                        assert(ad.contains(x));
                        let k0 = choose|k0: int| 0 <= k0 < ad.len() && ad[k0] == x;
                        assert(po.contains(ad[k0]));
                    }
                }
            }
        }
        Ok(pen)
    }

    /// Whether submitting a contribution succeeds on these inputs.
    pub open spec fn contribute_ok(self, m: Membership, member_balance: u64, now: i64) -> bool {
        &&& self.is_active
        &&& m.cycle == self.id
        &&& m.is_active
        &&& now < self.next_round_time
        &&& m.contributions_made <= self.current_round
        &&& member_balance >= self.amount_per_user
    }

    /// The error contribution submission rejects with, by the first failing
    /// check.
    pub open spec fn contribute_err(self, m: Membership, member_balance: u64, now: i64) -> CycleError {
        if !self.is_active {
            CycleError::CycleNotActive
        } else if m.cycle != self.id {
            CycleError::InvalidCycle
        } else if !m.is_active {
            CycleError::MemberNotActive
        } else if now >= self.next_round_time {
            CycleError::ContributionWindowClosed
        } else if m.contributions_made > self.current_round {
            CycleError::AlreadyContributed
        } else {
            CycleError::InsufficientStake
        }
    }

    /// Submits one round's contribution for `m`.
    ///
    /// Allowed while the cycle is active and the window of the open round
    /// has not closed (strictly before `next_round_time`). A member may also
    /// catch up on earlier missed rounds, one contribution per call, but may
    /// never be ahead: at most one contribution per elapsed round plus the
    /// open one. On success the member's contribution count grows by one and
    /// the host owes one transfer of `amount_per_user` from the member's
    /// escrow into the cycle's escrow, which is the returned amount.
    ///
    /// On any rejection the membership is unchanged and no transfer is owed.
    pub fn submit_contribution(&self, m: &mut Membership, member_balance: u64, now: i64) -> (r:
        Result<u64, CycleError>)
        requires
            self.wf(),
        ensures
            self.contribute_ok(*old(m), member_balance, now) ==> r == Ok::<u64, CycleError>(
                self.amount_per_user,
            ) && *final(m) == (Membership {
                contributions_made: (old(m).contributions_made + 1) as u64,
                ..*old(m)
            }),
            !self.contribute_ok(*old(m), member_balance, now) ==> r == Err::<u64, CycleError>(
                self.contribute_err(*old(m), member_balance, now),
            ) && *final(m) == *old(m),
    {
        if !self.is_active {
            return Err(CycleError::CycleNotActive);
        }
        if m.cycle != self.id {
            return Err(CycleError::InvalidCycle);
        }
        if !m.is_active {
            return Err(CycleError::MemberNotActive);
        }
        if round_due(now, self.next_round_time) {
            return Err(CycleError::ContributionWindowClosed);
        }
        if m.contributions_made > self.current_round {
            return Err(CycleError::AlreadyContributed);
        }
        if member_balance < self.amount_per_user {
            return Err(CycleError::InsufficientStake);
        }
        proof {
            let rc = self.round_count as int;
            let cpp = self.contributions_per_payout as int;
            assert(rc * cpp <= 255 * 255) by (nonlinear_arith)
                requires 1 <= rc <= 255, 1 <= cpp <= 255,
            ;
        }
        m.contributions_made = m.contributions_made + 1;
        Ok(self.amount_per_user)
    }

    /// Whether claiming an inactive membership's collateral succeeds.
    pub open spec fn claim_ok(self, m: Membership) -> bool {
        &&& self.is_active
        &&& m.cycle == self.id
        &&& !m.is_active
        &&& self.slashed_stakes + (m.collateral - m.collateral / 2) <= u64::MAX
    }

    /// The error the collateral claim rejects with, by the first failing
    /// check.
    pub open spec fn claim_err(self, m: Membership) -> CycleError {
        if !self.is_active {
            CycleError::CycleNotActive
        } else if m.cycle != self.id {
            CycleError::InvalidCycle
        } else if m.is_active {
            CycleError::MemberStillActive
        } else {
            CycleError::ArithmeticOverflow
        }
    }

    /// Settles the residual collateral of a membership that has already been
    /// deactivated: half (floored) goes to the organizer, the rest joins the
    /// slash pool for redistribution, and the membership's collateral is
    /// zeroed so the record can be closed.
    ///
    /// The host owes one transfer of `organizer_share` from the cycle's
    /// escrow to the organizer; the redistribution share stays in escrow.
    /// On any rejection cycle and membership are unchanged.
    pub fn claim_collateral(&mut self, m: &mut Membership) -> (r: Result<
        CollateralSplit,
        CycleError,
    >)
        requires
            old(self).wf(),
        ensures
            final(self).wf(),
            old(self).claim_ok(*old(m)) ==> (r matches Ok(s) && s == (CollateralSplit {
                organizer_share: (old(m).collateral / 2) as u64,
                redistribution_share: (old(m).collateral - old(m).collateral / 2) as u64,
            }) && *final(m) == (Membership { collateral: 0, ..*old(m) }) && *final(self)
                == (Cycle {
                slashed_stakes: (old(self).slashed_stakes + (old(m).collateral - old(
                    m,
                ).collateral / 2)) as u64,
                ..*old(self)
            })),
            !old(self).claim_ok(*old(m)) ==> r == Err::<CollateralSplit, CycleError>(
                old(self).claim_err(*old(m)),
            ) && *final(self) == *old(self) && *final(m) == *old(m),
    {
        if !self.is_active {
            return Err(CycleError::CycleNotActive);
        }
        if m.cycle != self.id {
            return Err(CycleError::InvalidCycle);
        }
        if m.is_active {
            return Err(CycleError::MemberStillActive);
        }
        let organizer_share = m.collateral / 2;
        let redistribution_share = m.collateral - organizer_share;
        let new_slashed = match add_u64(self.slashed_stakes, redistribution_share) {
            Ok(v) => v,
            Err(e) => { return Err(e) },
        };
        m.collateral = 0;
        self.slashed_stakes = new_slashed;
        Ok(CollateralSplit { organizer_share, redistribution_share })
    }

    /// Whether a pre-activation (or post-completion) exit succeeds.
    pub open spec fn exit_ok(self, m: Membership) -> bool {
        &&& !self.is_active
        &&& m.cycle == self.id
        &&& m.is_active
    }

    /// The error the exit rejects with, by the first failing check.
    pub open spec fn exit_err(self, m: Membership) -> CycleError {
        if self.is_active {
            CycleError::CycleStillActive
        } else if m.cycle != self.id {
            CycleError::InvalidCycle
        } else {
            CycleError::MemberNotActive
        }
    }

    /// Withdraws a member from a cycle that is not active: either one whose
    /// roster has not filled yet, or one whose rounds have all elapsed.
    ///
    /// The membership is deactivated, the member leaves the payout order
    /// (preserving the relative order of the rest), the participant count
    /// drops by one, and the host owes one transfer of the returned refund
    /// (the member's whole remaining collateral) from the cycle's escrow
    /// back to the member.
    ///
    /// On any rejection cycle and membership are unchanged and no transfer
    /// is owed.
    pub fn exit_cycle(&mut self, m: &mut Membership) -> (r: Result<u64, CycleError>)
        requires
            old(self).wf(),
            old(self).holds_member(*old(m)),
        ensures
            final(self).wf(),
            old(self).exit_ok(*old(m)) ==> (r == Ok::<u64, CycleError>(old(m).collateral)
                && *final(m) == (Membership { collateral: 0, is_active: false, ..*old(m) })
                && final(self).current_participants == old(self).current_participants - 1
                && !final(self).payout_order@.contains(old(m).member) && (exists|i: int|
                0 <= i < old(self).payout_order@.len() && old(self).payout_order@[i] == old(
                    m,
                ).member && final(self).payout_order@ == old(self).payout_order@.remove(i))
                && *final(self) == (Cycle {
                current_participants: (old(self).current_participants - 1) as u8,
                payout_order: final(self).payout_order,
                admitted: final(self).admitted,
                ..*old(self)
            })),
            !old(self).exit_ok(*old(m)) ==> r == Err::<u64, CycleError>(
                old(self).exit_err(*old(m)),
            ) && *final(self) == *old(self) && *final(m) == *old(m),
    {
        if self.is_active {
            return Err(CycleError::CycleStillActive);
        }
        if m.cycle != self.id {
            return Err(CycleError::InvalidCycle);
        }
        if !m.is_active {
            return Err(CycleError::MemberNotActive);
        }
        let refund = m.collateral;
        m.collateral = 0;
        m.is_active = false;
        let _removed_order = roster_remove(&mut self.payout_order, m.member);
        let _removed_admitted = roster_remove(&mut self.admitted, m.member);
        self.current_participants = self.current_participants - 1;
        proof {
            let member = old(m).member;
            let po = old(self).payout_order@;
            let ad = old(self).admitted@;
            let i = choose|i: int| 0 <= i < po.len() && po[i] == member && self.payout_order@
                == po.remove(i);
            let j = choose|j: int| 0 <= j < ad.len() && ad[j] == member && self.admitted@
                == ad.remove(j);
            lemma_remove_keeps_others(po, i);
            lemma_remove_keeps_others(ad, j);
            assert(seq_subset(self.admitted@, self.payout_order@)) by {
                assert forall|k: int| 0 <= k < self.admitted@.len() implies self
                    .payout_order@.contains(#[trigger] self.admitted@[k]) by {
                    let x = self.admitted@[k];
                    assert(self.admitted@.contains(x));
                    assert(x != member);
                    assert(ad.contains(x));
                    let k0 = choose|k0: int| 0 <= k0 < ad.len() && ad[k0] == x;
                    assert(po.contains(ad[k0]));
                }
            }
        }
        Ok(refund)
    }

    /// Whether the cycle can be closed.
    pub open spec fn close_ok(self) -> bool {
        &&& !self.is_active
        &&& self.current_participants == 0
        &&& self.organizer_stake + self.slashed_stakes <= u64::MAX
    }

    /// The error closure rejects with, by the first failing check.
    pub open spec fn close_err(self) -> CycleError {
        if self.is_active {
            CycleError::CycleStillActive
        } else if self.current_participants > 0 {
            CycleError::MemberStillActive
        } else {
            CycleError::ArithmeticOverflow
        }
    }

    /// Checks that the cycle may be closed — it is inactive and no admitted
    /// member remains — and returns the residual escrow the host owes back
    /// to the organizer: the organizer's stake together with the
    /// undistributed slash pool. Disposing of the record itself is the
    /// host's concern.
    pub fn close_cycle(&self) -> (r: Result<u64, CycleError>)
        ensures
            self.close_ok() ==> r == Ok::<u64, CycleError>(
                (self.organizer_stake + self.slashed_stakes) as u64,
            ),
            !self.close_ok() ==> r == Err::<u64, CycleError>(self.close_err()),
    {
        if self.is_active {
            return Err(CycleError::CycleStillActive);
        }
        if self.current_participants > 0 {
            return Err(CycleError::MemberStillActive);
        }
        add_u64(self.organizer_stake, self.slashed_stakes)
    }
}

/// The pot of a well-formed cycle always equals `amount_per_user *
/// max_participants * contributions_per_payout`: it is fixed at creation and
/// never recomputed.
pub proof fn lemma_pot_invariant(c: Cycle)
    requires
        c.wf(),
    ensures
        c.pot_amount == c.amount_per_user * c.max_participants * c.contributions_per_payout,
{
}

/// From the moment a cycle activates — and ever after, its rounds having
/// begun — `current_participants` equals the number of payout-order entries
/// still present, so every removal of a fully slashed or exiting member is
/// matched by a decrement of the participant count.
pub proof fn lemma_roster_count(c: Cycle)
    requires
        c.wf(),
        c.is_active || c.current_round > 0,
    ensures
        c.current_participants as int == c.payout_order@.len(),
{
}

} // verus!
