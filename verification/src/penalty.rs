use vstd::prelude::*;

use vstd::arithmetic::div_mod::{lemma_div_is_ordered, lemma_div_multiples_vanish};
use vstd::arithmetic::mul::lemma_mul_inequality;

use crate::errors::CycleError;

verus! {

/// Percentage of remaining collateral slashed for each missed round, while the
/// default is still partial.
pub const SLASH_PCT_PER_MISS: u64 = 20;

/// Number of missed rounds at which the penalty saturates to the full
/// remaining collateral.
pub const FULL_SLASH_MISSES: u64 = 3;

/// The slash amount owed by a defaulting member.
///
/// A member who already received a payout, or who has missed three or more
/// rounds, forfeits the full remaining collateral; otherwise the penalty is 20%
/// of the remaining collateral per missed round, truncated.
pub open spec fn penalty_of(collateral: u64, payout_received: bool, missed_rounds: u64) -> int {
    if payout_received || missed_rounds >= FULL_SLASH_MISSES {
        collateral as int
    } else {
        (collateral * SLASH_PCT_PER_MISS * missed_rounds) / 100
    }
}

/// The penalty never exceeds the remaining collateral.
pub proof fn lemma_penalty_bounded(collateral: u64, payout_received: bool, missed_rounds: u64)
    ensures
        0 <= penalty_of(collateral, payout_received, missed_rounds) <= collateral,
{
    if !(payout_received || missed_rounds >= FULL_SLASH_MISSES) {
        let c = collateral as int;
        let m = missed_rounds as int;
        assert(c * SLASH_PCT_PER_MISS as int * m <= 100 * c && c * SLASH_PCT_PER_MISS as int * m
            >= 0) by (nonlinear_arith)
            requires c >= 0, 0 <= m < 3,
        ;
        lemma_div_is_ordered(c * SLASH_PCT_PER_MISS as int * m, 100 * c, 100);
        lemma_div_multiples_vanish(c, 100);
        lemma_div_is_ordered(0, c * SLASH_PCT_PER_MISS as int * m, 100);
    }
}

/// The penalty is monotonically non-decreasing in the number of missed rounds,
/// and saturates to the full remaining collateral at three missed rounds or
/// once a payout has been received.
pub proof fn lemma_penalty_monotone(
    collateral: u64,
    payout_received: bool,
    missed_1: u64,
    missed_2: u64,
)
    requires
        missed_1 <= missed_2,
    ensures
        penalty_of(collateral, payout_received, missed_1) <= penalty_of(
            collateral,
            payout_received,
            missed_2,
        ),
        payout_received || missed_2 >= FULL_SLASH_MISSES ==> penalty_of(
            collateral,
            payout_received,
            missed_2,
        ) == collateral,
{
    lemma_penalty_bounded(collateral, payout_received, missed_1);
    if !(payout_received || missed_2 >= FULL_SLASH_MISSES) {
        let c = collateral as int;
        let m1 = missed_1 as int;
        let m2 = missed_2 as int;
        assert(c * SLASH_PCT_PER_MISS as int * m1 <= c * SLASH_PCT_PER_MISS as int * m2)
            by (nonlinear_arith)
            requires 0 <= m1 <= m2, c >= 0,
        ;
        lemma_div_is_ordered(
            c * SLASH_PCT_PER_MISS as int * m1,
            c * SLASH_PCT_PER_MISS as int * m2,
            100,
        );
    }
}

/// Computes the slash amount for a defaulting member, rejecting the (partial
/// slash) computation when the intermediate product would overflow.
pub fn penalty_for(collateral: u64, payout_received: bool, missed_rounds: u64) -> (r: Result<
    u64,
    CycleError,
>)
    ensures
        payout_received || missed_rounds >= FULL_SLASH_MISSES ==> r == Ok::<u64, CycleError>(
            collateral,
        ),
        !(payout_received || missed_rounds >= FULL_SLASH_MISSES) ==> if collateral
            * SLASH_PCT_PER_MISS * missed_rounds <= u64::MAX {
            r == Ok::<u64, CycleError>(
                (penalty_of(collateral, payout_received, missed_rounds)) as u64,
            )
        } else {
            r == Err::<u64, CycleError>(CycleError::ArithmeticOverflow)
        },
        r matches Ok(p) ==> p == penalty_of(collateral, payout_received, missed_rounds)
            && p <= collateral,
{
    proof {
        lemma_penalty_bounded(collateral, payout_received, missed_rounds);
    }
    if payout_received || missed_rounds >= FULL_SLASH_MISSES {
        Ok(collateral)
    } else {
        let factor: u64 = SLASH_PCT_PER_MISS * missed_rounds;
        proof {
            assert(collateral * factor == collateral * SLASH_PCT_PER_MISS * missed_rounds)
                by (nonlinear_arith)
                requires factor == SLASH_PCT_PER_MISS * missed_rounds,
            ;
        }
        match collateral.checked_mul(factor) {
            Some(scaled) => Ok(scaled / 100),
            None => Err(CycleError::ArithmeticOverflow),
        }
    }
}

} // verus!
