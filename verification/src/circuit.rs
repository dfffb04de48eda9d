//! Circuit engine: the mathematical contracts of the encrypted computations.
//!
//! The secure computation network executes these formulas over secret-shared
//! operands; this module states them over plain unsigned integers and proves
//! the executable evaluators against them. All quantities are unsigned
//! fixed-point integers, division truncates toward zero, and every
//! intermediate product is checked against the machine word so that no
//! overflow can occur.

use vstd::arithmetic::div_mod::{
    lemma_div_by_multiple, lemma_div_is_ordered, lemma_div_pos_is_pos,
};
use vstd::arithmetic::mul::{lemma_mul_inequality, lemma_mul_nonnegative};
use vstd::prelude::*;

verus! {

/// Fixed-point scale: ratios are expressed in basis points of this denominator.
pub const BPS_DENOMINATOR: u64 = 10_000;

/// `amount` scaled by a basis-point ratio: `amount * bps / 10_000`.
pub open spec fn scale_by_bps(amount: int, bps: int) -> int {
    amount * bps / (BPS_DENOMINATOR as int)
}

/// `amount` scaled back by a basis-point ratio: `amount * 10_000 / bps`.
pub open spec fn unscale_by_bps(amount: int, bps: int) -> int {
    amount * (BPS_DENOMINATOR as int) / bps
}

pub open spec fn min_int(a: int, b: int) -> int {
    if a < b {
        a
    } else {
        b
    }
}

/// Largest loan the deposited collateral supports at the pool's price and
/// loan-to-value ratio.
pub open spec fn spec_max_loan(collateral_amount: int, price: int, ltv_bps: int) -> int {
    scale_by_bps(collateral_amount, price * ltv_bps)
}

/// The loan actually granted: capped by what the asset vault holds.
pub open spec fn spec_loan_amount(
    asset_amount: int,
    collateral_amount: int,
    price: int,
    ltv_bps: int,
) -> int {
    min_int(spec_max_loan(collateral_amount, price, ltv_bps), asset_amount)
}

/// Collateral that stays locked: the granted loan scaled back by the same
/// fixed-point ratio.
pub open spec fn spec_loan_collateral(
    asset_amount: int,
    collateral_amount: int,
    price: int,
    ltv_bps: int,
) -> int {
    unscale_by_bps(spec_loan_amount(asset_amount, collateral_amount, price, ltv_bps), price * ltv_bps)
}

/// Collateral returned to the borrower right away.
pub open spec fn spec_collateral_excess(
    asset_amount: int,
    collateral_amount: int,
    price: int,
    ltv_bps: int,
) -> int {
    collateral_amount - spec_loan_collateral(asset_amount, collateral_amount, price, ltv_bps)
}

/// Everything the borrow circuit reveals or re-encrypts. `loan_amount` and
/// `collateral_excess_amount` are the two transfer legs (asset vault to
/// borrower, collateral vault to borrower); `loan_amount` is also the new
/// principal, re-encrypted for storage.
pub struct BorrowOutcome {
    pub max_loan_amount: u64,
    pub loan_amount: u64,
    pub loan_collateral_amount: u64,
    pub collateral_excess_amount: u64,
}

/// Whether the borrow circuit is defined for these operands: the fixed-point
/// ratio must be positive and the scaled collateral must fit the machine word.
pub open spec fn borrow_defined(collateral_amount: int, price: int, ltv_bps: int) -> bool {
    &&& 0 < price * ltv_bps <= u64::MAX
    &&& collateral_amount * (price * ltv_bps) <= u64::MAX
}

/// Evaluates the borrow circuit. Returns `None` exactly when the operands are
/// outside the circuit's domain (zero ratio, or an intermediate product that
/// would overflow); otherwise every field equals its defining formula.
pub fn borrow(
    asset_amount: u64,
    collateral_amount: u64,
    price: u64,
    loan_to_value_bps: u16,
) -> (r: Option<BorrowOutcome>)
    ensures
        r is Some <==> borrow_defined(
            collateral_amount as int,
            price as int,
            loan_to_value_bps as int,
        ),
        r matches Some(o) ==> {
            let a = asset_amount as int;
            let c = collateral_amount as int;
            let p = price as int;
            let l = loan_to_value_bps as int;
            &&& o.max_loan_amount == spec_max_loan(c, p, l)
            &&& o.loan_amount == spec_loan_amount(a, c, p, l)
            &&& o.loan_collateral_amount == spec_loan_collateral(a, c, p, l)
            &&& o.collateral_excess_amount == spec_collateral_excess(a, c, p, l)
            &&& o.loan_amount <= asset_amount
            &&& o.loan_collateral_amount <= collateral_amount
        },
{
    let ratio_bps = match price.checked_mul(loan_to_value_bps as u64) {
        Some(d) => d,
        None => {
            return None;
        },
    };
    if ratio_bps == 0 {
        return None;
    }
    let scaled_collateral = match collateral_amount.checked_mul(ratio_bps) {
        Some(s) => s,
        None => {
            return None;
        },
    };
    let max_loan_amount = scaled_collateral / BPS_DENOMINATOR;
    let loan_amount = if max_loan_amount < asset_amount {
        max_loan_amount
    } else {
        asset_amount
    };
    proof {
        lemma_loan_rescale_bounds(
            asset_amount as int,
            collateral_amount as int,
            price as int,
            loan_to_value_bps as int,
        );
    }
    let loan_scaled = loan_amount * BPS_DENOMINATOR;
    let loan_collateral_amount = loan_scaled / ratio_bps;
    let collateral_excess_amount = collateral_amount - loan_collateral_amount;
    Some(
        BorrowOutcome {
            max_loan_amount,
            loan_amount,
            loan_collateral_amount,
            collateral_excess_amount,
        },
    )
}

/// Scaling the granted loan back up stays within the scaled collateral, so the
/// locked collateral never exceeds the deposit and the rescale cannot
/// overflow.
proof fn lemma_loan_rescale_bounds(
    asset_amount: int,
    collateral_amount: int,
    price: int,
    ltv_bps: int,
)
    requires
        0 <= asset_amount,
        0 <= collateral_amount,
        0 < price * ltv_bps,
    ensures
        ({
            let d = price * ltv_bps;
            let loan = spec_loan_amount(asset_amount, collateral_amount, price, ltv_bps);
            &&& 0 <= loan
            &&& loan * (BPS_DENOMINATOR as int) <= collateral_amount * d
            &&& 0 <= spec_loan_collateral(asset_amount, collateral_amount, price, ltv_bps)
                <= collateral_amount
        }),
{
    let bps = BPS_DENOMINATOR as int;
    let d = price * ltv_bps;
    let scaled = collateral_amount * d;
    let max_loan = spec_max_loan(collateral_amount, price, ltv_bps);
    let loan = spec_loan_amount(asset_amount, collateral_amount, price, ltv_bps);
    lemma_div_pos_is_pos(scaled, bps);
    assert(0 <= max_loan);
    // loan <= scaled / bps, so loan * bps <= (scaled / bps) * bps <= scaled.
    lemma_mul_inequality(loan, scaled / bps, bps);
    assert((scaled / bps) * bps <= scaled) by {
        lemma_mul_nonnegative(scaled / bps, bps);
        vstd::arithmetic::div_mod::lemma_fundamental_div_mod(scaled, bps);
        vstd::arithmetic::div_mod::lemma_mod_bound(scaled, bps);
    };
    assert(loan * bps <= scaled);
    // Dividing both sides by d: loan * bps / d <= scaled / d == collateral.
    lemma_div_is_ordered(loan * bps, scaled, d);
    lemma_div_by_multiple(collateral_amount, d);
    assert(scaled / d == collateral_amount);
    lemma_mul_nonnegative(loan, bps);
    lemma_div_pos_is_pos(loan * bps, d);
}

/// Law: conservation. For all non-negative operands with the ratio within one
/// (at most ten thousand basis points) and positive, the granted loan and
/// what stays in the asset vault sum to the asset deposit, and the locked and
/// returned collateral sum to the collateral deposit; no quantity goes
/// negative and none exceeds its deposit.
pub proof fn lemma_borrow_conservation(
    asset_amount: int,
    collateral_amount: int,
    price: int,
    ltv_bps: int,
)
    requires
        0 <= asset_amount,
        0 <= collateral_amount,
        0 <= price,
        0 <= ltv_bps <= 10_000,
        0 < price * ltv_bps,
    ensures
        0 <= spec_loan_amount(asset_amount, collateral_amount, price, ltv_bps) <= asset_amount,
        spec_loan_amount(asset_amount, collateral_amount, price, ltv_bps) + (asset_amount
            - spec_loan_amount(asset_amount, collateral_amount, price, ltv_bps)) == asset_amount,
        0 <= spec_loan_collateral(asset_amount, collateral_amount, price, ltv_bps)
            <= collateral_amount,
        spec_loan_collateral(asset_amount, collateral_amount, price, ltv_bps)
            + spec_collateral_excess(asset_amount, collateral_amount, price, ltv_bps)
            == collateral_amount,
{
    lemma_loan_rescale_bounds(asset_amount, collateral_amount, price, ltv_bps);
}

/// Interest accrued on the outstanding principal over the elapsed time at the
/// pool's rate.
pub open spec fn spec_interest(principal: int, rate_bps: int, slots_elapsed: int) -> int {
    scale_by_bps(principal, rate_bps * slots_elapsed)
}

pub open spec fn spec_total_due(principal: int, rate_bps: int, slots_elapsed: int) -> int {
    principal + spec_interest(principal, rate_bps, slots_elapsed)
}

/// What the repay deposit actually settles: capped by the total owed.
pub open spec fn spec_actual_repay(
    repay_deposit: int,
    principal: int,
    rate_bps: int,
    slots_elapsed: int,
) -> int {
    min_int(repay_deposit, spec_total_due(principal, rate_bps, slots_elapsed))
}

pub open spec fn spec_remaining_due(
    repay_deposit: int,
    principal: int,
    rate_bps: int,
    slots_elapsed: int,
) -> int {
    spec_total_due(principal, rate_bps, slots_elapsed) - spec_actual_repay(
        repay_deposit,
        principal,
        rate_bps,
        slots_elapsed,
    )
}

/// Locked collateral released in proportion to the settled share of the debt,
/// truncating toward zero.
pub open spec fn spec_collateral_release(
    repay_deposit: int,
    principal: int,
    locked_collateral: int,
    rate_bps: int,
    slots_elapsed: int,
) -> int {
    spec_actual_repay(repay_deposit, principal, rate_bps, slots_elapsed) * locked_collateral
        / spec_total_due(principal, rate_bps, slots_elapsed)
}

/// Everything the repay circuit reveals or re-encrypts. `actual_repay_amount`
/// and `collateral_release_amount` are the two transfer legs (repay source to
/// lender, collateral vault to borrower); `remaining_due` is the new
/// principal, re-encrypted for storage; `fully_repaid` is the only plaintext
/// predicate revealed.
pub struct RepayOutcome {
    pub interest_accrued: u64,
    pub total_due: u64,
    pub actual_repay_amount: u64,
    pub remaining_due: u64,
    pub collateral_release_amount: u64,
    pub fully_repaid: bool,
}

/// Whether the repay circuit is defined for these operands: no intermediate
/// product may overflow and the total owed must be positive.
pub open spec fn repay_defined(
    repay_deposit: int,
    principal: int,
    locked_collateral: int,
    rate_bps: int,
    slots_elapsed: int,
) -> bool {
    &&& rate_bps * slots_elapsed <= u64::MAX
    &&& principal * (rate_bps * slots_elapsed) <= u64::MAX
    &&& spec_total_due(principal, rate_bps, slots_elapsed) <= u64::MAX
    &&& 0 < spec_total_due(principal, rate_bps, slots_elapsed)
    &&& spec_actual_repay(repay_deposit, principal, rate_bps, slots_elapsed) * locked_collateral
        <= u64::MAX
}

/// Evaluates the repay circuit. Returns `None` exactly when the operands are
/// outside the circuit's domain (an overflowing intermediate, or a zero total
/// owed, which only a zero-principal loan can produce); otherwise every field
/// equals its defining formula.
pub fn repay(
    repay_deposit: u64,
    remaining_principal: u64,
    locked_collateral: u64,
    slots_elapsed: u64,
    interest_rate_bps: u16,
) -> (r: Option<RepayOutcome>)
    ensures
        r is Some <==> repay_defined(
            repay_deposit as int,
            remaining_principal as int,
            locked_collateral as int,
            interest_rate_bps as int,
            slots_elapsed as int,
        ),
        r matches Some(o) ==> {
            let dep = repay_deposit as int;
            let pr = remaining_principal as int;
            let lc = locked_collateral as int;
            let rate = interest_rate_bps as int;
            let sl = slots_elapsed as int;
            &&& o.interest_accrued == spec_interest(pr, rate, sl)
            &&& o.total_due == spec_total_due(pr, rate, sl)
            &&& o.actual_repay_amount == spec_actual_repay(dep, pr, rate, sl)
            &&& o.remaining_due == spec_remaining_due(dep, pr, rate, sl)
            &&& o.collateral_release_amount == spec_collateral_release(dep, pr, lc, rate, sl)
            &&& (o.fully_repaid <==> spec_remaining_due(dep, pr, rate, sl) == 0)
            &&& o.actual_repay_amount <= repay_deposit
            &&& o.collateral_release_amount <= locked_collateral
        },
{
    let rate_factor = match (interest_rate_bps as u64).checked_mul(slots_elapsed) {
        Some(f) => f,
        None => {
            return None;
        },
    };
    let scaled_principal = match remaining_principal.checked_mul(rate_factor) {
        Some(s) => s,
        None => {
            return None;
        },
    };
    let interest_accrued = scaled_principal / BPS_DENOMINATOR;
    let total_due = match remaining_principal.checked_add(interest_accrued) {
        Some(t) => t,
        None => {
            return None;
        },
    };
    if total_due == 0 {
        return None;
    }
    let actual_repay_amount = if repay_deposit < total_due {
        repay_deposit
    } else {
        total_due
    };
    let remaining_due = total_due - actual_repay_amount;
    let repay_scaled = match actual_repay_amount.checked_mul(locked_collateral) {
        Some(s) => s,
        None => {
            return None;
        },
    };
    let collateral_release_amount = repay_scaled / total_due;
    proof {
        lemma_release_within_locked(
            actual_repay_amount as int,
            total_due as int,
            locked_collateral as int,
        );
    }
    let fully_repaid = remaining_due == 0;
    Some(
        RepayOutcome {
            interest_accrued,
            total_due,
            actual_repay_amount,
            remaining_due,
            collateral_release_amount,
            fully_repaid,
        },
    )
}

/// A proportional release never exceeds the locked collateral, because the
/// settled amount never exceeds the total owed.
proof fn lemma_release_within_locked(actual_repay: int, total_due: int, locked_collateral: int)
    requires
        0 <= actual_repay <= total_due,
        0 < total_due,
        0 <= locked_collateral,
    ensures
        0 <= actual_repay * locked_collateral / total_due <= locked_collateral,
{
    lemma_mul_inequality(actual_repay, total_due, locked_collateral);
    lemma_div_is_ordered(actual_repay * locked_collateral, total_due * locked_collateral, total_due);
    vstd::arithmetic::mul::lemma_mul_is_commutative(total_due, locked_collateral);
    lemma_div_by_multiple(locked_collateral, total_due);
    lemma_mul_nonnegative(actual_repay, locked_collateral);
    lemma_div_pos_is_pos(actual_repay * locked_collateral, total_due);
}

} // verus!
