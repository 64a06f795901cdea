//! Fixed-rate borrow positions that keep accrued interest apart from the principal.
//!
//! Interest accrues at a fixed 5 % APR with banker's rounding. The debt view
//! adds the interest accrued since the last update to the stored interest,
//! saturating instead of overflowing.
use vstd::prelude::*;

use crate::debt::{lemma_interest_rounding_error, spec_accrue_interest, spec_elapsed};
use crate::rounding_strategy::calculate_interest_with_rounding;
use crate::saturating::clamp_i128;

verus! {

/// Fixed annual borrow rate of this module: 5 % (500 bps).
pub const FIXED_APR_BPS: i128 = 500;

#[derive(Clone, Copy, Debug, PartialEq, Eq)]
pub enum BorrowError {
    InvalidAmount,
    Overflow,
    AssetNotSupported,
}

/// A user's borrow: principal, interest accrued so far, time of the last update
/// and the borrowed asset (by its address).
#[derive(Clone, Debug, PartialEq, Eq)]
pub struct DebtPosition {
    pub borrowed_amount: i128,
    pub interest_accrued: i128,
    pub last_update: u64,
    pub asset: String,
}

/// Interest accrued on the position between its last update and `now` at the
/// fixed rate; an overflow of the computation is `BorrowError::Overflow`.
pub open spec fn spec_calculate_interest(now: u64, borrowed_amount: i128, last_update: u64) -> Result<
    i128,
    BorrowError,
> {
    match spec_accrue_interest(
        borrowed_amount,
        spec_elapsed(now, last_update),
        FIXED_APR_BPS,
    ) {
        Ok(interest) => Ok(interest),
        Err(_) => Err(BorrowError::Overflow),
    }
}

/// The stored position with the interest accrued up to `now` added to
/// `interest_accrued` (saturating), or set to `i128::MAX` when the accrual
/// itself overflows.
pub open spec fn spec_user_debt(position: DebtPosition, now: u64) -> DebtPosition {
    DebtPosition {
        interest_accrued: match spec_calculate_interest(
            now,
            position.borrowed_amount,
            position.last_update,
        ) {
            Ok(accrued) => clamp_i128(position.interest_accrued + accrued),
            Err(_) => i128::MAX,
        },
        ..position
    }
}

/// Calculates the interest accrued on `debt_position` up to `now` (the ledger
/// timestamp) at the fixed 5 % APR, with banker's rounding and checked arithmetic.
pub fn calculate_interest(now: u64, debt_position: &DebtPosition) -> (result: Result<
    i128,
    BorrowError,
>)
    ensures
        result == spec_calculate_interest(
            now,
            debt_position.borrowed_amount,
            debt_position.last_update,
        ),
        result matches Ok(interest) ==> interest >= 0,
{
    let elapsed = if now > debt_position.last_update {
        now - debt_position.last_update
    } else {
        return Ok(0);
    };
    if debt_position.borrowed_amount == 0 || elapsed == 0 {
        return Ok(0);
    }
    let result = match calculate_interest_with_rounding(
        debt_position.borrowed_amount,
        elapsed,
        FIXED_APR_BPS,
    ) {
        Ok(r) => r,
        Err(_) => return Err(BorrowError::Overflow),
    };
    if result.interest < 0 {
        return Err(BorrowError::Overflow);
    }
    Ok(result.interest)
}

/// The user's debt as of `now`, with interest accrued (view function).
///
/// `stored` is the user's stored position; without one, the view starts from an
/// empty position dated `now` for `fallback_asset`.
pub fn get_user_debt(stored: Option<DebtPosition>, now: u64, fallback_asset: String) -> (position:
    DebtPosition)
    ensures
        position == spec_user_debt(
            match stored {
                Some(p) => p,
                None => DebtPosition {
                    borrowed_amount: 0,
                    interest_accrued: 0,
                    last_update: now,
                    asset: fallback_asset,
                },
            },
            now,
        ),
{
    let mut position = match stored {
        Some(p) => p,
        None => DebtPosition {
            borrowed_amount: 0,
            interest_accrued: 0,
            last_update: now,
            asset: fallback_asset,
        },
    };
    match calculate_interest(now, &position) {
        Ok(accrued) => {
            position.interest_accrued = position.interest_accrued.saturating_add(accrued);
        },
        Err(_) => {
            position.interest_accrued = i128::MAX;
        },
    }
    position
}

/// The debt view only ever adds interest: it never lowers the accrued interest
/// and leaves principal, last update and asset untouched.
pub proof fn lemma_user_debt_only_adds_interest(position: DebtPosition, now: u64)
    ensures
        spec_user_debt(position, now).interest_accrued >= position.interest_accrued,
        spec_user_debt(position, now).borrowed_amount == position.borrowed_amount,
        spec_user_debt(position, now).last_update == position.last_update,
        spec_user_debt(position, now).asset == position.asset,
{
}

/// Fixed-rate interest is the exact 5 % APR interest over the whole time since
/// the last update, within half a unit:
/// `2 * |interest * 315_360_000_000 - borrowed * 500 * elapsed| <= 315_360_000_000`.
pub proof fn lemma_fixed_rate_interest_tracks_exact_value(
    now: u64,
    borrowed_amount: i128,
    last_update: u64,
)
    ensures
        spec_calculate_interest(now, borrowed_amount, last_update) matches Ok(interest) ==> ({
            let elapsed: int = if now >= last_update {
                now - last_update
            } else {
                0
            };
            -315_360_000_000 <= 2 * (interest * 315_360_000_000 - borrowed_amount * 500 * elapsed)
                <= 315_360_000_000
        }),
{
    lemma_interest_rounding_error(borrowed_amount, spec_elapsed(now, last_update), FIXED_APR_BPS);
}

} // verus!
