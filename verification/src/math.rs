//! Basis-point arithmetic shared by the accounting modules.
use vstd::prelude::*;

verus! {

/// One hundred percent, expressed in basis points.
pub const BPS_SCALE: i128 = 10_000;

/// Highest annual rate, in basis points, that rate computations report:
/// 100 % APR (`BPS_SCALE`). Rates above it are clamped down to it.
pub const MAX_RATE_BPS: i128 = 10_000;

/// The protocol reserve's share of `total_interest` at `reserve_factor_bps`,
/// rounded down.
pub open spec fn spec_reserve_cut(total_interest: int, reserve_factor_bps: int) -> int {
    total_interest * reserve_factor_bps / 10_000
}

/// Whether a split of `total_interest` at `reserve_factor_bps` is accepted.
pub open spec fn split_accepted(total_interest: int, reserve_factor_bps: int) -> bool {
    &&& 0 <= total_interest
    &&& reserve_factor_bps <= 10_000
    &&& total_interest * reserve_factor_bps <= i128::MAX
}

/// Splits accrued interest into `(depositor_yield, reserve_cut)`.
///
/// `reserve_cut = floor(total_interest * reserve_factor_bps / 10_000)` and the
/// depositor share is its complement, so the two parts always add up to the
/// whole and any fractional unit goes to depositors. A negative total, a
/// reserve factor above 100 % or an overflowing product is rejected.
pub fn split_interest_by_reserve_factor(
    total_interest: i128,
    reserve_factor_bps: u32,
) -> (result: Result<(i128, i128), &'static str>)
    ensures
        match result {
            Ok((depositor_yield, reserve_cut)) => {
                &&& split_accepted(total_interest as int, reserve_factor_bps as int)
                &&& reserve_cut as int == spec_reserve_cut(
                    total_interest as int,
                    reserve_factor_bps as int,
                )
                &&& depositor_yield as int == total_interest - reserve_cut
                &&& 0 <= reserve_cut <= total_interest
                &&& 0 <= depositor_yield <= total_interest
            },
            Err(_) => !split_accepted(total_interest as int, reserve_factor_bps as int),
        },
{
    if total_interest < 0 {
        return Err("negative interest");
    }
    if reserve_factor_bps > 10_000 {
        return Err("reserve factor above 100%");
    }
    let product = match total_interest.checked_mul(reserve_factor_bps as i128) {
        Some(p) => p,
        None => return Err("overflow"),
    };
    let reserve_cut = product / BPS_SCALE;
    proof {
        let t = total_interest as int;
        let f = reserve_factor_bps as int;
        assert(0 <= t * f <= t * 10_000) by (nonlinear_arith)
            requires
                0 <= t,
                0 <= f <= 10_000,
        ;
        assert(0 <= (t * f) / 10_000 <= t) by (nonlinear_arith)
            requires
                0 <= t * f <= t * 10_000,
        ;
    }
    let depositor_yield = total_interest - reserve_cut;
    Ok((depositor_yield, reserve_cut))
}

} // verus!
