//! Interest computation with banker's rounding (round half to even).
//!
//! Interest on a principal over a period is
//! `principal * rate_bps * elapsed / (BASIS_POINTS_SCALE * SECONDS_PER_YEAR)`,
//! rounded to the nearest integer with ties going to the even neighbour, so that
//! repeated accruals carry no systematic upward or downward bias.
use vstd::prelude::*;
use vstd::arithmetic::div_mod::{
    lemma_fundamental_div_mod, lemma_div_is_ordered, lemma_fundamental_div_mod_converse_div,
};

verus! {

/// Seconds in a (non-leap) year: the period to which annual rates refer.
pub const SECONDS_PER_YEAR: i128 = 31_536_000;

/// One hundred percent, expressed in basis points.
pub const BASIS_POINTS_SCALE: i128 = 10_000;

/// `BASIS_POINTS_SCALE * SECONDS_PER_YEAR`: the divisor of the interest formula.
pub const INTEREST_DENOMINATOR: i128 = BASIS_POINTS_SCALE * SECONDS_PER_YEAR;

/// Failure of the interest computation.
#[derive(Clone, Copy, Debug, PartialEq, Eq)]
pub enum RoundingError {
    /// An intermediate product does not fit in an `i128`.
    Overflow,
}

/// The rounded interest of one accrual period.
#[derive(Clone, Copy, Debug, PartialEq, Eq)]
pub struct InterestCalcResult {
    /// Interest for the period, rounded half to even.
    pub interest: i128,
}

/// Whether an integer is representable as an `i128`.
pub open spec fn fits_i128(x: int) -> bool {
    i128::MIN <= x <= i128::MAX
}

/// `num / den` rounded to the nearest integer, ties to the even neighbour
/// (for `den > 0`).
pub open spec fn round_half_even(num: int, den: int) -> int {
    let q = num / den;
    let r = num % den;
    if 2 * r > den {
        q + 1
    } else if 2 * r < den {
        q
    } else if q % 2 == 0 {
        q
    } else {
        q + 1
    }
}

/// The exact (unrounded) numerator of the interest formula.
pub open spec fn interest_numerator(principal: int, elapsed: int, rate_bps: int) -> int {
    principal * rate_bps * elapsed
}

/// Whether the checked computation of the numerator stays within `i128`.
pub open spec fn interest_computable(principal: int, elapsed: int, rate_bps: int) -> bool {
    fits_i128(principal * rate_bps) && fits_i128(principal * rate_bps * elapsed)
}

/// Interest over `elapsed` seconds at the annual rate `rate_bps`, rounded half to even.
pub open spec fn spec_rounded_interest(principal: int, elapsed: int, rate_bps: int) -> int {
    round_half_even(interest_numerator(principal, elapsed, rate_bps), INTEREST_DENOMINATOR as int)
}

/// Computes `principal * rate_bps * elapsed / (BASIS_POINTS_SCALE * SECONDS_PER_YEAR)`
/// rounded half to even, with checked arithmetic.
pub fn calculate_interest_with_rounding(
    principal: i128,
    elapsed: u64,
    rate_bps: i128,
) -> (result: Result<InterestCalcResult, RoundingError>)
    ensures
        match result {
            Ok(res) => interest_computable(principal as int, elapsed as int, rate_bps as int)
                && res.interest as int == spec_rounded_interest(
                principal as int,
                elapsed as int,
                rate_bps as int,
            ),
            Err(e) => !interest_computable(principal as int, elapsed as int, rate_bps as int)
                && e == RoundingError::Overflow,
        },
        result matches Ok(res) ==> -315_360_000_000 <= 2 * (res.interest * 315_360_000_000
            - principal * rate_bps * elapsed) <= 315_360_000_000,
{
    let scaled = match principal.checked_mul(rate_bps) {
        Some(v) => v,
        None => return Err(RoundingError::Overflow),
    };
    let num = match scaled.checked_mul(elapsed as i128) {
        Some(v) => v,
        None => return Err(RoundingError::Overflow),
    };
    proof {
        assert(num as int == interest_numerator(principal as int, elapsed as int, rate_bps as int));
    }
    let den: i128 = INTEREST_DENOMINATOR;
    proof {
        let n = num as int;
        let d = den as int;
        lemma_fundamental_div_mod(n, d);
        if num >= 0 {
            assert(0 <= n / d <= n) by (nonlinear_arith)
                requires
                    n >= 0,
                    n == d * (n / d) + n % d,
                    0 <= n % d < d,
                    d > 1,
            ;
        } else {
            assert(n <= n / d <= 0) by (nonlinear_arith)
                requires
                    n < 0,
                    n == d * (n / d) + n % d,
                    0 <= n % d < d,
                    d > 1,
            ;
        }
    }
    let q = match num.checked_div_euclid(den) {
        Some(v) => v,
        None => return Err(RoundingError::Overflow),
    };
    let r = match num.checked_rem_euclid(den) {
        Some(v) => v,
        None => return Err(RoundingError::Overflow),
    };
    let q_is_even = match q.checked_rem_euclid(2) {
        Some(m) => m == 0,
        None => true,
    };
    let interest = if 2 * r > den {
        q + 1
    } else if 2 * r < den {
        q
    } else if q_is_even {
        q
    } else {
        q + 1
    };
    proof {
        lemma_round_half_even_error(num as int, den as int);
    }
    Ok(InterestCalcResult { interest })
}

/// Banker's rounding is within half a unit of the exact quotient.
pub proof fn lemma_round_half_even_error(num: int, den: int)
    requires
        den > 0,
    ensures
        -den <= 2 * (round_half_even(num, den) * den - num) <= den,
{
    let q = num / den;
    let r = num % den;
    lemma_fundamental_div_mod(num, den);
    assert(num == q * den + r) by (nonlinear_arith)
        requires
            num == den * q + r,
    ;
    if round_half_even(num, den) == q {
        assert(round_half_even(num, den) * den - num == -r);
    } else {
        assert(round_half_even(num, den) == q + 1);
        assert(round_half_even(num, den) * den - num == den - r) by (nonlinear_arith)
            requires
                round_half_even(num, den) == q + 1,
                num == q * den + r,
        ;
    }
}

/// Banker's rounding never reverses the order of two quotients with the same divisor.
pub proof fn lemma_round_half_even_monotonic(x: int, y: int, den: int)
    requires
        den > 0,
        x <= y,
    ensures
        round_half_even(x, den) <= round_half_even(y, den),
{
    lemma_div_is_ordered(x, y, den);
    lemma_fundamental_div_mod(x, den);
    lemma_fundamental_div_mod(y, den);
    let qx = x / den;
    let qy = y / den;
    if qx == qy {
        assert(x % den <= y % den) by (nonlinear_arith)
            requires
                x == den * qx + x % den,
                y == den * qy + y % den,
                qx == qy,
                x <= y,
        ;
    }
}

/// The result of banker's rounding of an exact multiple is the exact quotient.
pub proof fn lemma_round_half_even_exact(q: int, den: int)
    requires
        den > 0,
    ensures
        round_half_even(q * den, den) == q,
{
    lemma_fundamental_div_mod_converse_div(q * den, den, q, 0);
    vstd::arithmetic::div_mod::lemma_fundamental_div_mod_converse_mod(q * den, den, q, 0);
}

} // verus!
