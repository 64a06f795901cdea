//! Debt positions: interest accrual, settlement, borrowing and repayment.
//!
//! A position holds a settled principal and the time of its last settlement.
//! Settling adds the interest accrued since then (banker's rounding, see
//! [`crate::rounding_strategy`]) to the principal.
use vstd::prelude::*;

use crate::math::{spec_reserve_cut, MAX_RATE_BPS, split_accepted, split_interest_by_reserve_factor};
use crate::rounding_strategy::{
    calculate_interest_with_rounding, fits_i128, RoundingError, interest_computable, interest_numerator,
    lemma_round_half_even_error, lemma_round_half_even_exact, lemma_round_half_even_monotonic,
    spec_rounded_interest, INTEREST_DENOMINATOR,
};
use crate::saturating::clamp_i128;

verus! {

/// Default APR when no dynamic rate is available: 5% (500 bps).
pub const DEFAULT_APR_BPS: i128 = 500;

/// Reserve factor used when no explicit value is configured: 0% (protocol takes nothing).
pub const DEFAULT_RESERVE_FACTOR_BPS: u32 = 0;

/// One hundred percent, expressed in basis points.
pub const BPS_DENOM: i128 = 10_000;

// ─── Core position type ─────────────────────────────────────────────────────

/// A borrower's settled principal and the time (seconds) of its last settlement.
#[derive(Clone, Debug, PartialEq, Eq)]
pub struct DebtPosition {
    pub principal: i128,
    pub last_update: u64,
}

/// The aggregate values from which the global borrow rate is computed.
///
/// `P` is the parameter set of the interest-rate model, when one is configured.
#[derive(Clone, Debug, PartialEq, Eq)]
pub struct RateSnapshot<P> {
    pub total_debt: i128,
    pub total_supply: i128,
    pub params: Option<P>,
}

/// A borrow rate computed during one ledger, keyed by that ledger's sequence number.
#[derive(Clone, Debug, PartialEq, Eq)]
pub struct BorrowRateCache {
    pub ledger_sequence: u32,
    pub rate_bps: i128,
}

// ─── Error type ─────────────────────────────────────────────────────────────

#[derive(Clone, Copy, Debug, PartialEq, Eq)]
pub enum DebtError {
    Overflow,
    InvalidAmount,
}

impl From<&'static str> for DebtError {
    fn from(_reason: &'static str) -> (e: Self) {
        DebtError::Overflow
    }
}

impl vstd::std_specs::convert::FromSpecImpl<&'static str> for DebtError {
    open spec fn obeys_from_spec() -> bool {
        true
    }

    open spec fn from_spec(v: &'static str) -> Self {
        DebtError::Overflow
    }
}

impl From<RoundingError> for DebtError {
    fn from(_err: RoundingError) -> (e: Self) {
        DebtError::Overflow
    }
}

impl vstd::std_specs::convert::FromSpecImpl<RoundingError> for DebtError {
    open spec fn obeys_from_spec() -> bool {
        true
    }

    open spec fn from_spec(v: RoundingError) -> Self {
        DebtError::Overflow
    }
}

// ─── Interest-split result ──────────────────────────────────────────────────

/// The result of splitting accrued borrow interest between depositors and the
/// protocol reserve.
///
/// `depositor_yield + reserve_cut == total_interest` always holds and neither
/// field is negative: the reserve cut is rounded down, so any fractional unit
/// falls to the depositor side.
#[derive(Clone, Copy, Debug, PartialEq, Eq)]
pub struct InterestSplit {
    /// Gross interest accrued during the period.
    pub total_interest: i128,
    /// Share of interest owed to depositors (supply-side yield).
    pub depositor_yield: i128,
    /// Share of interest retained by the protocol reserve.
    pub reserve_cut: i128,
}

// ─── Specifications ─────────────────────────────────────────────────────────

/// Seconds from `last_update` to `now`, zero when the clock has not advanced.
pub open spec fn spec_elapsed(now: u64, last_update: u64) -> u64 {
    if now >= last_update {
        (now - last_update) as u64
    } else {
        0
    }
}

/// Interest accrued on `principal` over `elapsed` seconds at the annual rate
/// `rate_bps`: zero when either the principal or the period is zero, an
/// overflow when the computation leaves `i128` or the interest is negative.
pub open spec fn spec_accrue_interest(principal: i128, elapsed: u64, rate_bps: i128) -> Result<
    i128,
    DebtError,
> {
    if principal == 0 || elapsed == 0 {
        Ok(0)
    } else if !interest_computable(principal as int, elapsed as int, rate_bps as int) {
        Err(DebtError::Overflow)
    } else if spec_rounded_interest(principal as int, elapsed as int, rate_bps as int) < 0 {
        Err(DebtError::Overflow)
    } else {
        Ok(spec_rounded_interest(principal as int, elapsed as int, rate_bps as int) as i128)
    }
}

/// Gross interest and its split between depositors and the reserve.
pub open spec fn spec_accrue_interest_split(
    principal: i128,
    elapsed: u64,
    rate_bps: i128,
    reserve_factor_bps: u32,
) -> Result<InterestSplit, DebtError> {
    match spec_accrue_interest(principal, elapsed, rate_bps) {
        Err(e) => Err(e),
        Ok(total) => if split_accepted(total as int, reserve_factor_bps as int) {
            Ok(
                InterestSplit {
                    total_interest: total,
                    depositor_yield: (total - spec_reserve_cut(
                        total as int,
                        reserve_factor_bps as int,
                    )) as i128,
                    reserve_cut: spec_reserve_cut(total as int, reserve_factor_bps as int) as i128,
                },
            )
        } else {
            Err(DebtError::Overflow)
        },
    }
}

/// The position with its accrued interest folded into the principal, as of `now`.
pub open spec fn spec_settle_accrual(position: DebtPosition, now: u64, rate_bps: i128) -> Result<
    DebtPosition,
    DebtError,
> {
    match spec_accrue_interest(
        position.principal,
        spec_elapsed(now, position.last_update),
        rate_bps,
    ) {
        Err(e) => Err(e),
        Ok(interest) => if fits_i128(position.principal + interest) {
            Ok(DebtPosition { principal: (position.principal + interest) as i128, last_update: now })
        } else {
            Err(DebtError::Overflow)
        },
    }
}

/// Settlement together with the split of the interest it adds.
pub open spec fn spec_settle_accrual_split(
    position: DebtPosition,
    now: u64,
    rate_bps: i128,
    reserve_factor_bps: u32,
) -> Result<(DebtPosition, InterestSplit), DebtError> {
    match spec_accrue_interest_split(
        position.principal,
        spec_elapsed(now, position.last_update),
        rate_bps,
        reserve_factor_bps,
    ) {
        Err(e) => Err(e),
        Ok(split) => if fits_i128(position.principal + split.total_interest) {
            Ok(
                (
                    DebtPosition {
                        principal: (position.principal + split.total_interest) as i128,
                        last_update: now,
                    },
                    split,
                ),
            )
        } else {
            Err(DebtError::Overflow)
        },
    }
}

/// Principal plus the interest accrued up to `now`.
pub open spec fn spec_effective_debt(position: DebtPosition, now: u64, rate_bps: i128) -> Result<
    i128,
    DebtError,
> {
    match spec_accrue_interest(
        position.principal,
        spec_elapsed(now, position.last_update),
        rate_bps,
    ) {
        Err(e) => Err(e),
        Ok(interest) => if fits_i128(position.principal + interest) {
            Ok((position.principal + interest) as i128)
        } else {
            Err(DebtError::Overflow)
        },
    }
}

/// Supply APR: `borrow_rate * utilization / 10_000 * (10_000 - reserve_factor) / 10_000`,
/// each division rounded down, clamped to `[0, MAX_RATE_BPS]`; negative inputs, a
/// reserve factor above 100 % and overflowing products are errors.
pub open spec fn spec_effective_supply_rate(
    borrow_rate_bps: i128,
    utilization_bps: i128,
    reserve_factor_bps: u32,
) -> Result<i128, DebtError> {
    if borrow_rate_bps < 0 || utilization_bps < 0 || reserve_factor_bps > 10_000 {
        Err(DebtError::Overflow)
    } else if !fits_i128(borrow_rate_bps * utilization_bps) {
        Err(DebtError::Overflow)
    } else if !fits_i128(
        (borrow_rate_bps * utilization_bps / 10_000) * (10_000 - reserve_factor_bps),
    ) {
        Err(DebtError::Overflow)
    } else {
        Ok(
            clamp_rate(
                (borrow_rate_bps * utilization_bps / 10_000) * (10_000 - reserve_factor_bps)
                    / 10_000,
            ) as i128,
        )
    }
}

/// A rate clamped to `[0, MAX_RATE_BPS]`.
pub open spec fn clamp_rate(rate: int) -> int {
    if rate < 0 {
        0
    } else if rate > MAX_RATE_BPS {
        MAX_RATE_BPS as int
    } else {
        rate
    }
}

/// Settlement followed by adding a positive `amount` to the principal.
pub open spec fn spec_borrow_amount(
    position: DebtPosition,
    now: u64,
    amount: i128,
    rate_bps: i128,
) -> Result<DebtPosition, DebtError> {
    if amount <= 0 {
        Err(DebtError::InvalidAmount)
    } else {
        match spec_settle_accrual(position, now, rate_bps) {
            Err(e) => Err(e),
            Ok(settled) => if fits_i128(settled.principal + amount) {
                Ok(DebtPosition { principal: (settled.principal + amount) as i128, last_update: now })
            } else {
                Err(DebtError::Overflow)
            },
        }
    }
}

/// Settlement followed by repaying a positive `amount`; repaying at least the
/// settled principal clears it to zero.
pub open spec fn spec_repay_amount(
    position: DebtPosition,
    now: u64,
    amount: i128,
    rate_bps: i128,
) -> Result<DebtPosition, DebtError> {
    if amount <= 0 {
        Err(DebtError::InvalidAmount)
    } else {
        match spec_settle_accrual(position, now, rate_bps) {
            Err(e) => Err(e),
            Ok(settled) => Ok(
                DebtPosition {
                    principal: if amount >= settled.principal {
                        0
                    } else {
                        (settled.principal - amount) as i128
                    },
                    last_update: now,
                },
            ),
        }
    }
}

/// Utilization in basis points: `total_debt * 10_000 / total_supply` with a
/// saturating product and a division truncated toward zero; zero without supply.
pub open spec fn spec_utilization_bps(total_debt: i128, total_supply: i128) -> i128 {
    if total_supply > 0 {
        let scaled = clamp_i128(total_debt * 10_000) as int;
        if scaled >= 0 {
            (scaled / total_supply as int) as i128
        } else {
            (-((-scaled) / total_supply as int)) as i128
        }
    } else {
        0
    }
}

/// The rate kept in `cached` for `ledger_sequence`, if it holds one.
pub open spec fn spec_cached_rate(cached: Option<BorrowRateCache>, ledger_sequence: u32) -> Option<
    i128,
> {
    match cached {
        Some(cache) => if cache.ledger_sequence == ledger_sequence {
            Some(cache.rate_bps)
        } else {
            None
        },
        None => None,
    }
}

// ─── Storage helpers ────────────────────────────────────────────────────────

/// The stored position of a borrower, or an empty one dated `now` when none is stored.
pub fn load_debt(stored: Option<DebtPosition>, now: u64) -> (position: DebtPosition)
    ensures
        position == match stored {
            Some(p) => p,
            None => DebtPosition { principal: 0, last_update: now },
        },
{
    match stored {
        Some(p) => p,
        None => DebtPosition { principal: 0, last_update: now },
    }
}

/// The aggregates needed for the global borrow rate; absent totals count as zero.
pub fn load_rate_snapshot<P>(
    total_debt: Option<i128>,
    total_supply: Option<i128>,
    params: Option<P>,
) -> (snapshot: RateSnapshot<P>)
    ensures
        snapshot.total_debt == match total_debt {
            Some(d) => d,
            None => 0,
        },
        snapshot.total_supply == match total_supply {
            Some(s) => s,
            None => 0,
        },
        snapshot.params == params,
{
    RateSnapshot {
        total_debt: match total_debt {
            Some(d) => d,
            None => 0,
        },
        total_supply: match total_supply {
            Some(s) => s,
            None => 0,
        },
        params,
    }
}

/// Utilization of the market in basis points, as the borrow-rate model reads it.
pub fn utilization_bps(total_debt: i128, total_supply: i128) -> (util: i128)
    ensures
        util == spec_utilization_bps(total_debt, total_supply),
{
    if total_supply > 0 {
        total_debt.saturating_mul(BPS_DENOM) / total_supply
    } else {
        0
    }
}

/// The global borrow rate of a snapshot: the rate model applied to the current
/// utilization when the model is configured, [`DEFAULT_APR_BPS`] otherwise.
pub fn uncached_borrow_rate<P, F: Fn(i128, &P) -> i128>(
    snapshot: &RateSnapshot<P>,
    compute_borrow_rate: &F,
) -> (rate: i128)
    requires
        forall|u: i128, p: &P| #[trigger] compute_borrow_rate.requires((u, p)),
    ensures
        match snapshot.params {
            Some(p) => compute_borrow_rate.ensures(
                (spec_utilization_bps(snapshot.total_debt, snapshot.total_supply), &p),
                rate,
            ),
            None => rate == DEFAULT_APR_BPS,
        },
{
    match &snapshot.params {
        Some(p) => {
            let util = utilization_bps(snapshot.total_debt, snapshot.total_supply);
            compute_borrow_rate(util, p)
        },
        None => DEFAULT_APR_BPS,
    }
}

/// Returns the borrow rate for the ledger `ledger_sequence`, computing it at most
/// once per ledger.
///
/// `cached` is the cache entry stored under this ledger's key, if any. On a hit
/// the cached rate is returned and nothing is to be written; on a miss the rate
/// is computed by `compute_rate` and the entry to store is returned with it.
pub fn cached_borrow_rate<F: FnOnce() -> i128>(
    ledger_sequence: u32,
    cached: Option<BorrowRateCache>,
    compute_rate: F,
) -> (out: (i128, Option<BorrowRateCache>))
    requires
        compute_rate.requires(()),
    ensures
        match spec_cached_rate(cached, ledger_sequence) {
            Some(rate) => out == (rate, None::<BorrowRateCache>),
            None => {
                &&& compute_rate.ensures((), out.0)
                &&& out.1 == Some(BorrowRateCache { ledger_sequence, rate_bps: out.0 })
            },
        },
{
    if let Some(cache) = cached {
        if cache.ledger_sequence == ledger_sequence {
            return (cache.rate_bps, None);
        }
    }
    let rate_bps = compute_rate();
    let cache = BorrowRateCache { ledger_sequence, rate_bps };
    (rate_bps, Some(cache))
}

// ─── Time helpers ───────────────────────────────────────────────────────────

/// Seconds since `last_update`, saturating at zero when the clock is behind it.
pub fn elapsed_seconds(now: u64, last_update: u64) -> (elapsed: u64)
    ensures
        elapsed == spec_elapsed(now, last_update),
{
    now.saturating_sub(last_update)
}

// ─── Interest accrual (borrow side) ─────────────────────────────────────────

/// Computes the gross interest accrued on `principal` over `elapsed` seconds at
/// `rate_bps` (annual, in basis points), rounded half to even.
///
/// Returns the interest *delta* only, `Ok(0)` when either `principal` or
/// `elapsed` is zero, and `DebtError::Overflow` when the computation overflows
/// or the interest would be negative.
pub fn accrue_interest(principal: i128, elapsed: u64, rate_bps: i128) -> (result: Result<
    i128,
    DebtError,
>)
    ensures
        result == spec_accrue_interest(principal, elapsed, rate_bps),
{
    if principal == 0 || elapsed == 0 {
        return Ok(0);
    }
    let result = match calculate_interest_with_rounding(principal, elapsed, rate_bps) {
        Ok(r) => r,
        Err(e) => return Err(DebtError::from(e)),
    };
    if result.interest < 0 {
        return Err(DebtError::Overflow);
    }
    Ok(result.interest)
}

/// Computes gross interest *and* splits it between depositor yield and protocol
/// reserve in one pass:
///
/// ```text
/// total_interest  = accrue_interest(principal, elapsed, rate_bps)
/// reserve_cut     = floor(total_interest * reserve_factor_bps / 10_000)
/// depositor_yield = total_interest - reserve_cut
/// ```
///
/// Returns `DebtError::Overflow` on arithmetic overflow or if the reserve factor
/// exceeds 10 000 bps.
pub fn accrue_interest_split(
    principal: i128,
    elapsed: u64,
    rate_bps: i128,
    reserve_factor_bps: u32,
) -> (result: Result<InterestSplit, DebtError>)
    ensures
        result == spec_accrue_interest_split(principal, elapsed, rate_bps, reserve_factor_bps),
        result matches Ok(split) ==> {
            &&& split.depositor_yield + split.reserve_cut == split.total_interest
            &&& split.depositor_yield >= 0
            &&& split.reserve_cut >= 0
        },
{
    let total_interest = accrue_interest(principal, elapsed, rate_bps)?;
    let (depositor_yield, reserve_cut) = match split_interest_by_reserve_factor(
        total_interest,
        reserve_factor_bps,
    ) {
        Ok(parts) => parts,
        Err(reason) => return Err(DebtError::from(reason)),
    };
    Ok(InterestSplit { total_interest, depositor_yield, reserve_cut })
}

// ─── Settle helpers ─────────────────────────────────────────────────────────

/// Settles accrued interest into the principal using the borrow rate only:
/// `principal = old_principal + interest` and `last_update = now`.
pub fn settle_accrual(position: &DebtPosition, now: u64, rate_bps: i128) -> (result: Result<
    DebtPosition,
    DebtError,
>)
    ensures
        result == spec_settle_accrual(*position, now, rate_bps),
{
    let elapsed = elapsed_seconds(now, position.last_update);
    let interest = accrue_interest(position.principal, elapsed, rate_bps)?;
    let principal = match position.principal.checked_add(interest) {
        Some(p) => p,
        None => return Err(DebtError::Overflow),
    };
    Ok(DebtPosition { principal, last_update: now })
}

/// Settles accrued interest and returns both the updated position and the split
/// of the gross interest between depositor yield and protocol reserve.
pub fn settle_accrual_split(
    position: &DebtPosition,
    now: u64,
    rate_bps: i128,
    reserve_factor_bps: u32,
) -> (result: Result<(DebtPosition, InterestSplit), DebtError>)
    ensures
        result == spec_settle_accrual_split(*position, now, rate_bps, reserve_factor_bps),
        result matches Ok((_, split)) ==> split.depositor_yield + split.reserve_cut
            == split.total_interest,
{
    let elapsed = elapsed_seconds(now, position.last_update);
    let split = accrue_interest_split(position.principal, elapsed, rate_bps, reserve_factor_bps)?;
    let principal = match position.principal.checked_add(split.total_interest) {
        Some(p) => p,
        None => return Err(DebtError::Overflow),
    };
    let updated = DebtPosition { principal, last_update: now };
    Ok((updated, split))
}

// ─── View helpers ───────────────────────────────────────────────────────────

/// Read-only equivalent of [`settle_accrual`]: the total debt (principal plus
/// accrued interest) as of `now`.
pub fn effective_debt(position: &DebtPosition, now: u64, rate_bps: i128) -> (result: Result<
    i128,
    DebtError,
>)
    ensures
        result == spec_effective_debt(*position, now, rate_bps),
{
    let elapsed = elapsed_seconds(now, position.last_update);
    let interest = accrue_interest(position.principal, elapsed, rate_bps)?;
    match position.principal.checked_add(interest) {
        Some(d) => Ok(d),
        None => Err(DebtError::Overflow),
    }
}

/// The depositor supply rate (bps) for a borrow rate, a utilization and a
/// reserve factor:
///
/// ```text
/// supply_rate_bps = borrow_rate_bps * utilization_bps / 10_000
///                   * (10_000 − reserve_factor_bps) / 10_000
/// ```
///
/// clamped to `[0, MAX_RATE_BPS]`. Negative inputs, a reserve factor above
/// 10 000 bps and overflowing intermediate products are `DebtError::Overflow`.
pub fn effective_supply_rate(
    borrow_rate_bps: i128,
    utilization_bps: i128,
    reserve_factor_bps: u32,
) -> (result: Result<i128, DebtError>)
    ensures
        result == spec_effective_supply_rate(borrow_rate_bps, utilization_bps, reserve_factor_bps),
        result matches Ok(rate) ==> 0 <= rate <= MAX_RATE_BPS,
{
    if borrow_rate_bps < 0 || utilization_bps < 0 {
        return Err(DebtError::Overflow);
    }
    if reserve_factor_bps > 10_000 {
        return Err(DebtError::Overflow);
    }
    let scale = BPS_DENOM;
    let product = match borrow_rate_bps.checked_mul(utilization_bps) {
        Some(p) => p,
        None => return Err(DebtError::Overflow),
    };
    let rate_util = match product.checked_div(scale) {
        Some(r) => r,
        None => return Err(DebtError::Overflow),
    };
    let one_minus_reserve = match scale.checked_sub(reserve_factor_bps as i128) {
        Some(v) => v,
        None => return Err(DebtError::Overflow),
    };
    proof {
        assert(0 <= rate_util as int * one_minus_reserve as int) by (nonlinear_arith)
            requires
                rate_util >= 0,
                one_minus_reserve >= 0,
        ;
    }
    let weighted = match rate_util.checked_mul(one_minus_reserve) {
        Some(v) => v,
        None => return Err(DebtError::Overflow),
    };
    let supply_rate = match weighted.checked_div(scale) {
        Some(v) => v,
        None => return Err(DebtError::Overflow),
    };
    Ok(supply_rate.max(0).min(MAX_RATE_BPS))
}

// ─── Borrow / repay mutations ───────────────────────────────────────────────

/// Settles the position and adds a positive `amount` to its principal.
pub fn borrow_amount(position: DebtPosition, now: u64, amount: i128, rate_bps: i128) -> (result:
    Result<DebtPosition, DebtError>)
    ensures
        result == spec_borrow_amount(position, now, amount, rate_bps),
{
    if amount <= 0 {
        return Err(DebtError::InvalidAmount);
    }
    let mut settled = settle_accrual(&position, now, rate_bps)?;
    settled.principal = match settled.principal.checked_add(amount) {
        Some(p) => p,
        None => return Err(DebtError::Overflow),
    };
    settled.last_update = now;
    Ok(settled)
}

/// Settles the position and repays a positive `amount`; repaying at least the
/// settled principal clears it, so the principal never goes below zero.
pub fn repay_amount(position: DebtPosition, now: u64, amount: i128, rate_bps: i128) -> (result:
    Result<DebtPosition, DebtError>)
    ensures
        result == spec_repay_amount(position, now, amount, rate_bps),
        result matches Ok(p) ==> p.principal >= 0,
{
    if amount <= 0 {
        return Err(DebtError::InvalidAmount);
    }
    let mut settled = settle_accrual(&position, now, rate_bps)?;
    settled.principal = if amount >= settled.principal {
        0
    } else {
        settled.principal - amount
    };
    settled.last_update = now;
    Ok(settled)
}

// ─── Laws ───────────────────────────────────────────────────────────────────

/// Settling with a split changes the position exactly as plain settlement does:
/// whenever the split settlement succeeds, plain settlement yields the same
/// position; when plain settlement fails, so does the split one; and with the
/// default reserve factor of zero both succeed on the same inputs.
pub proof fn lemma_settle_split_agrees_with_settle(
    position: DebtPosition,
    now: u64,
    rate_bps: i128,
    reserve_factor_bps: u32,
)
    ensures
        spec_settle_accrual_split(position, now, rate_bps, reserve_factor_bps) matches Ok((p, _))
            ==> spec_settle_accrual(position, now, rate_bps) == Ok::<DebtPosition, DebtError>(p),
        spec_settle_accrual(position, now, rate_bps) is Err ==> spec_settle_accrual_split(
            position,
            now,
            rate_bps,
            reserve_factor_bps,
        ) is Err,
        reserve_factor_bps == DEFAULT_RESERVE_FACTOR_BPS ==> (spec_settle_accrual_split(
            position,
            now,
            rate_bps,
            reserve_factor_bps,
        ) is Ok <==> spec_settle_accrual(position, now, rate_bps) is Ok),
{
    let elapsed = spec_elapsed(now, position.last_update);
    if let Ok(total) = spec_accrue_interest(position.principal, elapsed, rate_bps) {
        assert(total >= 0);
        assert(total as int * 0 == 0);
    }
}

/// The read-only effective debt equals the principal that settlement would
/// write, and fails exactly when settlement fails.
pub proof fn lemma_effective_debt_matches_settlement(
    position: DebtPosition,
    now: u64,
    rate_bps: i128,
)
    ensures
        spec_effective_debt(position, now, rate_bps) == match spec_settle_accrual(
            position,
            now,
            rate_bps,
        ) {
            Ok(settled) => Ok::<i128, DebtError>(settled.principal),
            Err(e) => Err(e),
        },
{
}

/// Interest never decreases as more time passes: for a non-negative principal
/// and rate, if interest over the longer period is computable then so is the
/// interest over the shorter one, and it is no larger.
pub proof fn lemma_interest_monotonic_in_time(
    principal: i128,
    earlier: u64,
    later: u64,
    rate_bps: i128,
)
    requires
        principal >= 0,
        rate_bps >= 0,
        earlier <= later,
        spec_accrue_interest(principal, later, rate_bps) is Ok,
    ensures
        spec_accrue_interest(principal, earlier, rate_bps) is Ok,
        spec_accrue_interest(principal, earlier, rate_bps)->Ok_0 <= spec_accrue_interest(
            principal,
            later,
            rate_bps,
        )->Ok_0,
{
    let p = principal as int;
    let r = rate_bps as int;
    let e1 = earlier as int;
    let e2 = later as int;
    if principal != 0 && earlier != 0 {
        assert(0 <= p * r * e1 <= p * r * e2) by (nonlinear_arith)
            requires
                p >= 0,
                r >= 0,
                0 <= e1 <= e2,
        ;
        lemma_round_half_even_monotonic(
            p * r * e1,
            p * r * e2,
            INTEREST_DENOMINATOR as int,
        );
        lemma_round_half_even_monotonic(0, p * r * e1, INTEREST_DENOMINATOR as int);
        lemma_round_half_even_exact(0, INTEREST_DENOMINATOR as int);
    }
}

/// Accrued interest is within half a unit of the exact value
/// `principal * rate_bps * elapsed / (10_000 * 31_536_000)` over the whole
/// elapsed time: `2 * |interest * 315_360_000_000 - principal * rate_bps * elapsed|`
/// is at most `315_360_000_000`.
pub proof fn lemma_interest_rounding_error(principal: i128, elapsed: u64, rate_bps: i128)
    ensures
        spec_accrue_interest(principal, elapsed, rate_bps) matches Ok(interest) ==> -315_360_000_000
            <= 2 * (interest * 315_360_000_000 - principal * rate_bps * elapsed)
            <= 315_360_000_000,
{
    if spec_accrue_interest(principal, elapsed, rate_bps) is Ok {
        if principal == 0 || elapsed == 0 {
            assert(principal as int * rate_bps as int * elapsed as int == 0) by (nonlinear_arith)
                requires
                    principal == 0 || elapsed == 0,
            ;
        } else {
            lemma_round_half_even_error(
                interest_numerator(principal as int, elapsed as int, rate_bps as int),
                INTEREST_DENOMINATOR as int,
            );
        }
    }
}

/// Interest is owed and computable whenever the exact product fits: for a
/// non-negative principal and rate, accrual succeeds exactly when
/// `principal * rate_bps * elapsed` fits in `i128` (or a factor is zero), and the
/// interest is then never negative.
pub proof fn lemma_interest_accrual_succeeds(principal: i128, elapsed: u64, rate_bps: i128)
    requires
        principal >= 0,
        rate_bps >= 0,
    ensures
        (principal == 0 || elapsed == 0 || principal * rate_bps * elapsed <= i128::MAX)
            <==> spec_accrue_interest(principal, elapsed, rate_bps) is Ok,
        spec_accrue_interest(principal, elapsed, rate_bps) matches Ok(interest) ==> interest >= 0,
{
    let p = principal as int;
    let r = rate_bps as int;
    let e = elapsed as int;
    if principal != 0 && elapsed != 0 {
        assert(0 <= p * r <= p * r * e) by (nonlinear_arith)
            requires
                p >= 1,
                r >= 0,
                e >= 1,
        ;
        lemma_round_half_even_monotonic(0, p * r * e, INTEREST_DENOMINATOR as int);
        lemma_round_half_even_exact(0, INTEREST_DENOMINATOR as int);
    }
}

/// Repaying settles first: an accepted repayment of `amount > 0` leaves
/// `max(0, d - amount)` where `d` is the principal plus the interest accrued over
/// the time since the last update, and dates the position `now`; it is accepted
/// whenever that interest is computable and `d` fits in `i128`.
pub proof fn lemma_repay_settles_then_reduces(
    position: DebtPosition,
    now: u64,
    amount: i128,
    rate_bps: i128,
)
    requires
        amount > 0,
    ensures
        ({
            let elapsed = (if now >= position.last_update {
                now - position.last_update
            } else {
                0
            }) as u64;
            &&& spec_repay_amount(position, now, amount, rate_bps) matches Ok(p) ==> {
                &&& spec_accrue_interest(position.principal, elapsed, rate_bps) matches Ok(i)
                    && p.principal == (if position.principal + i - amount > 0 {
                    position.principal + i - amount
                } else {
                    0
                })
                &&& p.last_update == now
            }
            &&& (spec_accrue_interest(position.principal, elapsed, rate_bps) is Ok && i128::MIN
                <= position.principal + spec_accrue_interest(
                position.principal,
                elapsed,
                rate_bps,
            )->Ok_0 <= i128::MAX) ==> spec_repay_amount(position, now, amount, rate_bps) is Ok
        }),
{
}

/// Borrowing settles first: an accepted borrow of `amount > 0` leaves the
/// principal plus the interest accrued since the last update plus `amount`,
/// dated `now`.
pub proof fn lemma_borrow_settles_then_adds(
    position: DebtPosition,
    now: u64,
    amount: i128,
    rate_bps: i128,
)
    requires
        amount > 0,
    ensures
        ({
            let elapsed = (if now >= position.last_update {
                now - position.last_update
            } else {
                0
            }) as u64;
            spec_borrow_amount(position, now, amount, rate_bps) matches Ok(p) ==> {
                &&& spec_accrue_interest(position.principal, elapsed, rate_bps) matches Ok(i)
                    && p.principal == position.principal + i + amount
                &&& p.last_update == now
            }
        }),
{
}

/// Settling twice at the same time is the same as settling once.
pub proof fn lemma_settle_idempotent(position: DebtPosition, now: u64, rate_bps: i128)
    requires
        spec_settle_accrual(position, now, rate_bps) is Ok,
    ensures
        spec_settle_accrual(spec_settle_accrual(position, now, rate_bps)->Ok_0, now, rate_bps)
            == spec_settle_accrual(position, now, rate_bps),
{
}

/// No interest accrues while the clock has not moved past the last update.
pub proof fn lemma_no_interest_without_elapsed_time(
    position: DebtPosition,
    now: u64,
    rate_bps: i128,
)
    requires
        now <= position.last_update,
    ensures
        spec_settle_accrual(position, now, rate_bps) == Ok::<DebtPosition, DebtError>(
            DebtPosition { principal: position.principal, last_update: now },
        ),
{
}

/// Borrowing an amount and repaying the same amount at the same moment leaves
/// the position as plain settlement would (for a non-negative settled principal).
pub proof fn lemma_borrow_then_repay_restores(
    position: DebtPosition,
    now: u64,
    amount: i128,
    rate_bps: i128,
)
    requires
        spec_settle_accrual(position, now, rate_bps) is Ok,
        spec_settle_accrual(position, now, rate_bps)->Ok_0.principal >= 0,
        spec_borrow_amount(position, now, amount, rate_bps) is Ok,
    ensures
        spec_repay_amount(
            spec_borrow_amount(position, now, amount, rate_bps)->Ok_0,
            now,
            amount,
            rate_bps,
        ) == spec_settle_accrual(position, now, rate_bps),
{
}

/// With no reserve factor the supply rate is the utilization-weighted borrow
/// rate `borrow_rate * utilization / 10_000` (within `[0, MAX_RATE_BPS]`); any
/// reserve factor gives a supply rate no higher than that, and a larger reserve
/// factor never raises it.
pub proof fn lemma_supply_rate_reserve_factor(
    borrow_rate_bps: i128,
    utilization_bps: i128,
    reserve_factor_bps: u32,
    larger_reserve_factor_bps: u32,
)
    requires
        reserve_factor_bps <= larger_reserve_factor_bps,
    ensures
        spec_effective_supply_rate(borrow_rate_bps, utilization_bps, 0) matches Ok(rate)
            ==> rate == clamp_rate(borrow_rate_bps * utilization_bps / 10_000),
        spec_effective_supply_rate(borrow_rate_bps, utilization_bps, reserve_factor_bps) matches Ok(
            rate,
        ) ==> rate <= borrow_rate_bps * utilization_bps / 10_000,
        spec_effective_supply_rate(borrow_rate_bps, utilization_bps, reserve_factor_bps) is Ok
            && spec_effective_supply_rate(
            borrow_rate_bps,
            utilization_bps,
            larger_reserve_factor_bps,
        ) is Ok ==> spec_effective_supply_rate(
            borrow_rate_bps,
            utilization_bps,
            larger_reserve_factor_bps,
        )->Ok_0 <= spec_effective_supply_rate(
            borrow_rate_bps,
            utilization_bps,
            reserve_factor_bps,
        )->Ok_0,
{
    let w = borrow_rate_bps as int * utilization_bps as int / 10_000;
    if borrow_rate_bps >= 0 && utilization_bps >= 0 {
        assert(w >= 0) by (nonlinear_arith)
            requires
                borrow_rate_bps >= 0,
                utilization_bps >= 0,
                w == borrow_rate_bps as int * utilization_bps as int / 10_000,
        ;
        let f1 = 10_000 - reserve_factor_bps as int;
        let f2 = 10_000 - larger_reserve_factor_bps as int;
        assert(w * 10_000 / 10_000 == w);
        if reserve_factor_bps <= 10_000 {
            assert(w * f1 / 10_000 <= w) by (nonlinear_arith)
                requires
                    w >= 0,
                    0 <= f1 <= 10_000,
            ;
        }
        if larger_reserve_factor_bps <= 10_000 {
            assert(w * f2 / 10_000 <= w * f1 / 10_000) by (nonlinear_arith)
                requires
                    w >= 0,
                    0 <= f2 <= f1,
            ;
        }
    }
}

/// A rate cached for a ledger is served for that ledger and for no other.
pub proof fn lemma_rate_cache_read_after_write(
    ledger_sequence: u32,
    rate_bps: i128,
    other_sequence: u32,
)
    ensures
        spec_cached_rate(Some(BorrowRateCache { ledger_sequence, rate_bps }), ledger_sequence)
            == Some(rate_bps),
        other_sequence != ledger_sequence ==> spec_cached_rate(
            Some(BorrowRateCache { ledger_sequence, rate_bps }),
            other_sequence,
        ) is None,
{
}

/// The split takes the accrued interest as its total, keeps
/// `floor(total * reserve_factor_bps / 10_000)` for the reserve and gives the rest
/// to depositors; it succeeds whenever the interest accrues, the reserve factor
/// is at most 10 000 bps and `total * reserve_factor_bps` fits in `i128`.
pub proof fn lemma_split_formula(
    principal: i128,
    elapsed: u64,
    rate_bps: i128,
    reserve_factor_bps: u32,
)
    ensures
        spec_accrue_interest_split(principal, elapsed, rate_bps, reserve_factor_bps) matches Ok(
            split,
        ) ==> {
            &&& spec_accrue_interest(principal, elapsed, rate_bps) == Ok::<i128, DebtError>(
                split.total_interest,
            )
            &&& split.reserve_cut == split.total_interest * reserve_factor_bps / 10_000
            &&& split.depositor_yield == split.total_interest - split.reserve_cut
        },
        (spec_accrue_interest(principal, elapsed, rate_bps) is Ok && reserve_factor_bps <= 10_000
            && spec_accrue_interest(principal, elapsed, rate_bps)->Ok_0 * reserve_factor_bps
            <= i128::MAX) ==> spec_accrue_interest_split(
            principal,
            elapsed,
            rate_bps,
            reserve_factor_bps,
        ) is Ok,
{
}

/// The supply rate is `borrow_rate * utilization / 10_000`, times
/// `(10_000 - reserve_factor)`, divided by 10 000 (each division rounded down),
/// clamped to `[0, MAX_RATE_BPS]`; it is computed whenever the inputs are
/// non-negative, the reserve factor is at most 10 000 bps and both products fit
/// in `i128`.
pub proof fn lemma_supply_rate_formula(
    borrow_rate_bps: i128,
    utilization_bps: i128,
    reserve_factor_bps: u32,
)
    ensures
        spec_effective_supply_rate(borrow_rate_bps, utilization_bps, reserve_factor_bps) matches Ok(
            rate,
        ) ==> {
            let raw = (borrow_rate_bps * utilization_bps / 10_000) * (10_000 - reserve_factor_bps)
                / 10_000;
            &&& borrow_rate_bps >= 0
            &&& utilization_bps >= 0
            &&& reserve_factor_bps <= 10_000
            &&& rate == if raw > MAX_RATE_BPS {
                MAX_RATE_BPS as int
            } else {
                raw
            }
        },
        (borrow_rate_bps >= 0 && utilization_bps >= 0 && reserve_factor_bps <= 10_000
            && borrow_rate_bps * utilization_bps <= i128::MAX && (borrow_rate_bps
            * utilization_bps / 10_000) * (10_000 - reserve_factor_bps) <= i128::MAX)
            ==> spec_effective_supply_rate(borrow_rate_bps, utilization_bps, reserve_factor_bps)
            is Ok,
{
    if borrow_rate_bps >= 0 && utilization_bps >= 0 && reserve_factor_bps <= 10_000 {
        let w = borrow_rate_bps as int * utilization_bps as int / 10_000;
        assert(w >= 0) by (nonlinear_arith)
            requires
                borrow_rate_bps >= 0,
                utilization_bps >= 0,
                w == borrow_rate_bps as int * utilization_bps as int / 10_000,
        ;
        assert(w * (10_000 - reserve_factor_bps) / 10_000 >= 0) by (nonlinear_arith)
            requires
                w >= 0,
                reserve_factor_bps <= 10_000,
        ;
    }
}

} // verus!
