use stellar_lend::debt::{
    accrue_interest, accrue_interest_split, borrow_amount, cached_borrow_rate, effective_debt,
    effective_supply_rate, elapsed_seconds, load_debt, load_rate_snapshot, repay_amount,
    settle_accrual, settle_accrual_split, uncached_borrow_rate, utilization_bps, BorrowRateCache,
    DebtError, DebtPosition, InterestSplit, RateSnapshot, DEFAULT_APR_BPS,
    DEFAULT_RESERVE_FACTOR_BPS,
};
use stellar_lend::math::{split_interest_by_reserve_factor, MAX_RATE_BPS};
use stellar_lend::rounding_strategy::{
    calculate_interest_with_rounding, RoundingError, INTEREST_DENOMINATOR,
};

const YEAR: u64 = 31_536_000;

fn pos(principal: i128, last_update: u64) -> DebtPosition {
    DebtPosition { principal, last_update }
}

#[test]
fn elapsed_seconds_saturates() {
    assert_eq!(elapsed_seconds(150, 100), 50);
    assert_eq!(elapsed_seconds(100, 150), 0);
    assert_eq!(elapsed_seconds(7, 7), 0);
}

#[test]
fn one_year_at_five_percent() {
    assert_eq!(accrue_interest(1_000_000_000, YEAR, 500), Ok(50_000_000));
    assert_eq!(accrue_interest(99_000, YEAR, 500), Ok(4_950));
}

#[test]
fn fractional_interest_rounds_to_nearest() {
    // 2536.78... rounds up, 0.00015... rounds down.
    assert_eq!(accrue_interest(12_345_678, 86_400, 750), Ok(2_537));
    assert_eq!(accrue_interest(100_000, 1, 500), Ok(0));
}

#[test]
fn ties_round_to_even() {
    // Half a year at 100 % (5_000 bps for a year is exactly half of the principal).
    assert_eq!(accrue_interest(1, YEAR, 5_000), Ok(0)); // 0.5 -> 0
    assert_eq!(accrue_interest(3, YEAR, 5_000), Ok(2)); // 1.5 -> 2
    assert_eq!(accrue_interest(5, YEAR, 5_000), Ok(2)); // 2.5 -> 2
    assert_eq!(accrue_interest(7, YEAR, 5_000), Ok(4)); // 3.5 -> 4
}

#[test]
fn zero_principal_or_zero_time_accrues_nothing() {
    assert_eq!(accrue_interest(0, YEAR, 500), Ok(0));
    assert_eq!(accrue_interest(1_000_000, 0, 500), Ok(0));
    assert_eq!(accrue_interest(0, u64::MAX, i128::MAX), Ok(0));
}

#[test]
fn accrual_overflow_and_negative_interest_are_errors() {
    assert_eq!(accrue_interest(i128::MAX, 2, 500), Err(DebtError::Overflow));
    assert_eq!(accrue_interest(i128::MAX / 10, 315_360_000, 500), Err(DebtError::Overflow));
    assert_eq!(accrue_interest(-1_000_000_000, YEAR, 500), Err(DebtError::Overflow));
    // A negative value that rounds to zero is still zero interest.
    assert_eq!(accrue_interest(-1, 1, 500), Ok(0));
}

#[test]
fn rounding_core_reports_overflow() {
    assert_eq!(
        calculate_interest_with_rounding(i128::MAX, 1, 2).map(|r| r.interest),
        Err(RoundingError::Overflow)
    );
    assert_eq!(calculate_interest_with_rounding(7, YEAR, 5_000).map(|r| r.interest), Ok(4));
    assert_eq!(INTEREST_DENOMINATOR, 10_000 * 31_536_000);
}

#[test]
fn interest_is_monotonic_in_time() {
    let mut previous = 0;
    for t in [1u64, 3_600, YEAR, 10 * YEAR, 500 * YEAR] {
        let i = accrue_interest(1_000_000, t, 500).unwrap();
        assert!(i >= previous);
        previous = i;
    }
}

#[test]
fn interest_is_within_half_a_unit() {
    let (p, e, r) = (12_345_678i128, 86_400u64, 750i128);
    let i = accrue_interest(p, e, r).unwrap();
    let err = 2 * (i * INTEREST_DENOMINATOR - p * r * e as i128);
    assert!(-INTEREST_DENOMINATOR <= err && err <= INTEREST_DENOMINATOR);
}

#[test]
fn split_reserve_floors_and_conserves() {
    let split = accrue_interest_split(1_000_000_000, YEAR, 500, 1_000).unwrap();
    assert_eq!(
        split,
        InterestSplit { total_interest: 50_000_000, depositor_yield: 45_000_000, reserve_cut: 5_000_000 }
    );
    let split = accrue_interest_split(1_000_000_000, YEAR, 500, 3_333).unwrap();
    assert_eq!(split.reserve_cut, 16_665_000);
    assert_eq!(split.depositor_yield, 33_335_000);
    assert_eq!(split.depositor_yield + split.reserve_cut, split.total_interest);
    // 2 * 3333 / 10000 = 0.6666 -> the fractional unit goes to depositors.
    let split = accrue_interest_split(5, YEAR, 5_000, 3_333).unwrap();
    assert_eq!((split.total_interest, split.depositor_yield, split.reserve_cut), (2, 2, 0));
}

#[test]
fn split_rejects_reserve_factor_above_full() {
    assert_eq!(accrue_interest_split(1_000_000_000, YEAR, 500, 10_001), Err(DebtError::Overflow));
    assert_eq!(accrue_interest_split(i128::MAX, 2, 500, 0), Err(DebtError::Overflow));
    assert_eq!(split_interest_by_reserve_factor(100, 10_000), Ok((0, 100)));
    assert!(split_interest_by_reserve_factor(-1, 0).is_err());
    assert!(split_interest_by_reserve_factor(i128::MAX, 2).is_err());
}

#[test]
fn default_reserve_factor_gives_everything_to_depositors() {
    let split = accrue_interest_split(1_000_000_000, YEAR, 500, DEFAULT_RESERVE_FACTOR_BPS).unwrap();
    assert_eq!(split.depositor_yield, 50_000_000);
    assert_eq!(split.reserve_cut, 0);
}

#[test]
fn settle_folds_interest_into_principal() {
    let p = pos(1_000_000_000, 100);
    assert_eq!(settle_accrual(&p, 100 + YEAR, 500), Ok(pos(1_050_000_000, 100 + YEAR)));
    // A clock behind the last update accrues nothing but moves the timestamp.
    assert_eq!(settle_accrual(&p, 50, 500), Ok(pos(1_000_000_000, 50)));
    assert_eq!(settle_accrual(&pos(i128::MAX, 0), 1, 1), Err(DebtError::Overflow));
}

#[test]
fn settle_split_matches_plain_settlement() {
    let p = pos(1_000_000_000, 100);
    let (settled, split) = settle_accrual_split(&p, 100 + YEAR, 500, 2_000).unwrap();
    assert_eq!(Ok(settled.clone()), settle_accrual(&p, 100 + YEAR, 500));
    assert_eq!(settled, pos(1_050_000_000, 100 + YEAR));
    assert_eq!(split.reserve_cut, 10_000_000);
    assert_eq!(split.depositor_yield, 40_000_000);
    assert_eq!(settle_accrual_split(&p, 100 + YEAR, 500, 20_000), Err(DebtError::Overflow));
}

#[test]
fn settling_twice_at_the_same_time_changes_nothing() {
    let once = settle_accrual(&pos(12_345_678, 0), 86_400, 750).unwrap();
    assert_eq!(settle_accrual(&once, 86_400, 750), Ok(once.clone()));
}

#[test]
fn effective_debt_is_what_settlement_writes() {
    let p = pos(1_000_000_000, 100);
    assert_eq!(effective_debt(&p, 100 + YEAR, 500), Ok(1_050_000_000));
    assert_eq!(
        effective_debt(&p, 100 + YEAR, 500),
        settle_accrual(&p, 100 + YEAR, 500).map(|s| s.principal)
    );
    assert_eq!(effective_debt(&pos(i128::MAX, 0), 1, 1), Err(DebtError::Overflow));
}

#[test]
fn supply_rate_formula() {
    // 1000 * 8000 / 10000 = 800; 800 * 9000 / 10000 = 720
    assert_eq!(effective_supply_rate(1_000, 8_000, 1_000), Ok(720));
    // No reserve factor: the utilization-weighted borrow rate.
    assert_eq!(effective_supply_rate(500, 8_000, 0), Ok(400));
    assert_eq!(effective_supply_rate(333, 3_333, 0), Ok(110));
    assert_eq!(effective_supply_rate(500, 8_000, 10_000), Ok(0));
}

#[test]
fn supply_rate_rejects_bad_inputs() {
    assert_eq!(effective_supply_rate(-1, 8_000, 0), Err(DebtError::Overflow));
    assert_eq!(effective_supply_rate(500, -1, 0), Err(DebtError::Overflow));
    assert_eq!(effective_supply_rate(500, 8_000, 10_001), Err(DebtError::Overflow));
    assert_eq!(effective_supply_rate(i128::MAX, 2, 0), Err(DebtError::Overflow));
}

#[test]
fn larger_reserve_factor_never_raises_supply_rate() {
    let mut previous = i128::MAX;
    for rf in [0u32, 1, 500, 5_000, 9_999, 10_000] {
        let r = effective_supply_rate(1_234, 7_777, rf).unwrap();
        assert!(r <= previous);
        previous = r;
    }
}

#[test]
fn borrow_adds_to_settled_principal() {
    assert_eq!(borrow_amount(pos(0, 0), 1_000, 500, 500), Ok(pos(500, 1_000)));
    assert_eq!(
        borrow_amount(pos(1_000_000_000, 0), YEAR, 1_000, 500),
        Ok(pos(1_050_001_000, YEAR))
    );
    assert_eq!(borrow_amount(pos(0, 0), 1, 0, 500), Err(DebtError::InvalidAmount));
    assert_eq!(borrow_amount(pos(0, 0), 1, -5, 500), Err(DebtError::InvalidAmount));
    assert_eq!(borrow_amount(pos(i128::MAX, 0), 0, 1, 500), Err(DebtError::Overflow));
}

#[test]
fn repay_reduces_and_never_goes_negative() {
    assert_eq!(repay_amount(pos(1_000, 0), 0, 400, 500), Ok(pos(600, 0)));
    assert_eq!(repay_amount(pos(1_000, 0), 0, 2_000, 500), Ok(pos(0, 0)));
    assert_eq!(repay_amount(pos(1_000, 0), 0, 1_000, 500), Ok(pos(0, 0)));
    assert_eq!(
        repay_amount(pos(1_000_000_000, 0), YEAR, 50_000_000, 500),
        Ok(pos(1_000_000_000, YEAR))
    );
    assert_eq!(repay_amount(pos(1_000, 0), 0, 0, 500), Err(DebtError::InvalidAmount));
    assert_eq!(repay_amount(pos(1_000, 0), 0, -1, 500), Err(DebtError::InvalidAmount));
}

#[test]
fn borrow_then_repay_at_same_time_restores_position() {
    let p = pos(12_345_678, 0);
    let borrowed = borrow_amount(p.clone(), 86_400, 777, 750).unwrap();
    assert_eq!(repay_amount(borrowed, 86_400, 777, 750), settle_accrual(&p, 86_400, 750));
}

#[test]
fn load_debt_defaults_to_empty_position() {
    assert_eq!(load_debt(None, 42), pos(0, 42));
    assert_eq!(load_debt(Some(pos(9, 1)), 42), pos(9, 1));
}

#[test]
fn utilization_formula() {
    assert_eq!(utilization_bps(5_000, 10_000), 5_000);
    assert_eq!(utilization_bps(1, 3), 3_333);
    assert_eq!(utilization_bps(1, 0), 0);
    assert_eq!(utilization_bps(-5_001, 10_000), -5_001);
    // The product saturates instead of overflowing.
    assert_eq!(utilization_bps(i128::MAX, 1), i128::MAX);
    assert_eq!(utilization_bps(i128::MIN, 2), i128::MIN / 2);
}

#[test]
fn borrow_rate_defaults_without_model() {
    let snapshot: RateSnapshot<i128> = load_rate_snapshot(Some(5_000), None, None);
    assert_eq!(snapshot, RateSnapshot { total_debt: 5_000, total_supply: 0, params: None });
    assert_eq!(uncached_borrow_rate(&snapshot, &|u: i128, base: &i128| base + u), DEFAULT_APR_BPS);
}

#[test]
fn borrow_rate_applies_model_to_utilization() {
    let snapshot = load_rate_snapshot(Some(2_500), Some(10_000), Some(200i128));
    let rate = uncached_borrow_rate(&snapshot, &|u: i128, base: &i128| base + u / 10);
    assert_eq!(rate, 450);
}

#[test]
fn rate_cache_hit_and_miss() {
    let (rate, write) = cached_borrow_rate(7, None, || 321);
    assert_eq!(rate, 321);
    let written = write.unwrap();
    assert_eq!(written, BorrowRateCache { ledger_sequence: 7, rate_bps: 321 });
    // Same ledger: served from the cache without recomputing.
    let (again, write) = cached_borrow_rate(7, Some(written.clone()), || panic!("recomputed"));
    assert_eq!((again, write), (321, None));
    // Next ledger: recomputed.
    let (next, write) = cached_borrow_rate(8, Some(written), || 999);
    assert_eq!(next, 999);
    assert_eq!(write, Some(BorrowRateCache { ledger_sequence: 8, rate_bps: 999 }));
}

#[test]
fn rounding_and_math_failures_become_overflow() {
    assert_eq!(DebtError::from(RoundingError::Overflow), DebtError::Overflow);
    assert_eq!(DebtError::from("reserve factor above 100%"), DebtError::Overflow);
}

#[test]
fn supply_rate_is_clamped_to_max_rate() {
    // 20_000 * 10_000 / 10_000 = 20_000 bps, above the cap.
    assert_eq!(effective_supply_rate(20_000, 10_000, 0), Ok(MAX_RATE_BPS));
    assert_eq!(effective_supply_rate(MAX_RATE_BPS + 1, 10_000, 0), Ok(MAX_RATE_BPS));
    assert_eq!(effective_supply_rate(MAX_RATE_BPS, 10_000, 0), Ok(MAX_RATE_BPS));
    // 30_000 * 10_000 / 10_000 * 5_000 / 10_000 = 15_000, clamped.
    assert_eq!(effective_supply_rate(30_000, 10_000, 5_000), Ok(MAX_RATE_BPS));
    assert_eq!(effective_supply_rate(15_000, 10_000, 5_000), Ok(7_500));
}
