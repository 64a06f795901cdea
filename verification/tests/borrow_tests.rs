use stellar_lend::borrow::{calculate_interest, get_user_debt, BorrowError, DebtPosition};

fn position(borrowed_amount: i128, interest_accrued: i128, last_update: u64) -> DebtPosition {
    DebtPosition { borrowed_amount, interest_accrued, last_update, asset: "CASSET".to_string() }
}

#[test]
fn fixed_rate_interest() {
    assert_eq!(calculate_interest(31_536_000, &position(1_000_000_000, 0, 0)), Ok(50_000_000));
    assert_eq!(calculate_interest(10_001, &position(100_000, 0, 10_000)), Ok(0));
    assert_eq!(calculate_interest(5, &position(100_000, 0, 10)), Ok(0));
    assert_eq!(calculate_interest(u64::MAX, &position(0, 0, 0)), Ok(0));
}

#[test]
fn fixed_rate_interest_overflow() {
    assert_eq!(calculate_interest(u64::MAX, &position(i128::MAX, 0, 0)), Err(BorrowError::Overflow));
}

#[test]
fn user_debt_view_adds_interest() {
    let debt = get_user_debt(Some(position(1_000_000_000, 7, 0)), 31_536_000, "unused".to_string());
    assert_eq!(debt, position(1_000_000_000, 50_000_007, 0));
}

#[test]
fn user_debt_view_defaults_to_empty_position() {
    let debt = get_user_debt(None, 99, "CNEW".to_string());
    assert_eq!(
        debt,
        DebtPosition { borrowed_amount: 0, interest_accrued: 0, last_update: 99, asset: "CNEW".to_string() }
    );
}

#[test]
fn user_debt_interest_addition_saturates() {
    let debt = get_user_debt(Some(position(1_000_000_000, i128::MAX - 10, 0)), 31_536_000, String::new());
    assert_eq!(debt.interest_accrued, i128::MAX);
    let debt = get_user_debt(Some(position(i128::MAX, i128::MAX - 10, 0)), u64::MAX, String::new());
    assert_eq!(debt.interest_accrued, i128::MAX);
    assert_eq!(debt.borrowed_amount, i128::MAX);
}

#[test]
fn interest_grows_over_long_horizons_within_five_percent_a_year() {
    let p = position(1_000_000, 0, 0);
    let mut previous = 0i128;
    for years in [1u64, 10, 100, 500] {
        let interest = calculate_interest(years * 31_536_000, &p).unwrap();
        assert!(interest >= previous);
        let upper_bound = p.borrowed_amount * 5 * years as i128 / 100;
        assert!(interest <= upper_bound);
        previous = interest;
    }
}

#[test]
fn interest_is_deterministic_and_monotone_over_time_table() {
    for principal in [1_i128, 1_000_000_i128] {
        let mut previous = 0_i128;
        for ts in [1_u64, 3_600, 31_536_000, 315_360_000] {
            let p = position(principal, 0, 0);
            let first = calculate_interest(ts, &p);
            let second = calculate_interest(ts, &p);
            assert_eq!(first, second);
            let first = first.unwrap();
            assert!(first >= 0);
            assert!(first >= previous);
            previous = first;
        }
    }
    // A principal of i128::MAX / 10 overflows the checked computation, every time.
    for ts in [1_u64, 3_600, 31_536_000, 315_360_000] {
        let p = position(i128::MAX / 10, 0, 0);
        assert_eq!(calculate_interest(ts, &p), Err(BorrowError::Overflow));
        assert_eq!(calculate_interest(ts, &p), calculate_interest(ts, &p));
    }
}
