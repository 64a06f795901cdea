use stellar_lend::bad_debt_accounting::{
    BadDebtWrites, assert_market_invariants, attempt_bad_debt_recovery, freeze_market_for_shutdown,
    query_bad_debt, query_protocol_report, record_bad_debt, BadDebtEvent, LendingError,
    MarketState,
};

fn market(total_deposits: i128, total_borrows: i128, reserves: i128, bad_debt: i128) -> MarketState {
    MarketState { total_deposits, total_borrows, reserves, bad_debt, is_frozen: false }
}

fn s(x: &str) -> String {
    x.to_string()
}

#[test]
fn shortfall_within_reserves_is_fully_covered() {
    let out = record_bad_debt(s("GUSER"), s("CASSET"), Ok(market(10_000, 5_000, 1_000, 0)), 400, 300, 100)
        .unwrap();
    assert_eq!(
        out.event,
        BadDebtEvent {
            user: s("GUSER"),
            asset: s("CASSET"),
            residual_debt: 300,
            collateral_seized: 100,
            reserve_cover: 300,
            written_off: 0,
        }
    );
    let w = out.writes.unwrap();
    assert_eq!(w.market, market(10_000, 4_600, 700, 0));
    assert_eq!(w.user_borrow, 0);
    assert_eq!(w.write_off, 300);
}

#[test]
fn shortfall_beyond_reserves_is_written_off() {
    let out = record_bad_debt(s("u"), s("a"), Ok(market(10_000, 5_000, 1_000, 20)), 1_500, 1_500, 0)
        .unwrap();
    assert_eq!(out.event.reserve_cover, 1_000);
    assert_eq!(out.event.written_off, 500);
    assert_eq!(out.event.reserve_cover + out.event.written_off, out.event.residual_debt);
    let w = out.writes.unwrap();
    assert_eq!(w.market, market(10_000, 3_500, 0, 520));
    assert_eq!((w.user_borrow, w.write_off), (0, 1_500));
}

#[test]
fn total_borrows_never_go_negative() {
    let out = record_bad_debt(s("u"), s("a"), Ok(market(10_000, 100, 50, 0)), 500, 10, 0).unwrap();
    assert_eq!(out.writes.unwrap().market.total_borrows, 0);
}

#[test]
fn zero_shortfall_changes_nothing() {
    let out = record_bad_debt(s("u"), s("a"), Err(LendingError::InvalidAmount), 10, 0, 77).unwrap();
    assert_eq!(out.writes, None);
    assert_eq!(out.event.collateral_seized, 77);
    assert_eq!((out.event.residual_debt, out.event.reserve_cover, out.event.written_off), (0, 0, 0));
}

#[test]
fn record_rejects_negative_shortfall_and_failed_lookup() {
    assert_eq!(
        record_bad_debt(s("u"), s("a"), Ok(market(1, 0, 0, 0)), 0, -1, 0),
        Err(LendingError::BadDebtNegative)
    );
    assert_eq!(
        record_bad_debt(s("u"), s("a"), Err(LendingError::ReservesNegative), 0, 5, 0),
        Err(LendingError::ReservesNegative)
    );
}

#[test]
fn record_rejects_overflowing_bad_debt_and_broken_markets() {
    assert_eq!(
        record_bad_debt(s("u"), s("a"), Ok(market(1, 0, 0, i128::MAX)), 0, 1, 0),
        Err(LendingError::InvalidAmount)
    );
    assert_eq!(
        record_bad_debt(s("u"), s("a"), Ok(market(-1, 0, 0, 0)), 0, 1, 0),
        Err(LendingError::InvalidAmount)
    );
}

#[test]
fn recovery_pays_down_bad_debt_first() {
    let (next, recovered) = attempt_bad_debt_recovery(Ok(market(10_000, 0, 100, 500)), 200).unwrap();
    assert_eq!(recovered, 200);
    assert_eq!(next, market(10_000, 0, 100, 300));
    let (next, recovered) = attempt_bad_debt_recovery(Ok(market(10_000, 0, 100, 500)), 800).unwrap();
    assert_eq!(recovered, 500);
    assert_eq!(next, market(10_000, 0, 400, 0));
}

#[test]
fn recovery_raises_solvency_margin_by_inflow() {
    let before = market(1_000, 900, 10, 400);
    let (after, _) = attempt_bad_debt_recovery(Ok(before), 250).unwrap();
    let margin = |m: &MarketState| m.total_deposits - m.total_borrows + m.reserves - m.bad_debt;
    assert_eq!(margin(&after), margin(&before) + 250);
}

#[test]
fn recovery_errors() {
    assert_eq!(
        attempt_bad_debt_recovery(Ok(market(0, 0, 0, 0)), -1),
        Err(LendingError::InvalidAmount)
    );
    assert_eq!(
        attempt_bad_debt_recovery(Ok(market(0, 0, i128::MAX, 0)), 1),
        Err(LendingError::InvalidAmount)
    );
    assert_eq!(
        attempt_bad_debt_recovery(Err(LendingError::BadDebtNegative), 1),
        Err(LendingError::BadDebtNegative)
    );
}

#[test]
fn invariant_check_order() {
    assert_eq!(assert_market_invariants(&market(0, 0, 0, 0)), Ok(()));
    assert_eq!(assert_market_invariants(&market(-1, -1, -1, -1)), Err(LendingError::BadDebtNegative));
    assert_eq!(assert_market_invariants(&market(-1, -1, -1, 0)), Err(LendingError::ReservesNegative));
    assert_eq!(assert_market_invariants(&market(-1, 0, 0, 0)), Err(LendingError::InvalidAmount));
    assert_eq!(assert_market_invariants(&market(0, -1, 0, 0)), Err(LendingError::InvalidAmount));
    // Insolvency is tolerated.
    assert_eq!(assert_market_invariants(&market(0, 0, 0, 1_000)), Ok(()));
}

#[test]
fn freeze_and_query() {
    let m = freeze_market_for_shutdown(Ok(market(1, 2, 3, 4))).unwrap();
    assert!(m.is_frozen);
    assert_eq!(m.bad_debt, 4);
    assert_eq!(query_bad_debt(Ok(m)), Ok(4));
    assert_eq!(query_bad_debt(Err(LendingError::InvalidAmount)), Err(LendingError::InvalidAmount));
}

#[test]
fn protocol_report_utilisation_and_solvency() {
    let r = query_protocol_report(s("CASSET"), Ok(market(10_000, 2_500, 100, 50))).unwrap();
    assert_eq!(r.utilisation_bps, 2_500);
    assert!(r.is_solvent);
    assert_eq!(r.asset, s("CASSET"));
    let r = query_protocol_report(s("a"), Ok(market(0, 2_500, 0, 0))).unwrap();
    assert_eq!(r.utilisation_bps, 0);
    assert!(!r.is_solvent);
    let r = query_protocol_report(s("a"), Ok(market(3, 1, 0, 0))).unwrap();
    assert_eq!(r.utilisation_bps, 3_333);
    assert_eq!(
        query_protocol_report(s("a"), Ok(market(1, i128::MAX, 0, 0))),
        Err(LendingError::InvalidAmount)
    );
}

#[test]
fn solvency_check_is_exact_at_the_extremes() {
    assert!(market(i128::MAX, i128::MAX, i128::MAX, i128::MAX).check_solvency_invariant());
    assert!(!market(i128::MAX, i128::MAX, i128::MAX - 1, i128::MAX).check_solvency_invariant());
    assert!(market(i128::MAX, i128::MIN, i128::MAX, i128::MIN).check_solvency_invariant());
    assert!(!market(i128::MIN, i128::MAX, i128::MIN, i128::MAX).check_solvency_invariant());
    assert!(market(i128::MIN, i128::MIN, 0, 0).check_solvency_invariant());
    assert!(!market(i128::MIN, i128::MIN + 1, 0, 0).check_solvency_invariant());
    assert!(market(5, 3, 0, 2).check_solvency_invariant());
    assert!(!market(5, 3, 0, 3).check_solvency_invariant());
}

#[test]
fn write_off_clears_borrower_and_records_shortfall() {
    // Market with thin reserves: the borrower's 100 leaves total borrows, reserves
    // cover 30 of the 50 shortfall and 20 becomes bad debt.
    let out = record_bad_debt(s("GUSER"), s("CASSET"), Ok(market(1_000, 500, 30, 0)), 100, 50, 70).unwrap();
    assert_eq!(
        out.event,
        BadDebtEvent {
            user: s("GUSER"),
            asset: s("CASSET"),
            residual_debt: 50,
            collateral_seized: 70,
            reserve_cover: 30,
            written_off: 20,
        }
    );
    assert_eq!(
        out.writes,
        Some(BadDebtWrites { market: market(1_000, 400, 0, 20), user_borrow: 0, write_off: 50 })
    );
}

#[test]
fn missing_market_is_reported() {
    assert_eq!(
        record_bad_debt(s("u"), s("a"), Err(LendingError::MarketNotFound), 10, 5, 0),
        Err(LendingError::MarketNotFound)
    );
}
