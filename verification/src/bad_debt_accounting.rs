//! Bad-debt accounting for an asset market.
//!
//! * **Shortfall**: the amount by which a borrower's debt exceeds the value of
//!   the collateral that could be seized.
//! * **Reserve cover**: reserves absorb a shortfall first, before any loss is
//!   socialised, which isolates depositors from small shocks.
//! * **Bad debt**: the cumulative written-off shortfall of a market.
//!
//! Every accepted transition leaves a market with non-negative bad debt,
//! reserves, borrows and deposits; a written-off borrower keeps no debt on the
//! books. Nominal solvency (`deposits - borrows + reserves - bad_debt >= 0`) is
//! reported but not enforced: a deficit is real economic loss, not a bug.
//!
//! Each operation takes the outcome of looking the market up (the market, or the
//! error of the lookup) and returns the state to store.
use vstd::prelude::*;

use crate::rounding_strategy::fits_i128;
use crate::saturating::clamp_i128;

verus! {

#[derive(Clone, Copy, Debug, PartialEq, Eq)]
pub enum LendingError {
    InvalidAmount,
    BadDebtNegative,
    ReservesNegative,
    /// No market is stored for the asset.
    MarketNotFound,
}

/// The accounting totals of one asset market.
#[derive(Clone, Copy, Debug, PartialEq, Eq)]
pub struct MarketState {
    pub total_deposits: i128,
    pub total_borrows: i128,
    pub reserves: i128,
    pub bad_debt: i128,
    pub is_frozen: bool,
}

/// The accounting entries of one bad-debt write-off.
#[derive(Clone, Debug, PartialEq, Eq)]
pub struct BadDebtEvent {
    pub user: String,
    pub asset: String,
    pub residual_debt: i128,
    pub collateral_seized: i128,
    pub reserve_cover: i128,
    pub written_off: i128,
}

/// A snapshot of a market's accounting, for monitoring.
#[derive(Clone, Debug, PartialEq, Eq)]
pub struct ProtocolReport {
    pub asset: String,
    pub total_deposits: i128,
    pub total_borrows: i128,
    pub reserves: i128,
    pub bad_debt: i128,
    pub utilisation_bps: i128,
    pub is_solvent: bool,
}

/// The state a recorded shortfall writes: the market, the borrower's balance in
/// it and the borrower's write-off record for it.
#[derive(Clone, Copy, Debug, PartialEq, Eq)]
pub struct BadDebtWrites {
    /// The market after reserve cover and write-off.
    pub market: MarketState,
    /// The borrower's new balance in the market (always zero: no phantom debt).
    pub user_borrow: i128,
    /// The write-off record kept for the borrower: the whole shortfall.
    pub write_off: i128,
}

/// What recording a shortfall does: the event, and, when there was a
/// shortfall, the writes to store.
#[derive(Clone, Debug, PartialEq, Eq)]
pub struct BadDebtOutcome {
    pub event: BadDebtEvent,
    pub writes: Option<BadDebtWrites>,
}

/// `deposits - borrows + reserves - bad_debt`: what the market owes nobody.
pub open spec fn solvency_margin(m: MarketState) -> int {
    m.total_deposits - m.total_borrows + m.reserves - m.bad_debt
}

/// The invariants every stored market satisfies.
pub open spec fn market_well_formed(m: MarketState) -> bool {
    &&& m.bad_debt >= 0
    &&& m.reserves >= 0
    &&& m.total_borrows >= 0
    &&& m.total_deposits >= 0
}

/// The outcome of checking a market's invariants, in the order they are checked.
pub open spec fn spec_market_invariants(m: MarketState) -> Result<(), LendingError> {
    if m.bad_debt < 0 {
        Err(LendingError::BadDebtNegative)
    } else if m.reserves < 0 {
        Err(LendingError::ReservesNegative)
    } else if m.total_borrows < 0 || m.total_deposits < 0 {
        Err(LendingError::InvalidAmount)
    } else {
        Ok(())
    }
}

/// Smaller of two integers.
pub open spec fn min_int(a: int, b: int) -> int {
    if a <= b {
        a
    } else {
        b
    }
}

/// Whether recording `residual_debt` against `market` stays free of arithmetic
/// overflow in the write-off amount.
pub open spec fn record_computable(market: MarketState, residual_debt: i128) -> bool {
    fits_i128(residual_debt - min_int(residual_debt as int, market.reserves as int))
}

/// Recording a positive shortfall: total borrows lose the borrower's balance
/// (saturating, never below zero), reserves cover what they can, and the rest
/// becomes bad debt.
pub open spec fn spec_record_bad_debt(
    user: String,
    asset: String,
    market: Result<MarketState, LendingError>,
    user_borrow: i128,
    residual_debt: i128,
    collateral_seized: i128,
) -> Result<BadDebtOutcome, LendingError> {
    if residual_debt < 0 {
        Err(LendingError::BadDebtNegative)
    } else if residual_debt == 0 {
        Ok(
            BadDebtOutcome {
                event: BadDebtEvent {
                    user,
                    asset,
                    residual_debt: 0,
                    collateral_seized,
                    reserve_cover: 0,
                    written_off: 0,
                },
                writes: None,
            },
        )
    } else {
        match market {
            Err(e) => Err(e),
            Ok(m) => {
                let borrows = clamp_i128(m.total_borrows - user_borrow);
                let cover = min_int(residual_debt as int, m.reserves as int);
                let written_off = residual_debt - cover;
                if !fits_i128(m.bad_debt + written_off) {
                    Err(LendingError::InvalidAmount)
                } else {
                    let next = MarketState {
                        total_borrows: if borrows >= 0 {
                            borrows
                        } else {
                            0
                        },
                        reserves: (m.reserves - cover) as i128,
                        bad_debt: (m.bad_debt + written_off) as i128,
                        ..m
                    };
                    match spec_market_invariants(next) {
                        Err(e) => Err(e),
                        Ok(_) => Ok(
                            BadDebtOutcome {
                                event: BadDebtEvent {
                                    user,
                                    asset,
                                    residual_debt,
                                    collateral_seized,
                                    reserve_cover: cover as i128,
                                    written_off: written_off as i128,
                                },
                                writes: Some(
                                    BadDebtWrites {
                                        market: next,
                                        user_borrow: 0,
                                        write_off: residual_debt,
                                    },
                                ),
                            },
                        ),
                    }
                }
            },
        }
    }
}

/// Whether recovering from `new_reserve_amount` stays free of arithmetic
/// overflow in the part that goes to reserves.
pub open spec fn recovery_computable(market: MarketState, new_reserve_amount: i128) -> bool {
    fits_i128(new_reserve_amount - min_int(new_reserve_amount as int, market.bad_debt as int))
}

/// New reserves first pay down bad debt; what is left is added to reserves.
pub open spec fn spec_bad_debt_recovery(
    market: Result<MarketState, LendingError>,
    new_reserve_amount: i128,
) -> Result<(MarketState, i128), LendingError> {
    if new_reserve_amount < 0 {
        Err(LendingError::InvalidAmount)
    } else {
        match market {
            Err(e) => Err(e),
            Ok(m) => {
                let recovery = min_int(new_reserve_amount as int, m.bad_debt as int);
                if !fits_i128(m.reserves + (new_reserve_amount - recovery)) {
                    Err(LendingError::InvalidAmount)
                } else {
                    let next = MarketState {
                        bad_debt: (m.bad_debt - recovery) as i128,
                        reserves: (m.reserves + (new_reserve_amount - recovery)) as i128,
                        ..m
                    };
                    match spec_market_invariants(next) {
                        Err(e) => Err(e),
                        Ok(_) => Ok((next, recovery as i128)),
                    }
                }
            },
        }
    }
}

/// `x / d` truncated toward zero, as integer division does in Rust.
pub open spec fn trunc_div(x: int, d: int) -> int {
    if x >= 0 {
        x / d
    } else {
        -((-x) / d)
    }
}

/// The market report: its totals, utilisation `borrows * 10_000 / deposits`
/// (truncated, zero without deposits; an overflowing product is an error) and
/// whether it is nominally solvent.
pub open spec fn spec_protocol_report(asset: String, market: Result<MarketState, LendingError>) -> Result<
    ProtocolReport,
    LendingError,
> {
    match market {
        Err(e) => Err(e),
        Ok(m) => if m.total_deposits != 0 && !fits_i128(m.total_borrows * 10_000) {
            Err(LendingError::InvalidAmount)
        } else {
            Ok(
                ProtocolReport {
                    asset,
                    total_deposits: m.total_deposits,
                    total_borrows: m.total_borrows,
                    reserves: m.reserves,
                    bad_debt: m.bad_debt,
                    utilisation_bps: if m.total_deposits == 0 {
                        0
                    } else {
                        trunc_div(m.total_borrows * 10_000, m.total_deposits as int) as i128
                    },
                    is_solvent: solvency_margin(m) >= 0,
                },
            )
        },
    }
}

/// `x + 2^127` as a `u128`: an order-preserving map of `i128` onto `u128`.
fn offset_u128(x: i128) -> (r: u128)
    ensures
        r as int == x as int + 0x8000_0000_0000_0000_0000_0000_0000_0000,
{
    if x >= 0 {
        (x as u128) + 0x8000_0000_0000_0000_0000_0000_0000_0000u128
    } else {
        (x + i128::MAX + 1) as u128
    }
}

/// The sum `a + b` of two `u128`s as a carry bit and the low 128 bits.
fn wide_sum(a: u128, b: u128) -> (r: (bool, u128))
    ensures
        a as int + b as int == (if r.0 {
            0x1_0000_0000_0000_0000_0000_0000_0000_0000int
        } else {
            0int
        }) + r.1 as int,
{
    match a.checked_add(b) {
        Some(s) => (false, s),
        None => (true, a - (u128::MAX - b) - 1),
    }
}

impl MarketState {
    /// [I-1] bad debt is never negative.
    pub fn check_bad_debt_non_negative(&self) -> (ok: bool)
        ensures
            ok == (self.bad_debt >= 0),
    {
        self.bad_debt >= 0
    }

    /// [I-2] reserves are never negative.
    pub fn check_reserves_non_negative(&self) -> (ok: bool)
        ensures
            ok == (self.reserves >= 0),
    {
        self.reserves >= 0
    }

    /// [I-5] nominal solvency: `deposits - borrows + reserves - bad_debt >= 0`,
    /// decided exactly for all values of the four totals.
    pub fn check_solvency_invariant(&self) -> (ok: bool)
        ensures
            ok == (self.total_deposits - self.total_borrows + self.reserves - self.bad_debt >= 0),
    {
        // deposits + reserves >= borrows + bad_debt, compared on offset values
        // whose sums are held as (carry, low bits).
        let (carry_assets, low_assets) = wide_sum(
            offset_u128(self.total_deposits),
            offset_u128(self.reserves),
        );
        let (carry_claims, low_claims) = wide_sum(
            offset_u128(self.total_borrows),
            offset_u128(self.bad_debt),
        );
        if carry_assets != carry_claims {
            carry_assets
        } else {
            low_assets >= low_claims
        }
    }
}

// ── Public API ──────────────────────────────────────────────────────────────

/// Checks the per-market accounting invariants [I-1]..[I-4].
///
/// A market that is not nominally solvent [I-5] is accepted: bad debt beyond
/// reserves is real economic loss, and the protocol keeps operating in a
/// degraded state until governance tops up reserves.
pub fn assert_market_invariants(market: &MarketState) -> (result: Result<(), LendingError>)
    ensures
        result == spec_market_invariants(*market),
        result is Ok <==> market_well_formed(*market),
{
    if !market.check_bad_debt_non_negative() {
        return Err(LendingError::BadDebtNegative);
    }
    if !market.check_reserves_non_negative() {
        return Err(LendingError::ReservesNegative);
    }
    if market.total_borrows < 0 {
        return Err(LendingError::InvalidAmount);
    }
    if market.total_deposits < 0 {
        return Err(LendingError::InvalidAmount);
    }
    Ok(())
}

/// Records a shortfall of `residual_debt` left after a liquidation of `user` in
/// the `asset` market could not cover the borrower's debt.
///
/// `market` is the outcome of looking the market up and `user_borrow` the
/// borrower's balance still on the books. Reserves absorb the shortfall first
/// and the remainder is written off as bad debt; the writes to store are the
/// market, the borrower's balance cleared to zero and the shortfall as the
/// borrower's write-off record. A zero shortfall writes nothing.
pub fn record_bad_debt(
    user: String,
    asset: String,
    market: Result<MarketState, LendingError>,
    user_borrow: i128,
    residual_debt: i128,
    collateral_seized: i128,
) -> (result: Result<BadDebtOutcome, LendingError>)
    requires
        residual_debt > 0 ==> (market matches Ok(m) ==> record_computable(m, residual_debt)),
    ensures
        result == spec_record_bad_debt(
            user,
            asset,
            market,
            user_borrow,
            residual_debt,
            collateral_seized,
        ),
        result matches Ok(outcome) ==> {
            &&& outcome.event.reserve_cover + outcome.event.written_off
                == outcome.event.residual_debt
            &&& residual_debt > 0 <==> outcome.writes is Some
            &&& outcome.writes matches Some(w) ==> {
                &&& market_well_formed(w.market)
                &&& w.user_borrow == 0
                &&& w.write_off == residual_debt
            }
        },
{
    if residual_debt < 0 {
        return Err(LendingError::BadDebtNegative);
    }
    if residual_debt == 0 {
        return Ok(
            BadDebtOutcome {
                event: BadDebtEvent {
                    user,
                    asset,
                    residual_debt: 0,
                    collateral_seized,
                    reserve_cover: 0,
                    written_off: 0,
                },
                writes: None,
            },
        );
    }
    let mut market = market?;

    // Clear the borrower's balance from the market's total borrows.
    market.total_borrows = market.total_borrows.saturating_sub(user_borrow).max(0);

    // Reserve cover: absorb as much of the shortfall as possible.
    let reserve_cover = residual_debt.min(market.reserves);
    market.reserves = match market.reserves.checked_sub(reserve_cover) {
        Some(r) => r,
        None => return Err(LendingError::ReservesNegative),
    };

    // Any remainder becomes socialised bad debt.
    let written_off = residual_debt - reserve_cover;
    market.bad_debt = match market.bad_debt.checked_add(written_off) {
        Some(b) => b,
        None => return Err(LendingError::InvalidAmount),
    };

    assert_market_invariants(&market)?;

    Ok(
        BadDebtOutcome {
            event: BadDebtEvent {
                user,
                asset,
                residual_debt,
                collateral_seized,
                reserve_cover,
                written_off,
            },
            writes: Some(BadDebtWrites { market, user_borrow: 0, write_off: residual_debt }),
        },
    )
}

/// Pays down written-off bad debt from a reserve inflow (interest, governance
/// top-ups) so that reported bad debt converges toward zero; what the bad debt
/// does not absorb is added to reserves. Returns the market to store and the
/// amount of bad debt recovered.
pub fn attempt_bad_debt_recovery(
    market: Result<MarketState, LendingError>,
    new_reserve_amount: i128,
) -> (result: Result<(MarketState, i128), LendingError>)
    requires
        new_reserve_amount >= 0 ==> (market matches Ok(m) ==> recovery_computable(
            m,
            new_reserve_amount,
        )),
    ensures
        result == spec_bad_debt_recovery(market, new_reserve_amount),
        result matches Ok((next, _)) ==> market_well_formed(next),
{
    if new_reserve_amount < 0 {
        return Err(LendingError::InvalidAmount);
    }
    let mut market = market?;

    let recovery = new_reserve_amount.min(market.bad_debt);
    market.bad_debt = match market.bad_debt.checked_sub(recovery) {
        Some(b) => b,
        None => return Err(LendingError::BadDebtNegative),
    };
    market.reserves = match market.reserves.checked_add(new_reserve_amount - recovery) {
        Some(r) => r,
        None => return Err(LendingError::InvalidAmount),
    };

    assert_market_invariants(&market)?;
    Ok((market, recovery))
}

/// Freezes a market during emergency shutdown: no new borrows or deposits,
/// while liquidations and repayments continue.
pub fn freeze_market_for_shutdown(market: Result<MarketState, LendingError>) -> (result: Result<
    MarketState,
    LendingError,
>)
    ensures
        result == match market {
            Ok(m) => Ok(MarketState { is_frozen: true, ..m }),
            Err(e) => Err(e),
        },
{
    let mut market = market?;
    market.is_frozen = true;
    Ok(market)
}

/// The unrecovered bad debt of a market.
pub fn query_bad_debt(market: Result<MarketState, LendingError>) -> (result: Result<
    i128,
    LendingError,
>)
    ensures
        result == match market {
            Ok(m) => Ok(m.bad_debt),
            Err(e) => Err::<i128, LendingError>(e),
        },
{
    let market = market?;
    Ok(market.bad_debt)
}

/// A full report of the `asset` market, consistent with its stored state.
pub fn query_protocol_report(asset: String, market: Result<MarketState, LendingError>) -> (result:
    Result<ProtocolReport, LendingError>)
    ensures
        result == spec_protocol_report(asset, market),
{
    let market = market?;
    let utilisation_bps = if market.total_deposits == 0 {
        0
    } else {
        let scaled = match market.total_borrows.checked_mul(10_000) {
            Some(s) => s,
            None => return Err(LendingError::InvalidAmount),
        };
        proof {
            assert(scaled != i128::MIN) by {
                assert(scaled as int == market.total_borrows as int * 10_000);
            }
        }
        scaled / market.total_deposits
    };
    Ok(
        ProtocolReport {
            asset,
            total_deposits: market.total_deposits,
            total_borrows: market.total_borrows,
            reserves: market.reserves,
            bad_debt: market.bad_debt,
            utilisation_bps,
            is_solvent: market.check_solvency_invariant(),
        },
    )
}

// ── Laws ────────────────────────────────────────────────────────────────────

/// Recording a shortfall against a well-formed market: reserves cover
/// `min(shortfall, reserves)`, the rest is written off, the cover and the
/// write-off add up to the shortfall, bad debt is only recorded once reserves
/// are exhausted, the borrower's balance leaves total borrows (never below
/// zero) and is cleared, and the whole shortfall is kept as the borrower's
/// write-off record.
pub proof fn lemma_reserves_absorb_first(
    user: String,
    asset: String,
    market: MarketState,
    user_borrow: i128,
    residual_debt: i128,
    collateral_seized: i128,
)
    requires
        market_well_formed(market),
        residual_debt > 0,
    ensures
        spec_record_bad_debt(
            user,
            asset,
            Ok(market),
            user_borrow,
            residual_debt,
            collateral_seized,
        ) matches Ok(outcome) ==> {
            &&& outcome.event.reserve_cover == min_int(
                residual_debt as int,
                market.reserves as int,
            )
            &&& outcome.event.reserve_cover + outcome.event.written_off == residual_debt
            &&& outcome.writes matches Some(w) && {
                &&& w.market.reserves == market.reserves - outcome.event.reserve_cover
                &&& w.market.bad_debt == market.bad_debt + outcome.event.written_off
                &&& outcome.event.written_off > 0 ==> w.market.reserves == 0
                &&& w.market.total_deposits == market.total_deposits
                &&& w.market.total_borrows == if market.total_borrows - user_borrow
                    > i128::MAX {
                    i128::MAX as int
                } else if market.total_borrows - user_borrow < 0 {
                    0
                } else {
                    market.total_borrows - user_borrow
                }
                &&& w.user_borrow == 0
                &&& w.write_off == residual_debt
            }
        },
{
}

/// A reserve inflow is fully accounted for: what leaves bad debt (the returned
/// recovery) plus what enters reserves equals the inflow, so the solvency
/// margin grows by exactly the inflow; bad debt of a well-formed market falls
/// to `max(bad_debt - inflow, 0)`.
pub proof fn lemma_recovery_conserves_inflow(market: MarketState, new_reserve_amount: i128)
    requires
        market_well_formed(market),
    ensures
        spec_bad_debt_recovery(Ok(market), new_reserve_amount) matches Ok((next, recovery)) ==> {
            &&& market.bad_debt - next.bad_debt == recovery
            &&& (next.reserves - market.reserves) + recovery == new_reserve_amount
            &&& solvency_margin(next) == solvency_margin(market) + new_reserve_amount
            &&& next.bad_debt == if market.bad_debt >= new_reserve_amount {
                market.bad_debt - new_reserve_amount
            } else {
                0
            }
        },
{
}

/// Every accepted bad-debt transition yields a well-formed market.
pub proof fn lemma_transitions_keep_invariants(
    user: String,
    asset: String,
    market: Result<MarketState, LendingError>,
    user_borrow: i128,
    residual_debt: i128,
    collateral_seized: i128,
    new_reserve_amount: i128,
)
    ensures
        spec_record_bad_debt(
            user,
            asset,
            market,
            user_borrow,
            residual_debt,
            collateral_seized,
        ) matches Ok(outcome) ==> (outcome.writes matches Some(w) ==> market_well_formed(
            w.market,
        )),
        spec_bad_debt_recovery(market, new_reserve_amount) matches Ok((next, _))
            ==> market_well_formed(next),
{
}

/// Recording a positive shortfall against a well-formed market always succeeds
/// unless the new bad debt overflows, whatever solvency margin results:
/// reserves cover `min(shortfall, reserves)`, the rest is written off as bad
/// debt, total borrows lose the borrower's balance (saturating, never below
/// zero), deposits and the frozen flag are kept, the borrower's balance is
/// cleared and the whole shortfall is kept as the write-off record.
pub proof fn lemma_record_succeeds_on_well_formed_market(
    user: String,
    asset: String,
    market: MarketState,
    user_borrow: i128,
    residual_debt: i128,
    collateral_seized: i128,
)
    requires
        market.bad_debt >= 0,
        market.reserves >= 0,
        market.total_borrows >= 0,
        market.total_deposits >= 0,
        residual_debt > 0,
        market.bad_debt + (residual_debt - (if residual_debt <= market.reserves {
            residual_debt
        } else {
            market.reserves
        })) <= i128::MAX,
    ensures
        ({
            let cover: int = if residual_debt <= market.reserves {
                residual_debt as int
            } else {
                market.reserves as int
            };
            let borrows: int = if market.total_borrows - user_borrow > i128::MAX {
                i128::MAX as int
            } else if market.total_borrows - user_borrow < 0 {
                0
            } else {
                market.total_borrows - user_borrow
            };
            spec_record_bad_debt(
                user,
                asset,
                Ok(market),
                user_borrow,
                residual_debt,
                collateral_seized,
            ) == Ok::<BadDebtOutcome, LendingError>(
                BadDebtOutcome {
                    event: BadDebtEvent {
                        user,
                        asset,
                        residual_debt,
                        collateral_seized,
                        reserve_cover: cover as i128,
                        written_off: (residual_debt - cover) as i128,
                    },
                    writes: Some(
                        BadDebtWrites {
                            market: MarketState {
                                total_deposits: market.total_deposits,
                                total_borrows: borrows as i128,
                                reserves: (market.reserves - cover) as i128,
                                bad_debt: (market.bad_debt + residual_debt - cover) as i128,
                                is_frozen: market.is_frozen,
                            },
                            user_borrow: 0,
                            write_off: residual_debt,
                        },
                    ),
                },
            )
        }),
{
}

/// A non-negative reserve inflow into a well-formed market always succeeds
/// unless reserves overflow: `min(inflow, bad_debt)` of bad debt is recovered
/// and returned, the rest of the inflow is added to reserves, and deposits,
/// borrows and the frozen flag are kept.
pub proof fn lemma_recovery_succeeds_on_well_formed_market(
    market: MarketState,
    new_reserve_amount: i128,
)
    requires
        market.bad_debt >= 0,
        market.reserves >= 0,
        market.total_borrows >= 0,
        market.total_deposits >= 0,
        new_reserve_amount >= 0,
        market.reserves + (new_reserve_amount - (if new_reserve_amount <= market.bad_debt {
            new_reserve_amount
        } else {
            market.bad_debt
        })) <= i128::MAX,
    ensures
        ({
            let recovery: int = if new_reserve_amount <= market.bad_debt {
                new_reserve_amount as int
            } else {
                market.bad_debt as int
            };
            spec_bad_debt_recovery(Ok(market), new_reserve_amount) == Ok::<
                (MarketState, i128),
                LendingError,
            >(
                (
                    MarketState {
                        total_deposits: market.total_deposits,
                        total_borrows: market.total_borrows,
                        reserves: (market.reserves + new_reserve_amount - recovery) as i128,
                        bad_debt: (market.bad_debt - recovery) as i128,
                        is_frozen: market.is_frozen,
                    },
                    recovery as i128,
                ),
            )
        }),
{
}

/// A report copies the market's totals and says it is solvent exactly when
/// `total_deposits - total_borrows + reserves - bad_debt >= 0`; utilisation is
/// zero without deposits and `total_borrows * 10_000 / total_deposits` (rounded
/// down) for positive deposits and non-negative borrows. The report is produced
/// whenever there are no deposits or `total_borrows * 10_000` fits in `i128`.
pub proof fn lemma_report_reflects_market(asset: String, market: MarketState)
    ensures
        spec_protocol_report(asset, Ok(market)) matches Ok(r) ==> {
            &&& r.is_solvent == (market.total_deposits - market.total_borrows + market.reserves
                - market.bad_debt >= 0)
            &&& r.total_deposits == market.total_deposits
            &&& r.total_borrows == market.total_borrows
            &&& r.reserves == market.reserves
            &&& r.bad_debt == market.bad_debt
            &&& r.asset == asset
            &&& market.total_deposits == 0 ==> r.utilisation_bps == 0
            &&& market.total_deposits > 0 && market.total_borrows >= 0 ==> r.utilisation_bps
                == market.total_borrows as int * 10_000 / market.total_deposits as int
        },
        (market.total_deposits == 0 || (i128::MIN <= market.total_borrows * 10_000 <= i128::MAX))
            ==> spec_protocol_report(asset, Ok(market)) is Ok,
{
}

} // verus!
