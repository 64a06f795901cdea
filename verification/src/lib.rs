//! Verified core of a lending protocol's accounting: interest accrual with
//! banker's rounding, debt positions, reserve splits, bad-debt accounting,
//! the asset registry and the governance audit log.
pub mod rounding_strategy;
pub mod math;
pub mod saturating;
pub mod debt;
pub mod borrow;
pub mod bad_debt_accounting;
pub mod governance_audit;
pub mod asset_registry;
