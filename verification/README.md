# stellar-lend

The accounting core of a Soroban lending protocol, verified with Verus.

- `src/` — the verified library:
  - `rounding_strategy` — interest `principal * rate_bps * elapsed / (10_000 * 31_536_000)`
    with banker's rounding and checked arithmetic, and lemmas on the rounding.
  - `math` — splitting interest between depositors and the reserve.
  - `debt` — debt positions: accrual, settlement, borrow, repay, supply rate,
    utilization and the per-ledger borrow-rate cache, with the laws that relate them.
  - `borrow` — fixed-rate (5 %) positions and the saturating debt view.
  - `bad_debt_accounting` — reserve cover, write-offs, recovery and market reports.
  - `governance_audit` — the governance audit log (ids, ring slots, recent-entry queries)
    and payload builders.
  - `asset_registry` — registration decisions.
  - `saturating` — contracts of the standard library's saturating `i128` operations.
- `app/` — Soroban storage, ledger and event plumbing around the library.
- `tests/` — tests of the library on concrete values.
