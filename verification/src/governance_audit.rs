//! Audit log of governance and admin actions.
//!
//! Every governance action (oracle updates, pause toggles, risk parameters,
//! caps, upgrades) is recorded as an [`AuditEntry`] with a sequential id. The
//! log keeps a running count under [`AuditLogKey::Count`] and the entries in a
//! bounded ring of [`MAX_AUDIT_ENTRIES`] slots under [`AuditLogKey::Entry`].
//!
//! The functions here decide what to store and what to read: logging yields
//! the new count and the entry with the key to store it under; a query yields
//! the keys to read and then selects the entries to return from what was read.
use vstd::prelude::*;

verus! {

/// Types of governance actions that can be audited.
#[derive(Copy, Clone, Debug, Eq, PartialEq)]
pub enum GovernanceAction {
    /// Protocol initialization
    Initialize,
    /// Admin address change
    SetAdmin,
    /// Pause state change for specific operation
    SetPause,
    /// Guardian address configuration
    SetGuardian,
    /// Emergency shutdown trigger
    EmergencyShutdown,
    /// Recovery mode start
    StartRecovery,
    /// Recovery completion
    CompleteRecovery,
    /// Oracle address configuration
    SetOracle,
    /// Oracle parameters configuration
    ConfigureOracle,
    /// Primary oracle address set for asset
    SetPrimaryOracle,
    /// Fallback oracle address set for asset
    SetFallbackOracle,
    /// Oracle pause state change
    SetOraclePaused,
    /// Price feed update
    UpdatePriceFeed,
    /// Liquidation threshold parameter change
    SetLiquidationThreshold,
    /// Close factor parameter change
    SetCloseFactor,
    /// Liquidation incentive parameter change
    SetLiquidationIncentive,
    /// Borrow settings initialization
    InitializeBorrowSettings,
    /// Deposit settings initialization
    InitializeDepositSettings,
    /// Withdraw settings initialization
    InitializeWithdrawSettings,
    /// Flash loan fee change
    SetFlashLoanFee,
    /// Cross-asset admin initialization
    InitializeCrossAssetAdmin,
    /// Asset parameters configuration
    SetAssetParams,
    /// Upgrade system initialization
    UpgradeInit,
    /// Upgrade approver addition
    UpgradeAddApprover,
    /// Upgrade approver removal
    UpgradeRemoveApprover,
    /// Upgrade proposal
    UpgradePropose,
    /// Upgrade approval
    UpgradeApprove,
    /// Upgrade execution
    UpgradeExecute,
    /// Upgrade rollback
    UpgradeRollback,
    /// Insurance fund credit
    CreditInsuranceFund,
    /// Bad debt offset
    OffsetBadDebt,
    /// Data store writer grant
    GrantDataWriter,
    /// Data store writer revoke
    RevokeDataWriter,
    /// Data backup
    DataBackup,
    /// Data restore
    DataRestore,
    /// Data migration
    DataMigrate,
}

/// One value of an action's payload.
#[derive(Clone, Debug, PartialEq, Eq)]
pub enum PayloadValue {
    /// An account or contract address.
    Address(String),
    Bool(bool),
    U64(u64),
    I128(i128),
    /// A text value.
    Text(String),
}

/// Action-specific payload data (addresses, amounts, parameters, ...).
#[derive(Clone, Debug, PartialEq, Eq)]
pub struct GovernancePayload {
    pub data: Vec<PayloadValue>,
}

/// Storage keys for audit log data.
#[derive(Clone, Debug, PartialEq, Eq, Hash)]
pub enum AuditLogKey {
    /// Total count of audit entries
    Count,
    /// Audit entry in the given ring slot
    Entry(u64),
}

/// One audited governance action.
#[derive(Clone, Debug, PartialEq, Eq)]
pub struct AuditEntry {
    /// Sequential id of the entry (the first entry has id 1)
    pub id: u64,
    /// Type of governance action
    pub action: GovernanceAction,
    /// Address that performed the action
    pub caller: String,
    /// Ledger timestamp when the action occurred
    pub timestamp: u64,
    /// Action-specific payload data
    pub payload: GovernancePayload,
}

/// What logging one action stores: the new count (under [`AuditLogKey::Count`])
/// and the entry under `entry_key`.
#[derive(Clone, Debug, PartialEq, Eq)]
pub struct AuditLogWrite {
    pub count: u64,
    pub entry_key: AuditLogKey,
    pub entry: AuditEntry,
}

/// Number of ring slots for audit entries.
pub const MAX_AUDIT_ENTRIES: u64 = 1000;

/// Largest number of entries one query may ask for.
pub const MAX_RECENT_QUERY: u32 = 100;

/// The first sequence number a query for the `limit` most recent of `count` entries reads.
pub open spec fn spec_recent_start(limit: u32, count: u64) -> int {
    if count > limit {
        count - limit
    } else {
        0
    }
}

/// How many slots a query reads: none for a limit of zero or above
/// [`MAX_RECENT_QUERY`] or an empty log, else `min(limit, count)`.
pub open spec fn spec_recent_len(limit: u32, count: u64) -> int {
    if limit == 0 || limit > MAX_RECENT_QUERY || count == 0 {
        0
    } else {
        count - spec_recent_start(limit, count)
    }
}

/// The entries among `fetched[lo..hi]` whose ids match their sequence numbers
/// (`start + index + 1`), from the highest index down (newest first).
pub open spec fn spec_picked(
    fetched: Seq<Option<AuditEntry>>,
    start: int,
    lo: int,
    hi: int,
) -> Seq<AuditEntry>
    decreases hi - lo,
{
    if lo >= hi {
        Seq::empty()
    } else {
        let rest = spec_picked(fetched, start, lo + 1, hi);
        match fetched[lo] {
            Some(e) => if e.id == start + lo + 1 {
                rest.push(e)
            } else {
                rest
            },
            None => rest,
        }
    }
}

/// The stored entry count, zero when nothing was logged yet.
pub fn get_audit_count(stored_count: Option<u64>) -> (count: u64)
    ensures
        count == match stored_count {
            Some(c) => c,
            None => 0,
        },
{
    match stored_count {
        Some(c) => c,
        None => 0,
    }
}

/// Logs a governance action performed by `caller` at `timestamp`.
///
/// The action gets the next sequential id; the new count and the entry, with the
/// ring slot key to store it under, are returned for storing (and the entry for
/// publishing as an event). Call it only after the caller has been authorized
/// for the action being audited.
pub fn log_governance_action(
    stored_count: Option<u64>,
    action: GovernanceAction,
    caller: String,
    timestamp: u64,
    payload: GovernancePayload,
) -> (write: AuditLogWrite)
    requires
        get_audit_count_spec(stored_count) < u64::MAX,
    ensures
        write.count == get_audit_count_spec(stored_count) + 1,
        write.entry_key == AuditLogKey::Entry((write.count % MAX_AUDIT_ENTRIES) as u64),
        write.entry == (AuditEntry { id: write.count, action, caller, timestamp, payload }),
{
    let mut count = get_audit_count(stored_count);
    count += 1;
    let entry = AuditEntry { id: count, action, caller, timestamp, payload };
    let storage_index = count % MAX_AUDIT_ENTRIES;
    AuditLogWrite { count, entry_key: AuditLogKey::Entry(storage_index), entry }
}

/// The stored entry count, zero when nothing was logged yet.
pub open spec fn get_audit_count_spec(stored_count: Option<u64>) -> u64 {
    match stored_count {
        Some(c) => c,
        None => 0,
    }
}

/// The keys a query for the `limit` most recent of `count` entries reads, in
/// order: for each sequence number `i` in `start..count`, the ring slot of the
/// entry with id `i + 1`, which is where logging stored it.
pub fn recent_audit_keys(limit: u32, count: u64) -> (keys: Vec<AuditLogKey>)
    ensures
        keys@.len() == spec_recent_len(limit, count),
        forall|j: int|
            0 <= j < keys@.len() ==> keys@[j] == AuditLogKey::Entry(
                ((spec_recent_start(limit, count) + j + 1) % MAX_AUDIT_ENTRIES as int) as u64,
            ),
{
    let mut keys: Vec<AuditLogKey> = Vec::new();
    if limit == 0 || limit > MAX_RECENT_QUERY || count == 0 {
        return keys;
    }
    let limit_u64 = limit as u64;
    let start_index = if count > limit_u64 {
        count - limit_u64
    } else {
        0
    };
    let mut i = start_index;
    while i < count
        invariant
            start_index == spec_recent_start(limit, count),
            start_index <= i <= count,
            keys@.len() == i - start_index,
            forall|j: int|
                0 <= j < keys@.len() ==> keys@[j] == AuditLogKey::Entry(
                    ((start_index + j + 1) % MAX_AUDIT_ENTRIES as int) as u64,
                ),
        decreases count - i,
    {
        keys.push(AuditLogKey::Entry((i + 1) % MAX_AUDIT_ENTRIES));
        i += 1;
    }
    keys
}

/// Recent governance audit entries, newest first.
///
/// `fetched` holds what was read under [`recent_audit_keys`]`(limit, count)`, in
/// the same order. An entry is returned only when its id is the sequence number
/// its slot was read for (`start + index + 1`), so an overwritten or missing slot
/// yields nothing. A limit of zero or above [`MAX_RECENT_QUERY`] returns nothing.
pub fn get_recent_audit_entries(
    limit: u32,
    count: u64,
    fetched: Vec<Option<AuditEntry>>,
) -> (entries: Vec<AuditEntry>)
    requires
        fetched@.len() == spec_recent_len(limit, count),
    ensures
        entries@ == spec_picked(
            fetched@,
            spec_recent_start(limit, count),
            0,
            fetched@.len() as int,
        ),
{
    let mut entries: Vec<AuditEntry> = Vec::new();
    if limit == 0 || limit > MAX_RECENT_QUERY || count == 0 {
        return entries;
    }
    let limit_u64 = limit as u64;
    let start_index = if count > limit_u64 {
        count - limit_u64
    } else {
        0
    };
    let ghost all = fetched@;
    let mut fetched = fetched;
    let mut j = fetched.len();
    while j > 0
        invariant
            start_index == spec_recent_start(limit, count),
            all.len() == count - start_index,
            j <= all.len(),
            fetched@ == all.subrange(0, j as int),
            entries@ == spec_picked(all, start_index as int, j as int, all.len() as int),
        decreases j,
    {
        let slot = fetched.pop();
        j -= 1;
        proof {
            assert(slot == Some(all[j as int]));
        }
        if let Some(Some(entry)) = slot {
            if entry.id == start_index + j as u64 + 1 {
                entries.push(entry);
            }
        }
    }
    entries
}

// ─────────────────────────────────────────────────────────────────────────────
// Payload construction
// ─────────────────────────────────────────────────────────────────────────────

/// A payload with a single address.
pub fn payload_address(address: String) -> (payload: GovernancePayload)
    ensures
        payload.data@ == seq![PayloadValue::Address(address)],
{
    let mut data = Vec::new();
    data.push(PayloadValue::Address(address));
    GovernancePayload { data }
}

/// A payload with an address and a boolean.
pub fn payload_address_bool(address: String, value: bool) -> (payload: GovernancePayload)
    ensures
        payload.data@ == seq![PayloadValue::Address(address), PayloadValue::Bool(value)],
{
    let mut data = Vec::new();
    data.push(PayloadValue::Address(address));
    data.push(PayloadValue::Bool(value));
    GovernancePayload { data }
}

/// A payload with an address and a `u64` value.
pub fn payload_address_u64(address: String, value: u64) -> (payload: GovernancePayload)
    ensures
        payload.data@ == seq![PayloadValue::Address(address), PayloadValue::U64(value)],
{
    let mut data = Vec::new();
    data.push(PayloadValue::Address(address));
    data.push(PayloadValue::U64(value));
    GovernancePayload { data }
}

/// A payload with an address and an `i128` value.
pub fn payload_address_i128(address: String, value: i128) -> (payload: GovernancePayload)
    ensures
        payload.data@ == seq![PayloadValue::Address(address), PayloadValue::I128(value)],
{
    let mut data = Vec::new();
    data.push(PayloadValue::Address(address));
    data.push(PayloadValue::I128(value));
    GovernancePayload { data }
}

/// A payload with two addresses.
pub fn payload_two_addresses(addr1: String, addr2: String) -> (payload: GovernancePayload)
    ensures
        payload.data@ == seq![PayloadValue::Address(addr1), PayloadValue::Address(addr2)],
{
    let mut data = Vec::new();
    data.push(PayloadValue::Address(addr1));
    data.push(PayloadValue::Address(addr2));
    GovernancePayload { data }
}

/// A payload with an address, an asset address and an `i128` value.
pub fn payload_address_asset_i128(address: String, asset: String, value: i128) -> (payload:
    GovernancePayload)
    ensures
        payload.data@ == seq![
            PayloadValue::Address(address),
            PayloadValue::Address(asset),
            PayloadValue::I128(value),
        ],
{
    let mut data = Vec::new();
    data.push(PayloadValue::Address(address));
    data.push(PayloadValue::Address(asset));
    data.push(PayloadValue::I128(value));
    GovernancePayload { data }
}

/// A payload with just an `i128` value.
pub fn payload_i128(value: i128) -> (payload: GovernancePayload)
    ensures
        payload.data@ == seq![PayloadValue::I128(value)],
{
    let mut data = Vec::new();
    data.push(PayloadValue::I128(value));
    GovernancePayload { data }
}

/// A payload with a `u64` value.
pub fn payload_u64(value: u64) -> (payload: GovernancePayload)
    ensures
        payload.data@ == seq![PayloadValue::U64(value)],
{
    let mut data = Vec::new();
    data.push(PayloadValue::U64(value));
    GovernancePayload { data }
}

/// A payload with two `u64` values.
pub fn payload_two_u64(value1: u64, value2: u64) -> (payload: GovernancePayload)
    ensures
        payload.data@ == seq![PayloadValue::U64(value1), PayloadValue::U64(value2)],
{
    let mut data = Vec::new();
    data.push(PayloadValue::U64(value1));
    data.push(PayloadValue::U64(value2));
    GovernancePayload { data }
}

/// A payload with a text value.
pub fn payload_string(value: String) -> (payload: GovernancePayload)
    ensures
        payload.data@ == seq![PayloadValue::Text(value)],
{
    let mut data = Vec::new();
    data.push(PayloadValue::Text(value));
    GovernancePayload { data }
}

/// An empty payload for actions that need no additional data.
pub fn payload_empty() -> (payload: GovernancePayload)
    ensures
        payload.data@ == Seq::<PayloadValue>::empty(),
{
    GovernancePayload { data: Vec::new() }
}

// ─────────────────────────────────────────────────────────────────────────────
// Laws
// ─────────────────────────────────────────────────────────────────────────────

/// The selected entries come newest first: their ids strictly decrease, lie in
/// `(start + lo, start + hi]`, and there are at most `hi - lo` of them.
pub proof fn lemma_picked_newest_first(
    fetched: Seq<Option<AuditEntry>>,
    start: int,
    lo: int,
    hi: int,
)
    requires
        lo <= hi,
    ensures
        spec_picked(fetched, start, lo, hi).len() <= hi - lo,
        forall|a: int|
            0 <= a < spec_picked(fetched, start, lo, hi).len() ==> start + lo < #[trigger] spec_picked(
                fetched,
                start,
                lo,
                hi,
            )[a].id <= start + hi,
        forall|a: int, b: int|
            0 <= a < b < spec_picked(fetched, start, lo, hi).len() ==> #[trigger] spec_picked(
                fetched,
                start,
                lo,
                hi,
            )[a].id > #[trigger] spec_picked(fetched, start, lo, hi)[b].id,
    decreases hi - lo,
{
    if lo < hi {
        lemma_picked_newest_first(fetched, start, lo + 1, hi);
    }
}

/// A query returns at most `limit` entries, newest first, all among the
/// `limit` most recent ids `count - min(limit, count) + 1 ..= count`.
pub proof fn lemma_recent_entries_bounded(limit: u32, count: u64, fetched: Seq<Option<AuditEntry>>)
    requires
        fetched.len() == spec_recent_len(limit, count),
    ensures
        ({
            let entries = spec_picked(fetched, spec_recent_start(limit, count), 0, fetched.len() as int);
            &&& entries.len() <= limit
            &&& entries.len() <= MAX_RECENT_QUERY
            &&& forall|a: int|
                0 <= a < entries.len() ==> spec_recent_start(limit, count) < #[trigger] entries[a].id
                    <= count
            &&& forall|a: int, b: int|
                0 <= a < b < entries.len() ==> #[trigger] entries[a].id > #[trigger] entries[b].id
        }),
{
    lemma_picked_newest_first(fetched, spec_recent_start(limit, count), 0, fetched.len() as int);
}

/// The entry held by ring slot `slot` after the entries of `log` were logged in
/// order: the latest of them whose id falls in that slot, if any.
pub open spec fn spec_ring_slot(log: Seq<AuditEntry>, slot: int) -> Option<AuditEntry>
    decreases log.len(),
{
    if log.len() == 0 {
        None
    } else if log.last().id % MAX_AUDIT_ENTRIES == slot {
        Some(log.last())
    } else {
        spec_ring_slot(log.drop_last(), slot)
    }
}

/// Whether `log` is what logging produced: the `k`-th logged entry has id `k`.
pub open spec fn log_sequential(log: Seq<AuditEntry>) -> bool {
    forall|i: int| 0 <= i < log.len() ==> #[trigger] log[i].id == i + 1
}

/// Logging an entry writes only its own ring slot: that slot now holds the new
/// entry and every other slot keeps what it held, so a logged entry is never
/// modified, only replaced when its slot is reused `MAX_AUDIT_ENTRIES` ids later.
pub proof fn lemma_logging_writes_only_its_slot(
    log: Seq<AuditEntry>,
    entry: AuditEntry,
    slot: int,
)
    ensures
        spec_ring_slot(log.push(entry), slot) == if entry.id % MAX_AUDIT_ENTRIES == slot {
            Some(entry)
        } else {
            spec_ring_slot(log, slot)
        },
{
    assert(log.push(entry).drop_last() =~= log);
}

/// In a sequential log, the entry with id `i + 1` is still in its slot as long
/// as fewer than `MAX_AUDIT_ENTRIES` entries were logged after it.
pub proof fn lemma_ring_keeps_recent_entries(log: Seq<AuditEntry>, i: int)
    requires
        log_sequential(log),
        0 <= i < log.len(),
        log.len() - i <= MAX_AUDIT_ENTRIES,
    ensures
        spec_ring_slot(log, (i + 1) % (MAX_AUDIT_ENTRIES as int)) == Some(log[i]),
    decreases log.len(),
{
    let n = log.len() as int;
    assert(log.last() == log[n - 1]);
    if i < n - 1 {
        assert(log[n - 1].id == n);
        assert(n % 1000 != (i + 1) % 1000);
        let rest = log.drop_last();
        assert forall|k: int| 0 <= k < rest.len() implies #[trigger] rest[k].id == k + 1 by {
            assert(rest[k] == log[k]);
        }
        lemma_ring_keeps_recent_entries(rest, i);
        assert(rest[i] == log[i]);
    } else {
        assert(log[i].id == i + 1);
    }
}

/// When every slot read holds its expected entry `log[start + j]`, the selection
/// over `[lo, hi)` is those entries from the highest index down.
pub proof fn lemma_picked_all_expected(
    fetched: Seq<Option<AuditEntry>>,
    log: Seq<AuditEntry>,
    start: int,
    lo: int,
    hi: int,
)
    requires
        log_sequential(log),
        0 <= start,
        0 <= lo <= hi <= fetched.len(),
        start + hi <= log.len(),
        forall|j: int| lo <= j < hi ==> #[trigger] fetched[j] == Some(log[start + j]),
    ensures
        spec_picked(fetched, start, lo, hi).len() == hi - lo,
        forall|k: int|
            0 <= k < hi - lo ==> #[trigger] spec_picked(fetched, start, lo, hi)[k] == log[start + hi - 1
                - k],
    decreases hi - lo,
{
    if lo < hi {
        lemma_picked_all_expected(fetched, log, start, lo + 1, hi);
        assert(fetched[lo] == Some(log[start + lo]));
        assert(log[start + lo].id == start + lo + 1);
    }
}

/// Read-after-write for the audit log: when the ring holds exactly what logging
/// the sequential `log` stored, a query for the `limit` most recent entries
/// (`1 <= limit <= MAX_RECENT_QUERY`) returns the `min(limit, count)` newest
/// logged entries, newest first: the `k`-th result is the entry with id
/// `count - k`, as it was logged.
pub proof fn lemma_recent_entries_read_back_the_log(
    limit: u32,
    log: Seq<AuditEntry>,
    fetched: Seq<Option<AuditEntry>>,
)
    requires
        log_sequential(log),
        log.len() <= u64::MAX,
        1 <= limit <= MAX_RECENT_QUERY,
        fetched.len() == spec_recent_len(limit, log.len() as u64),
        forall|j: int|
            0 <= j < fetched.len() ==> #[trigger] fetched[j] == spec_ring_slot(
                log,
                (spec_recent_start(limit, log.len() as u64) + j + 1) % (MAX_AUDIT_ENTRIES as int),
            ),
    ensures
        ({
            let count = log.len() as int;
            let entries = spec_picked(
                fetched,
                spec_recent_start(limit, log.len() as u64),
                0,
                fetched.len() as int,
            );
            &&& entries.len() == if count < limit { count } else { limit as int }
            &&& forall|k: int|
                0 <= k < entries.len() ==> #[trigger] entries[k] == log[count - 1 - k]
                    && entries[k].id == count - k
        }),
{
    let count = log.len() as int;
    let start = spec_recent_start(limit, log.len() as u64);
    assert forall|j: int| 0 <= j < fetched.len() implies #[trigger] fetched[j] == Some(
        log[start + j],
    ) by {
        lemma_ring_keeps_recent_entries(log, start + j);
    }
    lemma_picked_all_expected(fetched, log, start, 0, fetched.len() as int);
    assert forall|k: int| 0 <= k < fetched.len() implies #[trigger] log[count - 1 - k].id == count
        - k by {}
}

} // verus!
