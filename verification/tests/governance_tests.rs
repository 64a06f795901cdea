use std::collections::HashMap;

use stellar_lend::governance_audit::{
    get_audit_count, get_recent_audit_entries, log_governance_action, payload_address,
    payload_address_asset_i128, payload_address_bool, payload_address_i128, payload_address_u64,
    payload_empty, payload_i128, payload_string, payload_two_addresses, payload_two_u64,
    payload_u64, recent_audit_keys, AuditEntry, AuditLogKey, GovernanceAction, PayloadValue,
    MAX_AUDIT_ENTRIES,
};

fn entry(id: u64) -> AuditEntry {
    AuditEntry {
        id,
        action: GovernanceAction::SetPause,
        caller: "GADMIN".to_string(),
        timestamp: 1_000 + id,
        payload: payload_empty(),
    }
}

#[test]
fn audit_count_defaults_to_zero() {
    assert_eq!(get_audit_count(None), 0);
    assert_eq!(get_audit_count(Some(12)), 12);
}

#[test]
fn logging_assigns_the_next_id() {
    let w = log_governance_action(None, GovernanceAction::Initialize, "GADMIN".to_string(), 55, payload_u64(9));
    assert_eq!(w.count, 1);
    assert_eq!(w.entry_key, AuditLogKey::Entry(1));
    assert_eq!(w.entry.id, 1);
    assert_eq!(w.entry.action, GovernanceAction::Initialize);
    assert_eq!(w.entry.caller, "GADMIN");
    assert_eq!(w.entry.timestamp, 55);
    assert_eq!(w.entry.payload, payload_u64(9));
}

#[test]
fn logging_wraps_around_the_ring() {
    let w = log_governance_action(Some(MAX_AUDIT_ENTRIES - 1), GovernanceAction::DataMigrate, "G".to_string(), 0, payload_empty());
    assert_eq!(w.count, MAX_AUDIT_ENTRIES);
    assert_eq!(w.entry_key, AuditLogKey::Entry(0));
    let w = log_governance_action(Some(2_500), GovernanceAction::SetOracle, "G".to_string(), 0, payload_empty());
    assert_eq!(w.entry_key, AuditLogKey::Entry(501));
}

#[test]
fn query_keys_cover_the_most_recent_sequence_numbers() {
    // The slots of ids 3, 4 and 5, where logging stored them.
    assert_eq!(
        recent_audit_keys(3, 5),
        vec![AuditLogKey::Entry(3), AuditLogKey::Entry(4), AuditLogKey::Entry(5)]
    );
    assert_eq!(recent_audit_keys(10, 2), vec![AuditLogKey::Entry(1), AuditLogKey::Entry(2)]);
    assert_eq!(recent_audit_keys(2, 1_001), vec![AuditLogKey::Entry(0), AuditLogKey::Entry(1)]);
}

#[test]
fn query_limits_outside_range_read_nothing() {
    assert!(recent_audit_keys(0, 5).is_empty());
    assert!(recent_audit_keys(101, 5).is_empty());
    assert!(recent_audit_keys(10, 0).is_empty());
    assert_eq!(recent_audit_keys(100, 500).len(), 100);
    assert!(get_recent_audit_entries(0, 5, vec![]).is_empty());
    assert!(get_recent_audit_entries(101, 5, vec![]).is_empty());
}

#[test]
fn recent_entries_come_newest_first() {
    // Slots read for sequence numbers 2, 3, 4 hold the ids the query checks for.
    let fetched = vec![Some(entry(3)), Some(entry(4)), Some(entry(5))];
    let got = get_recent_audit_entries(3, 5, fetched);
    let ids: Vec<u64> = got.iter().map(|e| e.id).collect();
    assert_eq!(ids, vec![5, 4, 3]);
}

#[test]
fn mismatched_or_missing_slots_are_skipped() {
    let fetched = vec![None, Some(entry(42)), Some(entry(5))];
    let got = get_recent_audit_entries(3, 5, fetched);
    let ids: Vec<u64> = got.iter().map(|e| e.id).collect();
    assert_eq!(ids, vec![5]);
}

/// Logs actions through `log_governance_action` into a ring held in a map.
fn log_all(actions: &[GovernanceAction]) -> (u64, HashMap<AuditLogKey, AuditEntry>) {
    let mut count: Option<u64> = None;
    let mut ring = HashMap::new();
    for (t, action) in actions.iter().enumerate() {
        let w = log_governance_action(count, *action, "GADMIN".to_string(), t as u64, payload_empty());
        ring.insert(w.entry_key.clone(), w.entry.clone());
        count = Some(w.count);
    }
    (count.unwrap_or(0), ring)
}

fn query(limit: u32, count: u64, ring: &HashMap<AuditLogKey, AuditEntry>) -> Vec<AuditEntry> {
    let fetched = recent_audit_keys(limit, count).iter().map(|k| ring.get(k).cloned()).collect();
    get_recent_audit_entries(limit, count, fetched)
}

#[test]
fn logged_entries_are_read_back_newest_first() {
    let (count, ring) = log_all(&[
        GovernanceAction::Initialize,
        GovernanceAction::SetAdmin,
        GovernanceAction::SetPause,
    ]);
    let got = query(2, count, &ring);
    assert_eq!(got.len(), 2);
    assert_eq!((got[0].id, got[0].action, got[0].timestamp), (3, GovernanceAction::SetPause, 2));
    assert_eq!((got[1].id, got[1].action, got[1].timestamp), (2, GovernanceAction::SetAdmin, 1));
    let all: Vec<u64> = query(100, count, &ring).iter().map(|e| e.id).collect();
    assert_eq!(all, vec![3, 2, 1]);
}

#[test]
fn read_back_survives_ring_wrap_around() {
    let actions = vec![GovernanceAction::UpdatePriceFeed; 1_234];
    let (count, ring) = log_all(&actions);
    assert_eq!(count, 1_234);
    let ids: Vec<u64> = query(100, count, &ring).iter().map(|e| e.id).collect();
    let expected: Vec<u64> = (1_135..=1_234).rev().collect();
    assert_eq!(ids, expected);
}

#[test]
fn payload_builders() {
    let a = "GADDR".to_string();
    let c = "CASSET".to_string();
    assert_eq!(payload_address(a.clone()).data, vec![PayloadValue::Address(a.clone())]);
    assert_eq!(
        payload_address_bool(a.clone(), true).data,
        vec![PayloadValue::Address(a.clone()), PayloadValue::Bool(true)]
    );
    assert_eq!(
        payload_address_u64(a.clone(), 3).data,
        vec![PayloadValue::Address(a.clone()), PayloadValue::U64(3)]
    );
    assert_eq!(
        payload_address_i128(a.clone(), -3).data,
        vec![PayloadValue::Address(a.clone()), PayloadValue::I128(-3)]
    );
    assert_eq!(
        payload_two_addresses(a.clone(), c.clone()).data,
        vec![PayloadValue::Address(a.clone()), PayloadValue::Address(c.clone())]
    );
    assert_eq!(
        payload_address_asset_i128(a.clone(), c.clone(), 10).data,
        vec![PayloadValue::Address(a), PayloadValue::Address(c), PayloadValue::I128(10)]
    );
    assert_eq!(payload_i128(i128::MIN).data, vec![PayloadValue::I128(i128::MIN)]);
    assert_eq!(payload_two_u64(1, 2).data, vec![PayloadValue::U64(1), PayloadValue::U64(2)]);
    assert_eq!(payload_string("hi".to_string()).data, vec![PayloadValue::Text("hi".to_string())]);
    assert!(payload_empty().data.is_empty());
}
