use qf_faucet::config::{window_start, ServerConfig, DEFAULT_COOLDOWN_MINUTES};
use qf_faucet::ledger::Ledger;
use qf_faucet::schema::{
    init_db, CREATE_TRANSFERS, INDEX_ADDRESS, INDEX_ADDRESS_TIMESTAMP, INDEX_TIMESTAMP,
};

fn addr(s: &str) -> String {
    s.to_string()
}

fn stamps(l: &Ledger) -> Vec<(String, i64)> {
    (0..l.len()).map(|i| (l.get(i).address.clone(), l.get(i).timestamp)).collect()
}

#[test]
fn insert_assigns_increasing_ids_and_empty_reference() {
    let mut l = Ledger::new();
    assert_eq!(l.insert(&addr("a"), 2, 100), Ok(1));
    assert_eq!(l.insert(&addr("b"), 3, 200), Ok(2));
    assert_eq!(l.len(), 2);
    let r = l.get(1);
    assert_eq!(r.id, 2);
    assert_eq!(r.address, "b");
    assert_eq!(r.amount, 3);
    assert_eq!(r.timestamp, 200);
    assert_eq!(r.settlement_ref, "");
}

#[test]
fn count_recent_is_strictly_after_bound_and_per_address() {
    let mut l = Ledger::new();
    l.insert(&addr("a"), 2, 100).unwrap();
    l.insert(&addr("a"), 2, 200).unwrap();
    l.insert(&addr("b"), 2, 300).unwrap();
    assert_eq!(l.count_recent(&addr("a"), 99), 2);
    assert_eq!(l.count_recent(&addr("a"), 100), 1);
    assert_eq!(l.count_recent(&addr("a"), 200), 0);
    assert_eq!(l.count_recent(&addr("b"), 0), 1);
    assert_eq!(l.count_recent(&addr("c"), 0), 0);
    assert_eq!(l.count_recent(&addr("a"), -1_000_000_000_000_000_000_000), 2);
}

#[test]
fn delete_expired_removes_only_older_records_of_that_address() {
    let mut l = Ledger::new();
    l.insert(&addr("a"), 2, 100).unwrap();
    l.insert(&addr("b"), 2, 100).unwrap();
    l.insert(&addr("a"), 2, 200).unwrap();
    l.insert(&addr("a"), 2, 300).unwrap();
    l.delete_expired(&addr("a"), 200);
    assert_eq!(stamps(&l), vec![(addr("b"), 100), (addr("a"), 200), (addr("a"), 300)]);
}

#[test]
fn delete_expired_twice_equals_once() {
    let mut once = Ledger::new();
    let mut twice = Ledger::new();
    for (a, t) in [("a", 10), ("b", 20), ("a", 30), ("a", 40), ("b", 5)] {
        once.insert(&addr(a), 2, t).unwrap();
        twice.insert(&addr(a), 2, t).unwrap();
    }
    once.delete_expired(&addr("a"), 35);
    twice.delete_expired(&addr("a"), 35);
    twice.delete_expired(&addr("a"), 35);
    assert_eq!(stamps(&once), stamps(&twice));
    assert_eq!(stamps(&once), vec![(addr("b"), 20), (addr("a"), 40), (addr("b"), 5)]);
}

#[test]
fn attach_settlement_updates_latest_match_only() {
    let mut l = Ledger::new();
    l.insert(&addr("a"), 2, 100).unwrap();
    l.insert(&addr("a"), 2, 100).unwrap();
    l.insert(&addr("a"), 2, 200).unwrap();
    l.attach_settlement(&addr("a"), 100, &addr("0xabc"));
    assert_eq!(l.get(0).settlement_ref, "");
    assert_eq!(l.get(1).settlement_ref, "0xabc");
    assert_eq!(l.get(2).settlement_ref, "");
}

#[test]
fn attach_settlement_without_match_is_noop() {
    let mut l = Ledger::new();
    l.insert(&addr("a"), 2, 100).unwrap();
    l.attach_settlement(&addr("a"), 101, &addr("0xabc"));
    l.attach_settlement(&addr("b"), 100, &addr("0xabc"));
    assert_eq!(l.len(), 1);
    assert_eq!(l.get(0).settlement_ref, "");
}

#[test]
fn eligible_without_records_in_window() {
    let mut l = Ledger::new();
    assert!(l.is_eligible(&addr("a"), Some(120), 1_000_000));
    l.insert(&addr("b"), 2, 1_000_000).unwrap();
    assert!(l.is_eligible(&addr("a"), Some(120), 1_000_000));
}

#[test]
fn cooldown_after_dispensation() {
    let t: i64 = 1_700_000_000;
    let mut l = Ledger::new();
    l.insert(&addr("a"), 2, t).unwrap();
    l.attach_settlement(&addr("a"), t, &addr("0x01"));
    assert!(!l.is_eligible(&addr("a"), Some(120), t));
    assert!(!l.is_eligible(&addr("a"), Some(120), t + 120 * 60 - 1));
    assert!(l.is_eligible(&addr("a"), Some(120), t + 120 * 60));
    assert_eq!(l.len(), 1);
    assert!(l.is_eligible(&addr("a"), Some(120), t + 120 * 60 + 1));
    assert_eq!(l.len(), 0);
}

#[test]
fn default_cooldown_is_two_hours() {
    let t: i64 = 50_000;
    let mut l = Ledger::new();
    l.insert(&addr("a"), 2, t).unwrap();
    assert!(!l.is_eligible(&addr("a"), None, t + 7199));
    assert!(l.is_eligible(&addr("a"), None, t + 7200));
    assert_eq!(DEFAULT_COOLDOWN_MINUTES, 120);
}

#[test]
fn unsettled_record_counted_until_expiry() {
    let t: i64 = 10_000;
    let mut l = Ledger::new();
    l.insert(&addr("a"), 2, t).unwrap();
    assert!(!l.is_eligible(&addr("a"), Some(10), t + 599));
    assert_eq!(l.count_recent(&addr("a"), (t - 1) as i128), 1);
    l.delete_expired(&addr("a"), t as i128);
    l.delete_expired(&addr("b"), (t + 1) as i128);
    assert_eq!(l.len(), 1);
    assert_eq!(l.get(0).settlement_ref, "");
    l.delete_expired(&addr("a"), (t + 1) as i128);
    assert_eq!(l.len(), 0);
}

#[test]
fn window_start_values() {
    assert_eq!(window_start(10_000, 120), 10_000 - 7200);
    assert_eq!(window_start(0, 0), 0);
    assert_eq!(
        window_start(i64::MIN, u64::MAX),
        i64::MIN as i128 - (u64::MAX as i128) * 60
    );
}

#[test]
fn server_config_keeps_values() {
    let c = ServerConfig::new("wss://node".to_string(), true, Some(5));
    assert_eq!(c.rpc_url, "wss://node");
    assert!(c.debug);
    assert_eq!(c.timeout, Some(5));
    assert_eq!(c.cooldown_minutes(), 5);
    assert_eq!(ServerConfig::new(String::new(), false, None).cooldown_minutes(), 120);
}

#[test]
fn init_db_lists_table_then_indexes() {
    let s = init_db();
    assert_eq!(s, vec![CREATE_TRANSFERS, INDEX_ADDRESS, INDEX_TIMESTAMP, INDEX_ADDRESS_TIMESTAMP]);
    assert!(s[0].starts_with("CREATE TABLE IF NOT EXISTS transfers"));
}
