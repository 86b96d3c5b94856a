use ore_stats::evore_cache::{
    continue_auth_scan, page_limit, parse_deployer, parse_manager, CachedAuthBalance, CachedDeployer, CachedManager,
    EvoreCache,
};
use ore_stats::keyed::{rank_keys, KeyRank, KeyedList};

fn manager(address: &str, authority: &str) -> CachedManager {
    CachedManager { address: address.to_string(), authority: authority.to_string() }
}

fn deployer(address: &str, manager_key: &str, bps_fee: u64) -> CachedDeployer {
    CachedDeployer {
        address: address.to_string(),
        manager_key: manager_key.to_string(),
        deploy_authority: "exec".to_string(),
        bps_fee,
        flat_fee: 0,
        expected_bps_fee: 0,
        expected_flat_fee: 0,
        max_per_round: 0,
    }
}

#[test]
fn upserted_manager_is_found_and_listed() {
    let mut cache = EvoreCache::new();
    cache.upsert_manager(manager("m2", "alice"));
    cache.upsert_manager(manager("m1", "alice"));
    cache.upsert_manager(manager("m3", "bob"));
    assert_eq!(cache.get_manager("m1").unwrap().authority, "alice");
    assert!(cache.get_manager("m9").is_none());
    let listed: Vec<String> = cache.get_managers_by_authority("alice").iter().map(|m| m.address.clone()).collect();
    assert_eq!(listed, vec!["m1".to_string(), "m2".to_string()]);
    assert!(cache.get_managers_by_authority("carol").is_empty());
    assert_eq!(cache.stats().managers_count, 3);
}

#[test]
fn upsert_replaces_and_deployer_follows_manager() {
    let mut cache = EvoreCache::new();
    cache.upsert_manager(manager("m1", "alice"));
    cache.upsert_deployer(deployer("d1", "m1", 100));
    cache.upsert_deployer(deployer("d1", "m1", 250));
    assert_eq!(cache.get_deployer("d1").unwrap().bps_fee, 250);
    assert_eq!(cache.get_deployer_for_manager("m1").unwrap().address, "d1");
    assert!(cache.get_deployer_for_manager("m2").is_none());
    let by_authority = cache.get_deployers_by_authority("alice");
    assert_eq!(by_authority.total, 1);
    assert_eq!(by_authority.deployers[0].bps_fee, 250);
    assert_eq!(cache.stats().deployers_count, 1);
}

#[test]
fn auth_balance_for_manager() {
    let mut cache = EvoreCache::new();
    cache.upsert_auth_balance(CachedAuthBalance { address: "a1".to_string(), manager: "m1".to_string(), auth_id: 0, balance: 5 });
    assert_eq!(cache.get_auth_balance_for_manager("m1").unwrap().balance, 5);
    assert!(cache.get_auth_balance_for_manager("m2").is_none());
    cache.set_last_updated_slot(77);
    assert_eq!(cache.stats().last_updated_slot, 77);
    assert_eq!(cache.stats().auth_balances_count, 1);
}

#[test]
fn pages_of_managers_and_deployers() {
    let mut cache = EvoreCache::new();
    for a in ["c", "a", "b", "d"] {
        cache.upsert_manager(manager(a, "x"));
        cache.upsert_deployer(deployer(a, a, 1));
    }
    let page: Vec<String> = cache.managers_page(1, 2).iter().map(|m| m.address.clone()).collect();
    assert_eq!(page, vec!["b".to_string(), "c".to_string()]);
    assert!(cache.managers_page(4, 2).is_empty());
    assert_eq!(cache.deployers_page(3, 10).len(), 1);
    assert_eq!(page_limit(None), 100);
    assert_eq!(page_limit(Some(5)), 5);
    assert_eq!(page_limit(Some(5000)), 1000);
}

#[test]
fn auth_scan_goes_on_while_found() {
    assert!(continue_auth_scan(1, false));
    assert!(continue_auth_scan(3, false));
    assert!(!continue_auth_scan(4, false));
    assert!(continue_auth_scan(4, true));
    assert!(continue_auth_scan(100, true));
    assert!(!continue_auth_scan(101, true));
}

#[test]
fn parse_manager_and_deployer_accounts() {
    let mut data = vec![0u8; 40];
    for b in data[8..40].iter_mut() {
        *b = 1;
    }
    let m = parse_manager("mgr", &data).unwrap();
    assert_eq!(m.address, "mgr");
    assert_eq!(m.authority, "4vJ9JU1bJJE96FWSJKvHsmmFADCg4gpZQff4P3bkLKi");
    assert!(parse_manager("mgr", &data[..39]).is_none());

    let mut d = vec![0u8; 112];
    for b in d[8..40].iter_mut() {
        *b = 1;
    }
    for b in d[40..72].iter_mut() {
        *b = 2;
    }
    d[72..80].copy_from_slice(&500u64.to_le_bytes());
    d[80..88].copy_from_slice(&7u64.to_le_bytes());
    d[104..112].copy_from_slice(&9_000u64.to_le_bytes());
    let dep = parse_deployer("dep", &d).unwrap();
    assert_eq!(dep.manager_key, "4vJ9JU1bJJE96FWSJKvHsmmFADCg4gpZQff4P3bkLKi");
    assert_eq!(dep.deploy_authority, "8qbHbw2BbbTHBW1sbeqakYXVKRQM8Ne7pLK7m6CVfeR");
    assert_eq!(dep.bps_fee, 500);
    assert_eq!(dep.flat_fee, 7);
    assert_eq!(dep.max_per_round, 9_000);
    assert!(parse_deployer("dep", &d[..111]).is_none());
}

#[test]
fn keyed_list_orders_and_replaces() {
    let mut l: KeyedList<u32> = KeyedList::new();
    l.upsert("b".to_string(), 2);
    l.upsert("a".to_string(), 1);
    l.upsert("b".to_string(), 3);
    assert_eq!(l.len(), 2);
    assert_eq!(*l.entry_at(0).0, "a");
    assert_eq!(l.get("b"), Some(&3));
    assert!(l.contains("a"));
    assert_eq!(l.take("a"), Some(1));
    assert!(!l.contains("a"));
    assert_eq!(l.take("zz"), None);
    assert!(matches!(rank_keys("ab", "b"), KeyRank::Before));
    assert!(matches!(rank_keys("b", "b"), KeyRank::Same));
    assert!(matches!(rank_keys("ba", "b"), KeyRank::After));
}

#[test]
fn manager_moved_to_new_authority_leaves_old_listing() {
    let mut cache = EvoreCache::new();
    cache.upsert_manager(manager("m1", "alice"));
    cache.upsert_manager(manager("m2", "alice"));
    cache.upsert_manager(manager("m1", "bob"));
    let alice: Vec<String> = cache.get_managers_by_authority("alice").iter().map(|m| m.address.clone()).collect();
    assert_eq!(alice, vec!["m2".to_string()]);
    let bob: Vec<String> = cache.get_managers_by_authority("bob").iter().map(|m| m.address.clone()).collect();
    assert_eq!(bob, vec!["m1".to_string()]);
    cache.upsert_manager(manager("m1", "bob"));
    assert_eq!(cache.get_managers_by_authority("bob").len(), 1);
    assert_eq!(cache.stats().managers_count, 2);
}

#[test]
fn counts_after_upserts() {
    let mut c = EvoreCache::new();
    c.upsert_manager(manager("M1", "A"));
    c.upsert_manager(manager("M1", "A"));
    c.upsert_auth_balance(CachedAuthBalance { address: "P".to_string(), manager: "M1".to_string(), auth_id: 0, balance: 5 });
    let s = c.stats();
    assert_eq!((s.managers_count, s.deployers_count, s.auth_balances_count, s.last_updated_slot), (1, 0, 1, 0));
}
