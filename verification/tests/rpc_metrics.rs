use ore_stats::rpc_metrics::{
    default_rate_limit, last_signatures_page, normalize_rpc_url, parse_mint_supply, pause_after_attempt,
    provider_index, rate_limit_wait_ms, snapshot_complete, MintSupplyError, RpcRequestInsert,
};

#[test]
fn request_record_builders() {
    let r = RpcRequestInsert::new("ore", "helius", "abc", "getAccountInfo", "account");
    assert_eq!(r.status, "pending");
    assert_eq!((r.is_batch, r.batch_size, r.is_paginated), (0, 1, 0));
    assert_eq!((r.rate_limit_remaining, r.rate_limit_reset), (-1, -1));
    let r = r.with_target("addr").with_batch(5).with_pagination(2, "cur").with_filters("{}");
    assert_eq!(r.target_address, "addr");
    assert_eq!((r.is_batch, r.batch_size), (1, 5));
    assert_eq!((r.is_paginated, r.page_number, r.cursor.as_str()), (1, 2, "cur"));
    assert_eq!(r.filters_json, "{}");
    let ok = r.success(12, 3, 400);
    assert_eq!((ok.status.as_str(), ok.duration_ms, ok.result_count, ok.response_size), ("success", 12, 3, 400));
    assert_eq!(ok.method, "getAccountInfo");
}

#[test]
fn request_record_outcomes() {
    let base = || RpcRequestInsert::new("ore", "p", "", "m", "t");
    let e = base().error(5, "-32000", "bad");
    assert_eq!((e.status.as_str(), e.error_code.as_str(), e.error_message.as_str(), e.duration_ms), ("error", "-32000", "bad", 5));
    assert_eq!(base().timeout(7).status, "timeout");
    assert_eq!(base().rate_limited(8).status, "rate_limited");
    assert_eq!(base().not_found(9).status, "not_found");
    assert_eq!(base().not_found(9).duration_ms, 9);
    assert_eq!(default_rate_limit(), -1);
}

#[test]
fn retry_and_rate_limit_rules() {
    assert_eq!(provider_index(0, 3), 0);
    assert_eq!(provider_index(4, 3), 1);
    assert_eq!(rate_limit_wait_ms(10, 33), 23);
    assert_eq!(rate_limit_wait_ms(40, 33), 0);
    assert!(pause_after_attempt(0));
    assert!(pause_after_attempt(8));
    assert!(!pause_after_attempt(9));
    assert!(!snapshot_complete(9_999));
    assert!(snapshot_complete(10_000));
    assert!(last_signatures_page(999));
    assert!(!last_signatures_page(1000));
}

#[test]
fn rpc_url_gets_a_scheme() {
    assert_eq!(normalize_rpc_url("rpc.example.com"), "https://rpc.example.com");
    assert_eq!(normalize_rpc_url("http://x"), "http://x");
    assert_eq!(normalize_rpc_url("https://x"), "https://x");
    assert_eq!(normalize_rpc_url("htt"), "https://htt");
}

#[test]
fn mint_supply_field() {
    let mut data = vec![0u8; 82];
    data[36..44].copy_from_slice(&123_456_789u64.to_le_bytes());
    assert_eq!(parse_mint_supply(&data).unwrap(), 123_456_789);
    match parse_mint_supply(&data[..43]) {
        Err(MintSupplyError::TooShort(n)) => assert_eq!(n, 43),
        Ok(_) => panic!("short account accepted"),
    }
}
