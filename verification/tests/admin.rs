use ore_stats::admin::{
    invalid_action_message, parse_backfill_action, unknown_action_message, BackfillAction, default_days, default_hours, default_limit, default_logs_limit, pipeline_stats, storage_totals,
    BlacklistEntryResponse, BlacklistResponse, ReconstructedRoundInfo, RpcDailyQuery, RpcMetricsQuery,
};
use ore_stats::charts::{
    daily_window, day_timestamp, direct_limit, hourly_window, DirectQuery, RoundsDailyResponse, RoundsDailyRow,
};
use ore_stats::reconstruct::{BackfillDeployment, BackfillReconstructedRound};
use ore_stats::records::{default_source, DatabaseSizeRow, DetailedTableSizeRow, RoundInsert, RoundRow, ONE_ORE};
use ore_stats::rounds_admin::{
    page_offset, round_data_status, round_missing_deployments, round_with_data, rounds_page_limit, rounds_pagination,
    rounds_with_data_response,
};

fn row(total_deployed: u64) -> RoundRow {
    RoundRow {
        round_id: 11,
        start_slot: 1,
        end_slot: 2,
        winning_square: 4,
        top_miner: "t".to_string(),
        top_miner_reward: 0,
        total_deployed,
        total_vaulted: 0,
        total_winnings: 9,
        motherlode: 0,
        motherlode_hit: 0,
        total_deployments: 3,
        unique_miners: 2,
        source: "live".to_string(),
        created_at: 0,
    }
}

#[test]
fn admin_defaults() {
    assert_eq!((default_hours(), default_limit(), default_days(), default_logs_limit()), (24, 100, 7, 500));
    let q = RpcMetricsQuery::defaults();
    assert_eq!((q.hours, q.limit), (24, 100));
    assert_eq!(RpcDailyQuery::defaults().days, 7);
}

#[test]
fn pipeline_counts() {
    let s = pipeline_stats(1, 2, 10, 4, 3);
    assert_eq!((s.not_in_workflow, s.pending_txns, s.pending_reconstruct, s.pending_verify), (1, 2, 3, 3));
    assert_eq!((s.pending_finalize, s.complete), (0, 4));
    assert_eq!(pipeline_stats(0, 0, 5, 4, 3).pending_reconstruct, 0);
}

#[test]
fn blacklist_and_rebuilt_round_views() {
    let e = BlacklistEntryResponse {
        ip_address: "1.2.3.4".to_string(),
        reason: "r".to_string(),
        failed_attempts: 3,
        blocked_at: "now".to_string(),
        expires_at: None,
        created_by: None,
    };
    assert_eq!(BlacklistResponse::from_entries(vec![e]).total, 1);
    let round = BackfillReconstructedRound {
        round_id: 5,
        deployments: vec![BackfillDeployment { miner_pubkey: "m".to_string(), square_id: 1, amount: 2, deployed_slot: 3 }],
        winning_square: 1,
        top_miner: "m".to_string(),
        reconstructed_at_ms: 0,
        transaction_count: 8,
    };
    let info = ReconstructedRoundInfo::of(&round, "t0".to_string());
    assert_eq!((info.round_id, info.deployment_count, info.transaction_count), (5, 1, 8));
}

#[test]
fn storage_report_totals() {
    let dbs = vec![
        DatabaseSizeRow { database: "a".to_string(), bytes_on_disk: 100, total_rows: 10, table_count: 1 },
        DatabaseSizeRow { database: "b".to_string(), bytes_on_disk: 50, total_rows: 5, table_count: 2 },
    ];
    let tables = vec![DetailedTableSizeRow {
        database: "a".to_string(),
        table: "t".to_string(),
        bytes_on_disk: 100,
        bytes_uncompressed: 400,
        total_rows: 10,
        parts_count: 1,
        last_modified: 0,
    }];
    let t = storage_totals(&dbs, &tables, 1_000, &vec![3, 4]);
    assert_eq!((t.clickhouse_bytes, t.clickhouse_rows, t.clickhouse_bytes_uncompressed), (150, 15, 400));
    assert_eq!((t.postgres_bytes, t.postgres_rows), (1_000, 7));
    assert_eq!((t.total_bytes, t.total_rows), (1_150, 22));
}

#[test]
fn chart_windows_and_days() {
    assert_eq!((hourly_window(None), hourly_window(Some(10)), hourly_window(Some(9_999))), (24, 10, 720));
    assert_eq!((daily_window(None), daily_window(Some(400))), (30, 365));
    assert_eq!((direct_limit(None), direct_limit(Some(6_000)), direct_limit(Some(7))), (1000, 5000, 7));
    assert_eq!(day_timestamp(2), 172_800);
    let q = |end: Option<&str>| DirectQuery { start: None, end: end.map(|s| s.to_string()), limit: None };
    assert_eq!(q(None).end_round(), None);
    assert_eq!(q(Some("live")).end_round(), None);
    assert_eq!(q(Some("1234")).end_round(), Some(1234));
    assert_eq!(q(Some("12x")).end_round(), None);
    let r = RoundsDailyResponse::from_row(RoundsDailyRow {
        day: 19_000,
        rounds_count: 1,
        total_deployments: 2,
        unique_miners: 3,
        total_deployed: 4,
        total_vaulted: 5,
        total_winnings: 6,
        motherlode_hits: 7,
        total_motherlode: 8,
    });
    assert_eq!((r.day, r.rounds_count, r.total_motherlode), (1_641_600_000, 1, 8));
}

#[test]
fn stored_rounds_view() {
    assert_eq!((rounds_page_limit(None), rounds_page_limit(Some(500)), rounds_page_limit(Some(20))), (50, 200, 20));
    assert_eq!((page_offset(0, 50), page_offset(1, 50), page_offset(3, 50)), (0, 0, 100));
    assert_eq!(rounds_pagination(Some(77), Some(3), 50), (Some(77), None));
    assert_eq!(rounds_pagination(None, Some(3), 50), (None, Some(100)));
    assert_eq!(rounds_pagination(None, None, 50), (None, None));

    let s = round_data_status(11, true, 3, 90, 100);
    assert_eq!((s.is_valid, s.discrepancy), (false, 10));
    assert!(round_data_status(11, true, 3, 100, 100).is_valid);
    assert!(!round_data_status(11, false, 3, 100, 100).is_valid);
    assert!(!round_data_status(11, true, 0, 0, 0).is_valid);

    let w = round_with_data(row(100), 3, 100);
    assert!(w.is_valid);
    assert_eq!((w.round_id, w.deployment_count, w.discrepancy), (11, 3, 0));
    let missing = round_missing_deployments(row(100));
    assert_eq!((missing.is_valid, missing.discrepancy, missing.deployment_count), (false, 100, 0));
    assert!(round_missing_deployments(row(0)).is_valid);
    assert!(round_with_data(row(0), 0, 0).is_valid);
    assert!(!round_with_data(row(100), 3, 90).is_valid);

    let page = rounds_with_data_response(vec![round_with_data(row(1), 1, 1), round_missing_deployments(row(2))], true, None);
    assert_eq!((page.total, page.has_more, page.next_cursor), (2, true, Some(11)));
    assert_eq!(rounds_with_data_response(Vec::new(), true, Some(2)).next_cursor, None);
}

#[test]
fn backfill_round_rows() {
    let r = RoundInsert::from_backfill(3, 10, 20, 4, "t".to_string(), 100, 1, 2, 0, 5, 0);
    assert_eq!((r.round_id, r.expires_at, r.winning_square, r.top_miner_reward), (3, 216_020, 4, ONE_ORE));
    assert_eq!((r.motherlode_hit, r.total_deployments, r.unique_miners), (0, 0, 5));
    assert_eq!(r.source, "backfill");
    assert_eq!(r.rent_payer, "");
    assert_eq!(RoundInsert::from_backfill(3, u64::MAX, u64::MAX, 4, String::new(), 0, 0, 0, 1, 0, 0).expires_at, u64::MAX);
    assert_eq!(default_source(), "live");
}

#[test]
fn backfill_actions() {
    assert_eq!(parse_backfill_action("fetch_txns"), Some(BackfillAction::FetchTxns));
    assert_eq!(parse_backfill_action("reconstruct"), Some(BackfillAction::Reconstruct));
    assert_eq!(parse_backfill_action("finalize"), Some(BackfillAction::Finalize));
    assert_eq!(parse_backfill_action("verify"), None);
    assert_eq!(
        invalid_action_message("verify"),
        "Invalid action: verify. Valid: [\"fetch_txns\", \"reconstruct\", \"finalize\"]"
    );
    assert_eq!(invalid_action_message("x"), format!("Invalid action: x. Valid: {:?}", ["fetch_txns", "reconstruct", "finalize"]));
    assert_eq!(unknown_action_message("x"), "Unknown action: x");
}

#[test]
fn end_round_reads_numbers_as_u64_parsing_does() {
    let q = |end: &str| DirectQuery { start: None, end: Some(end.to_string()), limit: None }.end_round();
    assert_eq!(q("+42"), Some(42));
    assert_eq!(q("007"), Some(7));
    assert_eq!(q(""), None);
    assert_eq!(q("+"), None);
    assert_eq!(q("++1"), None);
    assert_eq!(q("-1"), None);
    assert_eq!(q(" 1"), None);
    assert_eq!(q("1+"), None);
    assert_eq!(q("18446744073709551615"), Some(u64::MAX));
    assert_eq!(q("18446744073709551616"), None);
    assert_eq!(q("99999999999999999999x"), None);
    assert_eq!(q("١٢"), None);
    for s in ["0", "+0", "123456789", "00000000000000000000000001"] {
        assert_eq!(q(s), s.parse::<u64>().ok());
    }
}
