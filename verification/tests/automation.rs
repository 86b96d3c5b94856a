use ore_stats::automation::{
    count_squares, failed_detail, resolve_scan, reused_state, scan_stop_slot, scanned_state, AutomateOpen,
    AutomationScan, CalculatedDeploy, DeploymentAutomationStateRow, ProcessDetail, ProcessResultResponse,
    QueuedDeploy, process_step, ProcessAction, ProcessEvent, ProcessStage,
};

fn item() -> QueuedDeploy {
    QueuedDeploy {
        id: 1,
        round_id: 42,
        miner_pubkey: "miner".to_string(),
        authority_pubkey: "auth".to_string(),
        deploy_signature: "sig-d".to_string(),
        deploy_ix_index: 2,
        deploy_slot: 500,
    }
}

fn open() -> AutomateOpen {
    AutomateOpen {
        amount: 1_000,
        mask: 0b111,
        strategy: 1,
        fee: 50,
        executor: "exec".to_string(),
        signature: "sig-a".to_string(),
        ix_index: 0,
        slot: 400,
    }
}

fn stored(deploy_slot: u64) -> DeploymentAutomationStateRow {
    DeploymentAutomationStateRow {
        round_id: 41,
        miner_pubkey: "miner".to_string(),
        authority_pubkey: "auth".to_string(),
        deploy_signature: "old".to_string(),
        deploy_ix_index: 0,
        deploy_slot,
        automation_found: true,
        automation_active: true,
        automation_amount: 9,
        automation_mask: 1,
        automation_strategy: 2,
        automation_fee: 3,
        automation_executor: "e".to_string(),
        automate_signature: "s".to_string(),
        automate_ix_index: 1,
        automate_slot: 7,
        txns_searched: 10,
        pages_fetched: 1,
        fetch_duration_ms: 5,
        automation_balance: 77,
        is_partial_deploy: true,
        actual_squares_deployed: 1,
        actual_mask: 1,
        total_sol_spent: 12,
        created_at: 0,
    }
}

fn scan(deploys: Vec<CalculatedDeploy>, automate_open: Option<AutomateOpen>) -> AutomationScan {
    AutomationScan { calculated_deploys: deploys, automate_open, txns_searched: 30, pages_fetched: 2 }
}

#[test]
fn counting_squares() {
    assert_eq!(count_squares(0), 0);
    assert_eq!(count_squares(0b1011), 3);
    assert_eq!(count_squares(u64::MAX), 25);
}

#[test]
fn stop_slot_before_stored_deploy() {
    assert_eq!(scan_stop_slot(&None), None);
    assert_eq!(scan_stop_slot(&Some(stored(300))), Some(299));
    assert_eq!(scan_stop_slot(&Some(stored(0))), Some(0));
}

#[test]
fn reusing_a_stored_state() {
    let r = reused_state(&item(), &stored(300), 8);
    assert_eq!((r.round_id, r.deploy_slot, r.deploy_ix_index), (42, 500, 2));
    assert!(r.automation_found);
    assert_eq!((r.automation_amount, r.automation_balance, r.total_sol_spent), (9, 77, 12));
    assert_eq!((r.txns_searched, r.pages_fetched, r.fetch_duration_ms), (0, 0, 8));
}

#[test]
fn scan_outcome_precedence() {
    let calc = CalculatedDeploy {
        slot: 500,
        signature: "sig-d".to_string(),
        balance_before: 5_000,
        is_partial: true,
        actual_squares: 2,
        actual_mask: 0b11,
        total_spent: 2_050,
    };
    let o = resolve_scan(&item(), &scan(vec![calc], Some(open())), &None);
    assert!(o.found && o.active);
    assert_eq!((o.balance, o.actual_squares, o.total_spent, o.amount), (5_000, 2, 2_050, 1_000));
    assert_eq!(o.automate_signature, "sig-a");

    let o = resolve_scan(&item(), &scan(Vec::new(), Some(open())), &Some(stored(1)));
    assert_eq!((o.balance, o.actual_squares, o.actual_mask, o.total_spent), (0, 3, 0b111, 3_050));
    assert!(!o.is_partial);

    let o = resolve_scan(&item(), &scan(Vec::new(), None), &Some(stored(1)));
    assert!(o.found);
    assert_eq!((o.balance, o.amount, o.total_spent), (77, 9, 12));

    let o = resolve_scan(&item(), &scan(Vec::new(), None), &None);
    assert!(!o.found && !o.active);
    assert_eq!(o.total_spent, 0);
    assert_eq!(o.executor, "");
}

#[test]
fn scanned_state_records_the_scan() {
    let (ins, used_cache, cache_slot) = scanned_state(&item(), &scan(Vec::new(), None), &Some(stored(300)), 9);
    assert_eq!((ins.txns_searched, ins.pages_fetched, ins.fetch_duration_ms), (30, 2, 9));
    assert_eq!(ins.deploy_signature, "sig-d");
    assert!(used_cache);
    assert_eq!(cache_slot, Some(7));
    let (_, used_cache, cache_slot) = scanned_state(&item(), &scan(Vec::new(), Some(open())), &None, 9);
    assert!(!used_cache);
    assert_eq!(cache_slot, None);
}

#[test]
fn process_results() {
    let d = failed_detail(3, "sig".to_string(), "boom".to_string(), 4);
    assert!(!d.success);
    assert_eq!(d.error, Some("boom".to_string()));
    let ok = ProcessDetail {
        id: 1,
        deploy_signature: "a".to_string(),
        success: true,
        automation_found: true,
        automation_active: true,
        txns_searched: 1,
        duration_ms: 1,
        used_cache: false,
        cache_slot: None,
        error: None,
    };
    let r = ProcessResultResponse::from_details(vec![ok, d]);
    assert_eq!((r.processed, r.success, r.failed), (2, 1, 1));
}

#[test]
fn invalid_authority_fails_at_once() {
    let (stage, action) = process_step(
        &item(),
        ProcessStage::Start,
        ProcessEvent::AuthorityChecked { error: Some("bad base58".to_string()), duration_ms: 3 },
        false,
    );
    assert!(matches!(stage, ProcessStage::Finished));
    match action {
        ProcessAction::Fail { error, detail } => {
            assert_eq!(error, "Invalid authority: bad base58");
            assert_eq!(detail.error.as_deref(), Some("Invalid authority: bad base58"));
            assert!(!detail.success && !detail.automation_found && !detail.used_cache);
            assert_eq!((detail.id, detail.duration_ms, detail.deploy_signature.as_str()), (1, 3, "sig-d"));
        },
        other => panic!("unexpected {:?}", other),
    }
}

#[test]
fn reusable_state_is_stored_then_completed() {
    let (stage, action) = process_step(
        &item(),
        ProcessStage::Start,
        ProcessEvent::AuthorityChecked { error: None, duration_ms: 1 },
        false,
    );
    assert!(matches!(stage, ProcessStage::SeekingReusable) && matches!(action, ProcessAction::LookupReusable));
    let (stage, action) = process_step(
        &item(),
        stage,
        ProcessEvent::ReusableLookedUp { found: Some(stored(300)), duration_ms: 6 },
        false,
    );
    match &action {
        ProcessAction::Store { insert } => {
            assert!(insert.automation_found);
            assert_eq!(insert.txns_searched, 0);
            assert_eq!(insert.automate_slot, 7);
            assert_eq!(insert.deploy_slot, 500);
        },
        other => panic!("unexpected {:?}", other),
    }
    let (stage, action) = process_step(&item(), stage, ProcessEvent::Stored { error: None }, false);
    assert!(matches!(stage, ProcessStage::Finished));
    match action {
        ProcessAction::Complete { detail } => {
            assert!(detail.success && detail.automation_found && detail.automation_active && detail.used_cache);
            assert_eq!(detail.cache_slot, Some(7));
            assert_eq!((detail.txns_searched, detail.duration_ms), (0, 6));
            assert!(detail.error.is_none());
        },
        other => panic!("unexpected {:?}", other),
    }
}

#[test]
fn scan_from_fallback_then_store_failure() {
    let (stage, action) = process_step(
        &item(),
        ProcessStage::SeekingReusable,
        ProcessEvent::ReusableLookedUp { found: None, duration_ms: 1 },
        false,
    );
    assert!(matches!(stage, ProcessStage::SeekingFallback) && matches!(action, ProcessAction::LookupFallback));
    let (stage, action) = process_step(&item(), stage, ProcessEvent::FallbackLookedUp { found: Some(stored(300)) }, false);
    assert!(matches!(action, ProcessAction::Scan { stop_at_slot: Some(299) }));
    let (stage, action) = process_step(
        &item(),
        stage,
        ProcessEvent::Scanned { result: Ok(scan(Vec::new(), None)), duration_ms: 40 },
        false,
    );
    match &action {
        ProcessAction::Store { insert } => {
            assert!(insert.automation_found);
            assert_eq!(insert.automation_balance, 77);
            assert_eq!(insert.txns_searched, 30);
        },
        other => panic!("unexpected {:?}", other),
    }
    let (stage, action) = process_step(&item(), stage, ProcessEvent::Stored { error: Some("timeout".to_string()) }, false);
    assert!(matches!(stage, ProcessStage::Finished));
    match action {
        ProcessAction::Fail { error, detail } => {
            assert_eq!(error, "ClickHouse insert failed: timeout");
            assert!(!detail.success && detail.automation_found && detail.used_cache);
            assert_eq!(detail.cache_slot, Some(7));
            assert_eq!((detail.txns_searched, detail.duration_ms), (0, 40));
        },
        other => panic!("unexpected {:?}", other),
    }
}

#[test]
fn failed_scan_fails_the_deployment() {
    let (stage, action) = process_step(&item(), ProcessStage::SeekingFallback, ProcessEvent::FallbackLookedUp { found: None }, false);
    assert!(matches!(action, ProcessAction::Scan { stop_at_slot: None }));
    let (stage, action) = process_step(
        &item(),
        stage,
        ProcessEvent::Scanned { result: Err("429".to_string()), duration_ms: 9 },
        false,
    );
    assert!(matches!(stage, ProcessStage::Finished));
    match action {
        ProcessAction::Fail { error, detail } => {
            assert_eq!(error, "Helius error: 429");
            assert!(!detail.success && !detail.automation_found && detail.cache_slot.is_none());
            assert_eq!(detail.duration_ms, 9);
        },
        other => panic!("unexpected {:?}", other),
    }
}

#[test]
fn scan_with_open_automation_is_stored_without_cache() {
    let (stage, _) = process_step(&item(), ProcessStage::SeekingFallback, ProcessEvent::FallbackLookedUp { found: Some(stored(300)) }, false);
    let (stage, action) = process_step(
        &item(),
        stage,
        ProcessEvent::Scanned { result: Ok(scan(Vec::new(), Some(open()))), duration_ms: 12 },
        false,
    );
    match &action {
        ProcessAction::Store { insert } => {
            assert_eq!(insert.actual_squares_deployed, 3);
            assert_eq!(insert.total_sol_spent, 3_050);
        },
        other => panic!("unexpected {:?}", other),
    }
    match stage {
        ProcessStage::Storing { detail } => {
            assert!(detail.success && !detail.used_cache && detail.cache_slot.is_none());
            assert_eq!(detail.txns_searched, 30);
        },
        other => panic!("unexpected {:?}", other),
    }
}

#[test]
fn statistics_processor_keeps_searched_count_on_failed_store() {
    let (stage, _) = process_step(&item(), ProcessStage::SeekingFallback, ProcessEvent::FallbackLookedUp { found: None }, true);
    let (stage, _) = process_step(
        &item(),
        stage,
        ProcessEvent::Scanned { result: Ok(scan(Vec::new(), None)), duration_ms: 5 },
        true,
    );
    let (_, action) = process_step(&item(), stage, ProcessEvent::Stored { error: Some("down".to_string()) }, true);
    match action {
        ProcessAction::Fail { error, detail } => {
            assert_eq!(error, "ClickHouse insert failed: down");
            assert!(!detail.success && !detail.automation_found);
            assert_eq!(detail.txns_searched, 30);
        },
        other => panic!("unexpected {:?}", other),
    }
}
