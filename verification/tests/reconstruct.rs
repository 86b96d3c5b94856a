use ore_stats::live::AppRound;
use ore_stats::reconstruct::{
    missing_rounds_on_page,
    aggregate_deployments, backfill_rows, page_holds_round, page_step, target_page, BackfillDeployment,
    BackfillReconstructedCache, BackfillReconstructedRound, PageStep, ParsedDeployment,
};

fn squares(list: &[usize]) -> [bool; 25] {
    let mut s = [false; 25];
    for &i in list {
        s[i] = true;
    }
    s
}

#[test]
fn aggregate_sums_amounts_and_keeps_earliest_slot() {
    let pds = vec![
        ParsedDeployment { authority: "alice".to_string(), squares: squares(&[1, 2]), amount_per_square: 10, slot: 50 },
        ParsedDeployment { authority: "bob".to_string(), squares: squares(&[2]), amount_per_square: 7, slot: 40 },
        ParsedDeployment { authority: "alice".to_string(), squares: squares(&[2]), amount_per_square: 5, slot: 30 },
    ];
    let r = aggregate_deployments(&pds);
    assert_eq!(r.len(), 3);
    let alice2 = r.iter().find(|d| d.miner_pubkey == "alice" && d.square_id == 2).unwrap();
    assert_eq!(alice2.amount, 15);
    assert_eq!(alice2.deployed_slot, 30);
    let alice1 = r.iter().find(|d| d.miner_pubkey == "alice" && d.square_id == 1).unwrap();
    assert_eq!(alice1.amount, 10);
    let bob = r.iter().find(|d| d.miner_pubkey == "bob").unwrap();
    assert_eq!((bob.square_id, bob.amount, bob.deployed_slot), (2, 7, 40));
    assert!(aggregate_deployments(&Vec::new()).is_empty());
}

#[test]
fn backfill_rows_flag_winners_and_top_miner() {
    let ds = vec![
        BackfillDeployment { miner_pubkey: "alice".to_string(), square_id: 3, amount: 10, deployed_slot: 1 },
        BackfillDeployment { miner_pubkey: "bob".to_string(), square_id: 4, amount: 20, deployed_slot: 2 },
    ];
    let rows = backfill_rows(9, &ds, 3, &"alice".to_string());
    assert_eq!(rows.len(), 2);
    assert_eq!((rows[0].round_id, rows[0].is_winner, rows[0].is_top_miner), (9, 1, 1));
    assert_eq!((rows[1].is_winner, rows[1].is_top_miner, rows[1].amount), (0, 0, 20));
    assert_eq!(rows[1].ore_earned, 0);
}

#[test]
fn cache_insert_get_remove() {
    let mut c = BackfillReconstructedCache::new();
    let round = |id: u64| BackfillReconstructedRound {
        round_id: id,
        deployments: Vec::new(),
        winning_square: 1,
        top_miner: "t".to_string(),
        reconstructed_at_ms: 0,
        transaction_count: 3,
    };
    c.insert(round(5));
    c.insert(round(6));
    assert_eq!(c.len(), 2);
    assert_eq!(c.get(5).unwrap().transaction_count, 3);
    assert!(c.remove(5).is_some());
    assert!(!c.contains(5));
    assert!(c.contains(6));
    assert!(c.remove(5).is_none());
}

#[test]
fn target_page_holds_round() {
    assert_eq!(target_page(1000, 1000, 100), 0);
    assert_eq!(target_page(1000, 901, 100), 0);
    assert_eq!(target_page(1000, 900, 100), 1);
    assert_eq!(target_page(1000, 2000, 100), 0);
    // Page 1 runs from 900 down to 801.
    let p = target_page(1000, 850, 100) as u64;
    let first = 1000 - p * 100;
    assert!(first - 99 <= 850 && 850 <= first);
}

#[test]
fn page_steps() {
    assert!(matches!(page_step(2, 500, 700, 601), PageStep::Later(3)));
    assert!(matches!(page_step(2, 800, 700, 601), PageStep::Earlier(1)));
    assert!(matches!(page_step(0, 800, 700, 601), PageStep::NotFound));
    assert!(matches!(page_step(2, 650, 700, 601), PageStep::OnPage));
    assert!(page_holds_round(&vec![3, 4, 5], 4));
    assert!(!page_holds_round(&vec![3, 4, 5], 6));
}

#[test]
fn rounds_of_a_page_to_store() {
    let round = |id: i64| AppRound {
        round_id: id,
        winning_square: 1,
        motherlode: 0,
        top_miner: String::new(),
        total_deployed: 0,
        total_vaulted: 0,
        total_winnings: 0,
        created_at: 0,
    };
    let page = vec![round(105), round(104), round(103), round(102), round(101)];
    let stored = vec![false, true, false, false, true];
    let (store, skipped) = missing_rounds_on_page(&page, 102, &stored);
    assert_eq!(store, vec![0usize, 2]);
    assert_eq!(skipped, 1);
}

use ore_stats::reconstruct::{BackfillAction, BackfillEnd, BackfillEvent, BackfillRun, BackfillStage};

fn ids(hi: u64, lo: u64) -> Vec<u64> {
    (lo..=hi).rev().collect()
}

fn fetched(round_ids: Vec<u64>) -> BackfillEvent {
    BackfillEvent::PageFetched { round_ids }
}

#[test]
fn backfill_run_finds_a_round_two_pages_down() {
    let (mut run, action) = BackfillRun::new(100, 50);
    assert!(matches!(action, BackfillAction::FetchPage { page: 0 }));
    let a = run.step(fetched(ids(1000, 991)), false);
    assert!(matches!(a, BackfillAction::StorePage));
    assert_eq!((run.highest_round, run.per_page, run.pages_fetched), (1000, 10, 1));
    assert_eq!(run.estimated_total_rounds(), Some(900));
    let a = run.step(BackfillEvent::PageStored, false);
    assert!(matches!(a, BackfillAction::FindMissing { above: 100, to: 1000 }));
    let a = run.step(BackfillEvent::MissingLookedUp { result: Ok(Some(975)) }, false);
    assert!(matches!(a, BackfillAction::FetchPage { page: 2 }));
    let a = run.step(fetched(ids(980, 971)), false);
    assert!(matches!(a, BackfillAction::StorePage));
    assert!(matches!(run.stage, BackfillStage::StoringFound { round: 975, listed: true }));
    let a = run.step(BackfillEvent::PageStored, false);
    assert!(matches!(a, BackfillAction::FindMissing { .. }));
    let a = run.step(BackfillEvent::MissingLookedUp { result: Ok(None) }, false);
    assert!(matches!(a, BackfillAction::Finish { end: BackfillEnd::Completed }));
    assert!(run.skipped.is_empty());
}

#[test]
fn backfill_run_moves_toward_the_round_and_gives_up_on_gaps() {
    let (mut run, _) = BackfillRun::new(0, 50);
    run.step(fetched(ids(1000, 991)), false);
    run.step(BackfillEvent::PageStored, false);
    let a = run.step(BackfillEvent::MissingLookedUp { result: Ok(Some(975)) }, false);
    assert!(matches!(a, BackfillAction::FetchPage { page: 2 }));
    // The page holds lower rounds than expected: look at the earlier page.
    let a = run.step(fetched(ids(970, 961)), false);
    assert!(matches!(a, BackfillAction::FetchPage { page: 1 }));
    // In range but not listed: a gap in the external API.
    let mut page = ids(985, 976);
    page.push(974);
    let a = run.step(fetched(page), false);
    assert!(matches!(a, BackfillAction::StorePage));
    let a = run.step(BackfillEvent::PageStored, false);
    assert!(matches!(a, BackfillAction::FindMissing { .. }));
    assert_eq!(run.skipped, vec![975]);
    assert_eq!(run.rounds_not_in_external_api, 1);
    // An empty page gives the round up too.
    run.step(BackfillEvent::MissingLookedUp { result: Ok(Some(960)) }, false);
    let a = run.step(fetched(Vec::new()), false);
    assert!(matches!(a, BackfillAction::FindMissing { .. }));
    assert_eq!(run.skipped, vec![975, 960]);
    assert_eq!(run.rounds_not_in_external_api, 2);
}

#[test]
fn backfill_run_gives_up_after_ten_pages() {
    let (mut run, _) = BackfillRun::new(0, 1_000);
    run.step(fetched(ids(1000, 991)), false);
    run.step(BackfillEvent::PageStored, false);
    let mut a = run.step(BackfillEvent::MissingLookedUp { result: Ok(Some(975)) }, false);
    let mut fetches = 0;
    while let BackfillAction::FetchPage { .. } = a {
        fetches += 1;
        // Every page lists only higher rounds.
        a = run.step(fetched(ids(2000, 1991)), false);
    }
    assert_eq!(fetches, 10);
    assert!(matches!(a, BackfillAction::FindMissing { .. }));
    assert_eq!(run.skipped, vec![975]);
    assert_eq!(run.pages_fetched, 11);
}

#[test]
fn backfill_run_ends_on_cancel_empty_first_page_limit_and_errors() {
    let (mut run, _) = BackfillRun::new(0, 5);
    match run.step(fetched(Vec::new()), false) {
        BackfillAction::Finish { end: BackfillEnd::Failed(m) } => assert_eq!(m, "External API returned empty first page"),
        other => panic!("unexpected {:?}", other),
    }
    let (mut run, _) = BackfillRun::new(0, 5);
    run.step(fetched(ids(10, 1)), false);
    assert!(matches!(run.step(BackfillEvent::PageStored, true), BackfillAction::Finish { end: BackfillEnd::Cancelled }));
    let (mut run, _) = BackfillRun::new(0, 1);
    run.step(fetched(ids(10, 1)), false);
    assert!(matches!(run.step(BackfillEvent::PageStored, false), BackfillAction::Finish { end: BackfillEnd::Completed }));
    let (mut run, _) = BackfillRun::new(0, 5);
    run.step(fetched(ids(10, 1)), false);
    run.step(BackfillEvent::PageStored, false);
    match run.step(BackfillEvent::MissingLookedUp { result: Err("timeout".to_string()) }, false) {
        BackfillAction::Finish { end: BackfillEnd::Failed(m) } => assert_eq!(m, "ClickHouse query failed: timeout"),
        other => panic!("unexpected {:?}", other),
    }
    let (mut run, _) = BackfillRun::new(0, 5);
    run.step(fetched(ids(10, 1)), false);
    run.step(BackfillEvent::PageStored, false);
    let a = run.step(BackfillEvent::MissingLookedUp { result: Ok(Some(5)) }, true);
    assert!(matches!(a, BackfillAction::Finish { end: BackfillEnd::Cancelled }));
}

#[test]
fn backfill_round_above_page_zero_is_given_up() {
    let (mut run, _) = BackfillRun::new(0, 50);
    run.step(fetched(ids(1000, 991)), false);
    run.step(BackfillEvent::PageStored, false);
    run.step(BackfillEvent::MissingLookedUp { result: Ok(Some(1005)) }, false);
    let a = run.step(fetched(ids(1000, 991)), false);
    assert!(matches!(a, BackfillAction::FindMissing { .. }));
    assert_eq!(run.skipped, vec![1005]);
}
