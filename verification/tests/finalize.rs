use ore_stats::chain::{MinerAccount, RoundAccount, TreasuryAccount};
use ore_stats::finalize::{
    calculate_optimistic_top_miner, combine_deployments, finalization_poll, finalized_deployments, has_slot_hash,
    has_top_miner, miner_snapshots, miners_of_round, mint_snapshot, partial_round, resolve_finalization_timeout,
    treasury_snapshot, winning_square_or_unknown, finalize_settled_round, FinalizationPoll, MinerSquares, RoundSnapshot, SquareEntry,
};

const DEFAULT_KEY: &str = "11111111111111111111111111111111";
const KEY1: &str = "4vJ9JU1bJJE96FWSJKvHsmmFADCg4gpZQff4P3bkLKi";
const KEY2: &str = "8qbHbw2BbbTHBW1sbeqakYXVKRQM8Ne7pLK7m6CVfeR";

fn miner(authority: &str, round_id: u64, stakes: &[(usize, u64, u64)]) -> MinerAccount {
    let mut deployed = [0u64; 25];
    let mut cumulative = [0u64; 25];
    for &(sq, amount, before) in stakes {
        deployed[sq] = amount;
        cumulative[sq] = before;
    }
    MinerAccount {
        authority: authority.to_string(),
        deployed,
        cumulative,
        checkpoint_fee: 0,
        checkpoint_id: 0,
        last_claim_ore_at: 0,
        last_claim_sol_at: 0,
        rewards_factor_bits: 0,
        rewards_sol: 11,
        rewards_ore: 22,
        refined_ore: 33,
        round_id,
        lifetime_rewards_sol: 44,
        lifetime_rewards_ore: 55,
    }
}

fn treasury() -> TreasuryAccount {
    TreasuryAccount {
        balance: 1,
        motherlode: 2,
        miner_rewards_factor_bits: 0,
        total_staked: 3,
        total_unclaimed: 4,
        total_refined: 5,
    }
}

/// A round whose slot hash gives the random value 28, so square 3 wins.
fn round(top_miner: &str) -> RoundAccount {
    let mut slot_hash = [0u8; 32];
    slot_hash[0] = 28;
    let mut deployed = [0u64; 25];
    deployed[3] = 4_000;
    deployed[5] = 200;
    RoundAccount {
        id: 7,
        deployed,
        count: [0u64; 25],
        slot_hash,
        expires_at: 0,
        motherlode: 0,
        top_miner: top_miner.to_string(),
        top_miner_reward: 100_000_000_000,
        total_deployed: 4_200,
        total_vaulted: 0,
        total_winnings: 8_000,
        total_miners: 2,
    }
}

fn snapshot(miners: Vec<MinerAccount>, deployments: Vec<MinerSquares>) -> RoundSnapshot {
    RoundSnapshot {
        round_id: 7,
        start_slot: 100,
        end_slot: 250,
        deployments,
        miners: miners.iter().map(|m| m.copy()).collect(),
        all_miners: miners,
        treasury: treasury(),
        round: round(DEFAULT_KEY),
        mint_supply: None,
        captured_at: 0,
        gpa_failed: false,
    }
}

#[test]
fn mint_snapshot_change() {
    let s = mint_snapshot(5, 1_000, 900);
    assert_eq!((s.round_id, s.supply, s.decimals, s.supply_change), (5, 1_000, 11, 100));
    assert_eq!(mint_snapshot(5, 1_000, 0).supply_change, 0);
    assert_eq!(mint_snapshot(5, 900, 1_000).supply_change, -100);
}

#[test]
fn deployments_with_rewards() {
    let a = miner(KEY1, 7, &[(3, 1_000, 0), (5, 200, 0)]);
    let b = miner(KEY2, 7, &[(3, 3_000, 1_000)]);
    let stale = miner(DEFAULT_KEY, 6, &[(3, 9, 0)]);
    let ws = vec![MinerSquares { miner: KEY1.to_string(), squares: vec![SquareEntry { square: 3, amount: 1_000, slot: 111 }] }];
    let snap = snapshot(vec![a, b, stale], ws);
    let (records, unique) = finalized_deployments(&snap, &round(KEY1), 3, false);
    assert_eq!(unique, 2);
    assert_eq!(records.len(), 3);
    assert_eq!((records[0].square_id, records[0].amount, records[0].deployed_slot), (3, 1_000, 111));
    assert_eq!((records[0].sol_earned, records[0].ore_earned), (2_000, 100_000_000_000));
    assert_eq!((records[0].is_winner, records[0].is_top_miner), (1, 1));
    assert_eq!((records[1].square_id, records[1].sol_earned, records[1].is_winner), (5, 0, 0));
    assert_eq!(records[1].deployed_slot, 0);
    assert_eq!((records[2].miner_pubkey.as_str(), records[2].sol_earned, records[2].ore_earned), (KEY2, 6_000, 0));

    let (split, _) = finalized_deployments(&snap, &round(KEY1), 3, true);
    assert_eq!(split[0].ore_earned, 25_000_000_000);
    assert_eq!(split[2].ore_earned, 75_000_000_000);
}

#[test]
fn combined_deployments_take_amounts_from_accounts() {
    let a = miner(KEY1, 7, &[(3, 1_000, 0), (5, 200, 0)]);
    let idle = miner(KEY2, 7, &[]);
    let ws = vec![MinerSquares { miner: KEY1.to_string(), squares: vec![SquareEntry { square: 5, amount: 1, slot: 150 }] }];
    let r = combine_deployments(&vec![a, idle], &ws, 100);
    assert_eq!(r.len(), 1);
    assert_eq!(r[0].miner, KEY1);
    assert_eq!(r[0].squares.len(), 2);
    assert_eq!((r[0].squares[0].square, r[0].squares[0].amount, r[0].squares[0].slot), (3, 1_000, 100));
    assert_eq!((r[0].squares[1].square, r[0].squares[1].amount, r[0].squares[1].slot), (5, 200, 150));
}

#[test]
fn polling_until_ready() {
    let mut r = round(DEFAULT_KEY);
    assert!(has_slot_hash(&r));
    assert!(!has_top_miner(&r));
    assert!(matches!(finalization_poll(&r), FinalizationPoll::Wait));
    r.top_miner = KEY1.to_string();
    assert!(matches!(finalization_poll(&r), FinalizationPoll::Ready));
    r.slot_hash = [0u8; 32];
    assert!(!has_slot_hash(&r));
    assert!(matches!(finalization_poll(&r), FinalizationPoll::Wait));
}

#[test]
fn optimistic_top_miner_from_ranges() {
    let a = miner(KEY1, 7, &[(3, 1_000, 0)]);
    let b = miner(KEY2, 7, &[(3, 3_000, 1_000)]);
    let snap = snapshot(vec![a, b], Vec::new());
    let found = calculate_optimistic_top_miner(&round(DEFAULT_KEY), &snap);
    let expected = [bs58::decode(KEY1).into_vec().unwrap(), bs58::decode(KEY2).into_vec().unwrap()];
    let k = found.expect("a miner covers every sample").to_vec();
    assert!(expected.contains(&k));

    let mut empty_square = round(DEFAULT_KEY);
    empty_square.deployed[3] = 0;
    assert!(calculate_optimistic_top_miner(&empty_square, &snap).is_none());
    let mut unsettled = round(DEFAULT_KEY);
    unsettled.slot_hash = [0u8; 32];
    assert!(calculate_optimistic_top_miner(&unsettled, &snap).is_none());
}

#[test]
fn timeout_uses_last_round_with_slot_hash() {
    let snap = snapshot(vec![miner(KEY1, 7, &[(3, 4_000, 0)])], Vec::new());
    assert!(resolve_finalization_timeout(None, &snap).is_err());
    let out = resolve_finalization_timeout(Some(round(DEFAULT_KEY)), &snap).unwrap();
    assert_eq!(out.id, 7);
    assert_eq!(out.top_miner, KEY1);
}

#[test]
fn snapshots_of_miners_and_treasury() {
    let all = vec![miner(KEY1, 7, &[]), miner(KEY2, 6, &[])];
    let mine = miners_of_round(&all, 7);
    assert_eq!(mine.len(), 1);
    assert_eq!(mine[0].authority, KEY1);
    let snaps = miner_snapshots(7, &all);
    assert_eq!(snaps.len(), 2);
    assert_eq!((snaps[1].round_id, snaps[1].unclaimed_ore, snaps[1].refined_ore), (7, 22, 33));
    assert_eq!((snaps[1].lifetime_sol, snaps[1].lifetime_ore), (44, 55));
    let t = treasury_snapshot(9, &treasury());
    assert_eq!((t.round_id, t.balance, t.motherlode, t.total_staked, t.total_unclaimed, t.total_refined), (9, 1, 2, 3, 4, 5));
}

#[test]
fn winning_square_and_partial_round() {
    let mut h = [0u8; 32];
    assert_eq!(winning_square_or_unknown(h), 255);
    h[0] = 28;
    assert_eq!(winning_square_or_unknown(h), 3);
    assert_eq!(winning_square_or_unknown([0xffu8; 32]), 255);
    let snap = snapshot(vec![miner(KEY1, 7, &[(3, 1_000, 0)])], Vec::new());
    let p = partial_round(&snap, &round(DEFAULT_KEY), "timeout".to_string());
    assert_eq!((p.round_id, p.start_slot, p.end_slot, p.winning_square), (7, 100, 250, 3));
    assert_eq!(p.failure_reason, "timeout");
    assert_eq!(p.total_winnings, 8_000);
}

#[test]
fn deployments_are_stored_only_when_the_miner_listing_succeeded() {
    let a = miner(KEY1, 7, &[(3, 1_000, 0)]);
    let mut snap = snapshot(vec![a], Vec::new());
    let ok = finalize_settled_round(&snap, &round(KEY1), 28);
    assert!(ok.store_deployments);
    assert_eq!(ok.winning_square, 3);
    assert_eq!(ok.deployments.len(), 1);
    assert_eq!(ok.round.total_deployments, 1);
    snap.gpa_failed = true;
    let failed = finalize_settled_round(&snap, &round(KEY1), 28);
    assert!(!failed.store_deployments);
    assert_eq!(failed.round.total_deployments, 1);
    assert_eq!(failed.round.unique_miners, 1);
}
