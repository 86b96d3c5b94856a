use ore_stats::chain::{BoardAccount, MinerAccount, RoundAccount, TreasuryAccount};
use ore_stats::live::{AppDeployment, AppMiner, AppRound, AutomationCache, BackfillTaskStatus, LiveRound, ResetRoundMeta};
use ore_stats::refined::{apply_refined_ore_fix, infer_refined_ore};
use ore_stats::storage::{CreateDeployment, CreateRound, CreateTreasury};

const ONE: i128 = 1 << 48;

fn miner(factor: i128, rewards_ore: u64, refined_ore: u64) -> MinerAccount {
    let mut deployed = [0u64; 25];
    deployed[0] = 5;
    deployed[24] = 7;
    MinerAccount {
        authority: "m".to_string(),
        deployed,
        cumulative: [0u64; 25],
        checkpoint_fee: 0,
        checkpoint_id: 3,
        last_claim_ore_at: 0,
        last_claim_sol_at: 0,
        rewards_factor_bits: factor,
        rewards_sol: 1,
        rewards_ore,
        refined_ore,
        round_id: 9,
        lifetime_rewards_sol: 0,
        lifetime_rewards_ore: 0,
    }
}

fn treasury(factor: i128) -> TreasuryAccount {
    TreasuryAccount {
        balance: 10,
        motherlode: 20,
        miner_rewards_factor_bits: factor,
        total_staked: 30,
        total_unclaimed: 40,
        total_refined: 50,
    }
}

fn round(slot_hash: [u8; 32]) -> RoundAccount {
    RoundAccount {
        id: 12,
        deployed: [1u64; 25],
        count: [2u64; 25],
        slot_hash,
        expires_at: 0,
        motherlode: 6,
        top_miner: "top".to_string(),
        top_miner_reward: 0,
        total_deployed: 25,
        total_vaulted: 3,
        total_winnings: 4,
        total_miners: 8,
    }
}

#[test]
fn refined_ore_accrues_from_factor() {
    assert_eq!(infer_refined_ore(&miner(ONE, 500, 100), &treasury(2 * ONE)), 600);
    assert_eq!(infer_refined_ore(&miner(2 * ONE, 500, 100), &treasury(ONE)), 100);
    assert_eq!(infer_refined_ore(&miner(ONE, 500, 100), &treasury(ONE + ONE / 2)), 350);
    let fixed = apply_refined_ore_fix(&miner(ONE, 500, 100), &treasury(2 * ONE));
    assert_eq!((fixed.refined_ore, fixed.rewards_ore, fixed.checkpoint_id), (600, 500, 3));
}

#[test]
fn live_round_and_slots_remaining() {
    let board = BoardAccount { round_id: 12, start_slot: 100, end_slot: 250 };
    let mut live = LiveRound::from_board_and_round(&board, &round([0u8; 32]));
    assert_eq!((live.round_id, live.start_slot, live.end_slot, live.unique_miners), (12, 100, 250, 8));
    live.update_slots_remaining(200);
    assert_eq!(live.slots_remaining, 50);
    live.update_slots_remaining(300);
    assert_eq!(live.slots_remaining, 0);
}

#[test]
fn app_views_of_accounts() {
    let m = AppMiner::from_account(&miner(0, 1, 2));
    assert_eq!(m.total_deployed, 12);
    assert_eq!(m.round_id, 9);

    let mut h = [0u8; 32];
    h[0] = 28;
    let settled = AppRound::from_round(&round(h), 77);
    assert_eq!((settled.round_id, settled.winning_square, settled.motherlode, settled.created_at), (12, 3, 6, 77));
    let open = AppRound::from_round(&round([0u8; 32]), 77);
    assert_eq!((open.winning_square, open.motherlode, open.total_deployed), (100, 0, 0));
    assert_eq!(open.top_miner, "11111111111111111111111111111111");

    let d = AppDeployment::new("p".to_string(), 4);
    assert_eq!((d.round_id, d.total_deployed, d.winner), (4, 0, false));
    assert!(d.deployments.iter().all(|s| s.amount == 0));
    let c = AutomationCache::new([9u8; 32]);
    assert!(!c.active);
    assert_eq!(c.executor, [0u8; 32]);
    assert_eq!(BackfillTaskStatus::default(), BackfillTaskStatus::Idle);
}

#[test]
fn stored_rows() {
    let d = CreateDeployment::from_deployment(AppDeployment::new("p".to_string(), 4));
    assert_eq!((d.round_id, d.pubkey.as_str(), d.total_sol_deployed), (4, "p", 0));
    let t = CreateTreasury::from_treasury(&treasury(0), 99);
    assert_eq!((t.balance, t.motherlode, t.total_refined, t.created_at), (10, 20, 50, 99));
    let mut h = [0u8; 32];
    h[0] = 28;
    let r = CreateRound::from_round(AppRound::from_round(&round(h), 5));
    assert_eq!((r.id, r.winning_square, r.total_winnings, r.created_at), (12, 3, 4, 5));
}

#[test]
fn external_round_to_stored_rows() {
    let meta = ResetRoundMeta {
        disc: 1,
        round_id: 42,
        start_slot: 10,
        end_slot: 20,
        winning_square: 7,
        top_miner: [1u8; 32],
        num_winners: 3,
        motherlode: 0,
        total_deployed: 900,
        total_vaulted: 90,
        total_winnings: 800,
        total_minted: 5,
        ts: 1_700_000_000,
    };
    let r = AppRound::from_reset_meta(&meta);
    assert_eq!((r.round_id, r.winning_square, r.total_deployed, r.created_at), (42, 7, 900, 1_700_000_000));
    assert_eq!(r.top_miner, "4vJ9JU1bJJE96FWSJKvHsmmFADCg4gpZQff4P3bkLKi");
    let insert = r.backfill_insert();
    assert_eq!((insert.round_id, insert.start_slot, insert.end_slot, insert.expires_at), (42, 0, 0, 216_000));
    assert_eq!((insert.winning_square, insert.total_winnings, insert.motherlode_hit), (7, 800, 0));
    assert_eq!(insert.source, "backfill");
}
