use ore_stats::chain::RoundAccount;
use ore_stats::rewards::calculate_rewards;

fn round_with(square: usize, total: u64, top_reward: u64, motherlode: u64) -> RoundAccount {
    let mut deployed = [0u64; 25];
    deployed[square] = total;
    RoundAccount {
        id: 7,
        deployed,
        count: [0u64; 25],
        slot_hash: [0u8; 32],
        expires_at: 0,
        motherlode,
        top_miner: String::new(),
        top_miner_reward: top_reward,
        total_deployed: total,
        total_vaulted: 0,
        total_winnings: 0,
        total_miners: 0,
    }
}

#[test]
fn test_calculate_rewards() {
    // A miner with 1000 out of 10000 on the winning square gets 10% of the winnings.
    let round = round_with(3, 10_000, 100_000_000_000, 0);
    let (sol, ore) = calculate_rewards(1_000, &round, 3, 5_000_000, true, false);
    assert_eq!(sol, 500_000);
    assert_eq!(ore, 10_000_000_000);
}

#[test]
fn unsplit_top_reward_goes_to_top_miner_only() {
    let round = round_with(3, 10_000, 100_000_000_000, 0);
    assert_eq!(calculate_rewards(1_000, &round, 3, 0, false, true), (0, 100_000_000_000));
    assert_eq!(calculate_rewards(1_000, &round, 3, 0, false, false), (0, 0));
}

#[test]
fn motherlode_is_always_shared() {
    let round = round_with(0, 400, 100, 1_000);
    // 100 of 400: a quarter of the motherlode, nothing of the unsplit top reward.
    assert_eq!(calculate_rewards(100, &round, 0, 800, false, false), (200, 250));
    assert_eq!(calculate_rewards(100, &round, 0, 800, false, true), (200, 350));
}

#[test]
fn empty_winning_square_earns_nothing() {
    let round = round_with(0, 400, 100, 1_000);
    assert_eq!(calculate_rewards(100, &round, 1, 800, true, true), (0, 0));
}

#[test]
fn pro_rata_shares_round_down_and_stay_within_pool() {
    let round = round_with(2, 3, 10, 0);
    let a = calculate_rewards(1, &round, 2, 10, true, false);
    let b = calculate_rewards(2, &round, 2, 10, true, false);
    assert_eq!(a, (3, 3));
    assert_eq!(b, (6, 6));
    assert!(a.0 + b.0 <= 10);
}
