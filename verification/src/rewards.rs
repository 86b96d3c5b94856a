//! Reward accounting for a settled round: what each deployment on the
//! winning square earns.

use vstd::prelude::*;
use crate::chain::RoundAccount;

verus! {

/// A pro-rata share of `pool` for `amount` out of `total`, rounded down and
/// kept to 64 bits.
pub open spec fn pro_rata(amount: u64, pool: u64, total: u64) -> u64 {
    ((amount as int * pool as int) / (total as int)) as u64
}

/// SOL earned by `amount` on the winning square: its pro-rata share of the
/// winnings.
pub open spec fn sol_reward(amount: u64, square_total: u64, total_winnings: u64) -> u64 {
    if square_total == 0 || total_winnings == 0 {
        0
    } else {
        pro_rata(amount, total_winnings, square_total)
    }
}

/// The part of the top-miner reward that `amount` earns: a pro-rata share
/// when the reward is split, all of it for the top miner otherwise.
pub open spec fn top_reward_part(
    amount: u64,
    square_total: u64,
    top_miner_reward: u64,
    is_split: bool,
    is_top_miner: bool,
) -> int {
    if is_split {
        pro_rata(amount, top_miner_reward, square_total) as int
    } else if is_top_miner {
        top_miner_reward as int
    } else {
        0
    }
}

/// The part of the motherlode that `amount` earns: always a pro-rata share.
pub open spec fn motherlode_part(amount: u64, square_total: u64, motherlode: u64) -> int {
    if motherlode > 0 {
        pro_rata(amount, motherlode, square_total) as int
    } else {
        0
    }
}

/// ORE earned by `amount` on the winning square.
pub open spec fn ore_reward(
    amount: u64,
    square_total: u64,
    top_miner_reward: u64,
    motherlode: u64,
    is_split: bool,
    is_top_miner: bool,
) -> int {
    if square_total == 0 {
        0
    } else {
        top_reward_part(amount, square_total, top_miner_reward, is_split, is_top_miner)
            + motherlode_part(amount, square_total, motherlode)
    }
}

proof fn lemma_product_fits(a: u64, b: u64)
    ensures
        0 <= a as int * b as int <= u128::MAX,
{
    assert(a as int * b as int <= 0xffff_ffff_ffff_ffff * 0xffff_ffff_ffff_ffff) by (nonlinear_arith)
        requires
            a <= 0xffff_ffff_ffff_ffff,
            b <= 0xffff_ffff_ffff_ffff,
    ;
    assert(0 <= a as int * b as int) by (nonlinear_arith);
}

/// `pro_rata` computed in 128 bits.
fn share(amount: u64, pool: u64, total: u64) -> (s: u64)
    requires
        total > 0,
    ensures
        s == pro_rata(amount, pool, total),
{
    proof {
        lemma_product_fits(amount, pool);
    }
    (amount as u128 * pool as u128 / total as u128) as u64
}

/// Rewards of a deployment of `amount` on the winning square, as
/// `(sol, ore)`. SOL is a pro-rata share of the winnings. The top-miner
/// reward goes to all winners pro rata when it is split and to the top miner
/// alone otherwise; the motherlode, when hit, is always shared pro rata.
pub fn calculate_rewards(
    amount: u64,
    round: &RoundAccount,
    winning_square: u8,
    total_winnings: u64,
    is_split: bool,
    is_this_top_miner: bool,
) -> (r: (u64, u64))
    requires
        winning_square < 25,
        ore_reward(
            amount,
            round.deployed@[winning_square as int],
            round.top_miner_reward,
            round.motherlode,
            is_split,
            is_this_top_miner,
        ) <= u64::MAX,
    ensures
        r.0 == sol_reward(amount, round.deployed@[winning_square as int], total_winnings),
        r.1 == ore_reward(
            amount,
            round.deployed@[winning_square as int],
            round.top_miner_reward,
            round.motherlode,
            is_split,
            is_this_top_miner,
        ),
{
    let square_total = round.deployed[winning_square as usize];
    if square_total == 0 {
        return (0, 0);
    }
    let sol_share = if total_winnings > 0 {
        share(amount, total_winnings, square_total)
    } else {
        0
    };
    let mut ore_share: u64 = 0;
    if is_split {
        ore_share = share(amount, round.top_miner_reward, square_total);
    } else if is_this_top_miner {
        ore_share = round.top_miner_reward;
    }
    if round.motherlode > 0 {
        let part = share(amount, round.motherlode, square_total);
        ore_share = ore_share + part;
    }
    (sol_share, ore_share)
}

/// Sum of the amounts in `s`.
pub open spec fn amount_sum(s: Seq<u64>) -> int
    decreases s.len(),
{
    if s.len() == 0 {
        0
    } else {
        amount_sum(s.drop_last()) + s.last()
    }
}

/// Sum of the pro-rata shares of `pool` for each amount in `s` out of `total`.
pub open spec fn share_sum(s: Seq<u64>, pool: u64, total: u64) -> int
    decreases s.len(),
{
    if s.len() == 0 {
        0
    } else {
        share_sum(s.drop_last(), pool, total) + pro_rata(s.last(), pool, total)
    }
}

proof fn lemma_one_share(a: u64, p: u64, t: u64)
    requires
        0 < t,
        a <= t,
    ensures
        pro_rata(a, p, t) as int * t <= a as int * p as int,
{
    let x = a as int * p as int;
    assert(x / (t as int) <= p as int) by (nonlinear_arith)
        requires
            x == a as int * p as int,
            a <= t,
            0 < t,
            0 <= p,
    ;
    assert(0 <= x / (t as int)) by (nonlinear_arith)
        requires
            x == a as int * p as int,
            0 < t,
            0 <= p,
            0 <= a,
    ;
    assert((x / (t as int)) * t <= x) by (nonlinear_arith)
        requires
            0 < t,
            0 <= x,
    ;
}

proof fn lemma_share_sum_scaled(s: Seq<u64>, p: u64, t: u64)
    requires
        0 < t,
        amount_sum(s) <= t,
    ensures
        0 <= amount_sum(s),
        share_sum(s, p, t) * t <= amount_sum(s) * p,
    decreases s.len(),
{
    if s.len() > 0 {
        let init = s.drop_last();
        lemma_amount_sum_nonneg(init);
        lemma_share_sum_scaled(init, p, t);
        lemma_one_share(s.last(), p, t);
        assert(share_sum(s, p, t) * t == share_sum(init, p, t) * t + pro_rata(s.last(), p, t) * t)
            by (nonlinear_arith)
            requires
                share_sum(s, p, t) == share_sum(init, p, t) + pro_rata(s.last(), p, t),
        ;
        assert(amount_sum(s) * p == amount_sum(init) * p + s.last() * p) by (nonlinear_arith)
            requires
                amount_sum(s) == amount_sum(init) + s.last(),
        ;
    }
}

proof fn lemma_amount_sum_nonneg(s: Seq<u64>)
    ensures
        0 <= amount_sum(s),
    decreases s.len(),
{
    if s.len() > 0 {
        lemma_amount_sum_nonneg(s.drop_last());
    }
}

/// Pro-rata shares never pay out more than the pool: when the amounts on the
/// winning square add up to its total, their shares of any pool (winnings,
/// top-miner reward, motherlode) add up to at most the pool.
pub proof fn lemma_pro_rata_shares_within_pool(amounts: Seq<u64>, pool: u64, total: u64)
    requires
        total > 0,
        amount_sum(amounts) == total,
    ensures
        share_sum(amounts, pool, total) <= pool,
{
    lemma_share_sum_scaled(amounts, pool, total);
    assert(share_sum(amounts, pool, total) <= pool) by (nonlinear_arith)
        requires
            share_sum(amounts, pool, total) * total <= total * pool,
            0 < total,
    ;
}

} // verus!
