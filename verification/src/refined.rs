//! Up-to-date refined ORE of a miner: the stored value is stale until the
//! miner interacts, so the rewards accrued since then are added from the
//! treasury's rewards factor.

use vstd::prelude::*;
use crate::chain::{MinerAccount, TreasuryAccount};

verus! {

/// One in the 80.48 fixed-point representation of the program's factors.
pub open spec fn fixed_one() -> int {
    0x1_0000_0000_0000
}

/// Fixed-point product of two 80.48 values given by their bits, rounded
/// down.
pub open spec fn fixed_mul(a: int, b: int) -> int {
    (a * b) / fixed_one()
}

/// `Numeric::sub`: difference of two fixed-point values, by their bits.
#[verifier::external_body]
fn numeric_sub(a: i128, b: i128) -> (r: i128)
    requires
        i128::MIN <= a - b <= i128::MAX,
    ensures
        r == a - b,
{
    let x: steel::Numeric = bytemuck::cast(a.to_le_bytes());
    let y: steel::Numeric = bytemuck::cast(b.to_le_bytes());
    i128::from_le_bytes(bytemuck::cast(x - y))
}

/// `Numeric::from_u64`: the fixed-point value of an integer, by its bits.
#[verifier::external_body]
fn numeric_from_u64(v: u64) -> (r: i128)
    ensures
        r == v * fixed_one(),
{
    i128::from_le_bytes(bytemuck::cast(steel::Numeric::from_u64(v)))
}

/// `Numeric::mul`: product of two fixed-point values, by their bits (the
/// wide product shifted back, i.e. rounded down).
#[verifier::external_body]
fn numeric_mul(a: i128, b: i128) -> (r: i128)
    requires
        i128::MIN <= fixed_mul(a as int, b as int) <= i128::MAX,
    ensures
        r == fixed_mul(a as int, b as int),
{
    let x: steel::Numeric = bytemuck::cast(a.to_le_bytes());
    let y: steel::Numeric = bytemuck::cast(b.to_le_bytes());
    i128::from_le_bytes(bytemuck::cast(x * y))
}

/// `Numeric::to_u64`: the integer part of a fixed-point value (rounded
/// down), by its bits.
#[verifier::external_body]
fn numeric_to_u64(a: i128) -> (r: u64)
    requires
        0 <= (a as int) / fixed_one() <= u64::MAX,
    ensures
        r == (a as int) / fixed_one(),
{
    let x: steel::Numeric = bytemuck::cast(a.to_le_bytes());
    x.to_u64()
}

/// The factor difference, treasury minus miner.
pub open spec fn factor_delta(miner: MinerAccount, treasury: TreasuryAccount) -> int {
    treasury.miner_rewards_factor_bits - miner.rewards_factor_bits
}

/// ORE accrued since the miner's last checkpoint.
pub open spec fn accrued_ore(miner: MinerAccount, treasury: TreasuryAccount) -> int {
    fixed_mul(factor_delta(miner, treasury), miner.rewards_ore * fixed_one()) / fixed_one()
}

/// The inferred refined ORE: the stored value when the factor went
/// backwards, otherwise the stored value plus what accrued, capped at the
/// largest `u64`.
pub open spec fn inferred_refined_ore(miner: MinerAccount, treasury: TreasuryAccount) -> int {
    if factor_delta(miner, treasury) < 0 {
        miner.refined_ore as int
    } else if miner.refined_ore + accrued_ore(miner, treasury) > u64::MAX {
        u64::MAX as int
    } else {
        miner.refined_ore + accrued_ore(miner, treasury)
    }
}

/// The fixed-point arithmetic stays within its 128-bit and 64-bit ranges.
pub open spec fn refined_arith_fits(miner: MinerAccount, treasury: TreasuryAccount) -> bool {
    &&& i128::MIN <= factor_delta(miner, treasury) <= i128::MAX
    &&& factor_delta(miner, treasury) >= 0 ==> {
        &&& fixed_mul(factor_delta(miner, treasury), miner.rewards_ore * fixed_one()) <= i128::MAX
        &&& accrued_ore(miner, treasury) <= u64::MAX
    }
}

/// Infer the up-to-date refined ORE of a miner from the treasury's rewards
/// factor.
pub fn infer_refined_ore(miner: &MinerAccount, treasury: &TreasuryAccount) -> (r: u64)
    requires
        refined_arith_fits(*miner, *treasury),
    ensures
        r == inferred_refined_ore(*miner, *treasury),
{
    let delta = numeric_sub(treasury.miner_rewards_factor_bits, miner.rewards_factor_bits);
    if delta < 0 {
        return miner.refined_ore;
    }
    let rewards = numeric_from_u64(miner.rewards_ore);
    proof {
        assert(0 <= delta as int * rewards as int) by (nonlinear_arith)
            requires
                0 <= delta,
                0 <= rewards,
        ;
    }
    let product = numeric_mul(delta, rewards);
    let accrued = numeric_to_u64(product);
    miner.refined_ore.saturating_add(accrued)
}

/// A miner whose refined ORE is brought up to date; everything else stays.
pub fn apply_refined_ore_fix(miner: &MinerAccount, treasury: &TreasuryAccount) -> (r: MinerAccount)
    requires
        refined_arith_fits(*miner, *treasury),
    ensures
        r == (MinerAccount { refined_ore: inferred_refined_ore(*miner, *treasury) as u64, ..*miner }),
{
    let mut fixed = miner.copy();
    fixed.refined_ore = infer_refined_ore(miner, treasury);
    fixed
}

/// The inferred refined ORE never falls below the stored value: rewards only
/// accrue.
pub proof fn lemma_refined_never_decreases(miner: MinerAccount, treasury: TreasuryAccount)
    ensures
        inferred_refined_ore(miner, treasury) >= miner.refined_ore,
{
    let d = factor_delta(miner, treasury);
    if d >= 0 {
        let r = miner.rewards_ore * fixed_one();
        assert(d * r >= 0) by (nonlinear_arith)
            requires
                d >= 0,
                r >= 0,
        ;
        assert(fixed_mul(d, r) >= 0);
        assert(accrued_ore(miner, treasury) >= 0);
    }
}

} // verus!
