//! Rows of the relational database and the RPC response envelope.

use vstd::prelude::*;
use crate::chain::TreasuryAccount;
use crate::live::{AppDeployedSquare, AppDeployment, AppRound};

verus! {

/// A miner's deployment in one round, as inserted.
#[derive(Debug)]
pub struct CreateDeployment {
    pub round_id: i64,
    pub pubkey: String,
    pub deployed_squares: [AppDeployedSquare; 25],
    pub total_sol_deployed: i64,
    pub total_sol_earned: i64,
    pub total_ore_earned: i64,
}

impl CreateDeployment {
    /// The inserted form of a deployment.
    pub fn from_deployment(d: AppDeployment) -> (r: Self)
        ensures
            r == (CreateDeployment {
                round_id: d.round_id,
                pubkey: d.pubkey,
                deployed_squares: d.deployments,
                total_sol_deployed: d.total_deployed,
                total_sol_earned: d.total_sol_earned,
                total_ore_earned: d.total_ore_earned,
            }),
    {
        CreateDeployment {
            round_id: d.round_id,
            pubkey: d.pubkey,
            deployed_squares: d.deployments,
            total_sol_deployed: d.total_deployed,
            total_sol_earned: d.total_sol_earned,
            total_ore_earned: d.total_ore_earned,
        }
    }
}

/// Treasury state, as inserted.
#[derive(Debug)]
pub struct CreateTreasury {
    pub balance: i64,
    pub motherlode: i64,
    pub total_staked: i64,
    pub total_unclaimed: i64,
    pub total_refined: i64,
    pub created_at: i64,
}

impl CreateTreasury {
    /// The inserted form of the treasury, taken at `created_at` (seconds).
    pub fn from_treasury(t: &TreasuryAccount, created_at: i64) -> (r: Self)
        ensures
            r == (CreateTreasury {
                balance: t.balance as i64,
                motherlode: t.motherlode as i64,
                total_staked: t.total_staked as i64,
                total_unclaimed: t.total_unclaimed as i64,
                total_refined: t.total_refined as i64,
                created_at,
            }),
    {
        CreateTreasury {
            balance: t.balance as i64,
            motherlode: t.motherlode as i64,
            total_staked: t.total_staked as i64,
            total_unclaimed: t.total_unclaimed as i64,
            total_refined: t.total_refined as i64,
            created_at,
        }
    }
}

/// A round, as inserted.
#[derive(Debug)]
pub struct CreateRound {
    pub id: i64,
    pub winning_square: i64,
    pub motherlode: i64,
    pub top_miner: String,
    pub total_deployed: i64,
    pub total_vaulted: i64,
    pub total_winnings: i64,
    pub created_at: i64,
}

impl CreateRound {
    /// The inserted form of a round.
    pub fn from_round(r: AppRound) -> (c: Self)
        ensures
            c == (CreateRound {
                id: r.round_id,
                winning_square: r.winning_square,
                motherlode: r.motherlode,
                top_miner: r.top_miner,
                total_deployed: r.total_deployed,
                total_vaulted: r.total_vaulted,
                total_winnings: r.total_winnings,
                created_at: r.created_at,
            }),
    {
        CreateRound {
            id: r.round_id,
            winning_square: r.winning_square,
            motherlode: r.motherlode,
            top_miner: r.top_miner,
            total_deployed: r.total_deployed,
            total_vaulted: r.total_vaulted,
            total_winnings: r.total_winnings,
            created_at: r.created_at,
        }
    }
}

/// The slot at which an RPC answer was computed.
#[derive(Debug, Clone, Copy)]
pub struct RpcContext {
    pub slot: u64,
}

/// An RPC answer with the size of its raw encoding.
#[derive(Debug)]
pub struct Response<T> {
    pub context: RpcContext,
    pub value: T,
    pub response_size: usize,
}

} // verus!
