//! The live view of the game served to clients: the current round, miners,
//! and per-miner deployments.

use vstd::prelude::*;
use crate::chain::{BoardAccount, MinerAccount, RoundAccount, pubkey_text, pubkey_to_string, round_rng, slot_hash_rng};
use crate::records::{RoundInsert, ONE_ORE, SLOTS_PER_DAY};

verus! {

broadcast use vstd::string::group_string_axioms;

/// Status of the rounds backfill task.
#[derive(Debug, Clone, Copy, PartialEq, Eq, Structural)]
pub enum BackfillTaskStatus {
    Idle,
    Running,
    Completed,
    Failed,
    Cancelled,
}

impl Default for BackfillTaskStatus {
    fn default() -> (s: Self)
        ensures
            s == BackfillTaskStatus::Idle,
    {
        BackfillTaskStatus::Idle
    }
}

/// The round in progress, with its board timing.
#[derive(Debug)]
pub struct LiveRound {
    pub round_id: u64,
    pub start_slot: u64,
    pub end_slot: u64,
    pub slots_remaining: i64,
    pub deployed: [u64; 25],
    pub count: [u64; 25],
    pub total_deployed: u64,
    pub unique_miners: u32,
}

impl LiveRound {
    /// The live round from the board and its round account; the remaining
    /// slots are set once the current slot is known.
    pub fn from_board_and_round(board: &BoardAccount, round: &RoundAccount) -> (r: Self)
        ensures
            r.round_id == round.id,
            r.start_slot == board.start_slot,
            r.end_slot == board.end_slot,
            r.slots_remaining == 0,
            r.deployed == round.deployed,
            r.count == round.count,
            r.total_deployed == round.total_deployed,
            r.unique_miners == round.total_miners as u32,
    {
        LiveRound {
            round_id: round.id,
            start_slot: board.start_slot,
            end_slot: board.end_slot,
            slots_remaining: 0,
            deployed: round.deployed,
            count: round.count,
            total_deployed: round.total_deployed,
            unique_miners: round.total_miners as u32,
        }
    }

    /// Slots left until the round ends, as seen at `current_slot` (zero once
    /// it has ended).
    pub fn update_slots_remaining(&mut self, current_slot: u64)
        ensures
            final(self).slots_remaining == (if old(self).end_slot > current_slot {
                (old(self).end_slot - current_slot) as u64
            } else {
                0u64
            }) as i64,
            final(self).round_id == old(self).round_id,
            final(self).start_slot == old(self).start_slot,
            final(self).end_slot == old(self).end_slot,
            final(self).deployed == old(self).deployed,
            final(self).count == old(self).count,
            final(self).total_deployed == old(self).total_deployed,
            final(self).unique_miners == old(self).unique_miners,
    {
        self.slots_remaining = self.end_slot.saturating_sub(current_slot) as i64;
    }
}

/// A miner's deployment seen on the websocket, all squares at one slot.
#[derive(Debug)]
pub struct LiveDeployment {
    pub round_id: u64,
    pub miner_pubkey: String,
    /// Amount per square, indexed by square.
    pub amounts: [u64; 25],
    pub slot: u64,
}

/// What is broadcast to live clients.
#[derive(Debug)]
pub enum LiveBroadcastData {
    /// The round's state.
    Round(LiveRound),
    /// One deployment.
    Deployment(LiveDeployment),
    /// The winning square at the end of a round.
    WinningSquare { round_id: u64, winning_square: u8, motherlode_hit: bool },
}

/// A miner as served to clients.
#[derive(Debug)]
pub struct AppMiner {
    pub authority: String,
    pub deployed: [u64; 25],
    /// Sum of `deployed`.
    pub total_deployed: u64,
    pub cumulative: [u64; 25],
    pub checkpoint_fee: u64,
    pub checkpoint_id: u64,
    pub last_claim_ore_at: i64,
    pub last_claim_sol_at: i64,
    pub rewards_sol: u64,
    pub rewards_ore: u64,
    pub refined_ore: u64,
    pub round_id: u64,
    pub lifetime_rewards_sol: u64,
    pub lifetime_rewards_ore: u64,
}

/// Sum of the first `k` amounts.
pub open spec fn sum_first(a: Seq<u64>, k: int) -> int
    decreases k,
{
    if k <= 0 {
        0
    } else {
        sum_first(a, k - 1) + a[k - 1]
    }
}

proof fn lemma_sum_first_monotone(a: Seq<u64>, j: int, k: int)
    requires
        0 <= j <= k,
    ensures
        sum_first(a, j) <= sum_first(a, k),
    decreases k - j,
{
    if j < k {
        lemma_sum_first_monotone(a, j, k - 1);
    }
}

impl AppMiner {
    /// A miner account as served to clients, with its total deployment.
    pub fn from_account(miner: &MinerAccount) -> (r: Self)
        requires
            sum_first(miner.deployed@, 25) <= u64::MAX,
        ensures
            r.authority == miner.authority,
            r.deployed == miner.deployed,
            r.total_deployed == sum_first(miner.deployed@, 25),
            r.cumulative == miner.cumulative,
            r.checkpoint_fee == miner.checkpoint_fee,
            r.checkpoint_id == miner.checkpoint_id,
            r.last_claim_ore_at == miner.last_claim_ore_at,
            r.last_claim_sol_at == miner.last_claim_sol_at,
            r.rewards_sol == miner.rewards_sol,
            r.rewards_ore == miner.rewards_ore,
            r.refined_ore == miner.refined_ore,
            r.round_id == miner.round_id,
            r.lifetime_rewards_sol == miner.lifetime_rewards_sol,
            r.lifetime_rewards_ore == miner.lifetime_rewards_ore,
    {
        let mut total: u64 = 0;
        let mut i: usize = 0;
        while i < 25
            invariant
                i <= 25,
                total == sum_first(miner.deployed@, i as int),
                sum_first(miner.deployed@, 25) <= u64::MAX,
            decreases 25 - i,
        {
            proof {
                lemma_sum_first_monotone(miner.deployed@, i + 1, 25);
            }
            total = total + miner.deployed[i];
            i = i + 1;
        }
        AppMiner {
            authority: miner.authority.clone(),
            deployed: miner.deployed,
            total_deployed: total,
            cumulative: miner.cumulative,
            checkpoint_fee: miner.checkpoint_fee,
            checkpoint_id: miner.checkpoint_id,
            last_claim_ore_at: miner.last_claim_ore_at,
            last_claim_sol_at: miner.last_claim_sol_at,
            rewards_sol: miner.rewards_sol,
            rewards_ore: miner.rewards_ore,
            refined_ore: miner.refined_ore,
            round_id: miner.round_id,
            lifetime_rewards_sol: miner.lifetime_rewards_sol,
            lifetime_rewards_ore: miner.lifetime_rewards_ore,
        }
    }
}

/// A round reset event as the external rounds API lists it.
#[derive(Debug)]
pub struct ResetRoundMeta {
    pub disc: u8,
    pub round_id: u64,
    pub start_slot: u64,
    pub end_slot: u64,
    pub winning_square: u64,
    /// The top miner's key bytes.
    pub top_miner: [u8; 32],
    pub num_winners: u64,
    pub motherlode: u64,
    pub total_deployed: u64,
    pub total_vaulted: u64,
    pub total_winnings: u64,
    pub total_minted: u64,
    /// Seconds since the epoch.
    pub ts: u64,
}

/// A round as stored in the relational database.
#[derive(Debug)]
pub struct AppRound {
    pub round_id: i64,
    /// 100 when the round has no random value yet.
    pub winning_square: i64,
    pub motherlode: i64,
    pub top_miner: String,
    pub total_deployed: i64,
    pub total_vaulted: i64,
    pub total_winnings: i64,
    pub created_at: i64,
}

impl AppRound {
    /// The stored form of a round listed by the external rounds API (the
    /// event's time as its creation time).
    pub fn from_reset_meta(meta: &ResetRoundMeta) -> (r: Self)
        ensures
            r.round_id == meta.round_id as i64,
            r.winning_square == meta.winning_square as i64,
            r.motherlode == meta.motherlode as i64,
            r.top_miner@ == pubkey_text(meta.top_miner@),
            r.total_deployed == meta.total_deployed as i64,
            r.total_vaulted == meta.total_vaulted as i64,
            r.total_winnings == meta.total_winnings as i64,
            r.created_at == meta.ts as i64,
    {
        AppRound {
            round_id: meta.round_id as i64,
            winning_square: meta.winning_square as i64,
            motherlode: meta.motherlode as i64,
            top_miner: pubkey_to_string(meta.top_miner),
            total_deployed: meta.total_deployed as i64,
            total_vaulted: meta.total_vaulted as i64,
            total_winnings: meta.total_winnings as i64,
            created_at: meta.ts as i64,
        }
    }

    /// The round row stored for a round found only in the external rounds
    /// API: slots and miners are unknown (zero).
    pub fn backfill_insert(&self) -> (r: RoundInsert)
        ensures
            r.round_id == self.round_id as u64,
            r.start_slot == 0 && r.end_slot == 0,
            r.expires_at == SLOTS_PER_DAY,
            r.winning_square == self.winning_square as u8,
            r.top_miner == self.top_miner,
            r.top_miner_reward == ONE_ORE,
            r.total_deployed == self.total_deployed as u64,
            r.total_vaulted == self.total_vaulted as u64,
            r.total_winnings == self.total_winnings as u64,
            r.motherlode == self.motherlode as u64,
            r.motherlode_hit == (if self.motherlode as u64 > 0 { 1u8 } else { 0u8 }),
            r.unique_miners == 0,
            r.total_deployments == 0,
            r.source@ == "backfill"@,
    {
        RoundInsert::from_backfill(
            self.round_id as u64,
            0,
            0,
            self.winning_square as u8,
            self.top_miner.clone(),
            self.total_deployed as u64,
            self.total_vaulted as u64,
            self.total_winnings as u64,
            self.motherlode as u64,
            0,
            self.created_at as u64,
        )
    }

    /// A round account as stored, created at `created_at` (seconds). Before
    /// the round has a random value its winning square is 100, its totals are
    /// zero and its top miner is the default key.
    pub fn from_round(round: &RoundAccount, created_at: i64) -> (r: Self)
        ensures
            r.round_id == round.id as i64,
            r.created_at == created_at,
            slot_hash_rng(round.slot_hash@) matches Some(rng) ==> {
                &&& r.winning_square == (rng % 25) as i64
                &&& r.motherlode == round.motherlode as i64
                &&& r.top_miner == round.top_miner
                &&& r.total_deployed == round.total_deployed as i64
                &&& r.total_vaulted == round.total_vaulted as i64
                &&& r.total_winnings == round.total_winnings as i64
            },
            slot_hash_rng(round.slot_hash@) is None ==> {
                &&& r.winning_square == 100
                &&& r.motherlode == 0
                &&& r.top_miner@ == pubkey_text(Seq::new(32, |i: int| 0u8))
                &&& r.total_deployed == 0
                &&& r.total_vaulted == 0
                &&& r.total_winnings == 0
            },
    {
        match round_rng(round.slot_hash) {
            Some(rng) => AppRound {
                round_id: round.id as i64,
                winning_square: (rng % 25) as i64,
                motherlode: round.motherlode as i64,
                top_miner: round.top_miner.clone(),
                total_deployed: round.total_deployed as i64,
                total_vaulted: round.total_vaulted as i64,
                total_winnings: round.total_winnings as i64,
                created_at,
            },
            None => {
                let zero_key = [0u8; 32];
                let top_miner = pubkey_to_string(zero_key);
                proof {
                    assert(zero_key@ =~= Seq::new(32, |i: int| 0u8));
                }
                AppRound {
                    round_id: round.id as i64,
                    winning_square: 100,
                    motherlode: 0,
                    top_miner,
                    total_deployed: 0,
                    total_vaulted: 0,
                    total_winnings: 0,
                    created_at,
                }
            },
        }
    }
}

/// A rebuilt round with its per-miner deployments.
#[derive(Debug)]
pub struct ReconstructedRound {
    pub round: AppRound,
    pub deployments: Vec<AppDeployment>,
}

/// One square of a miner's deployment.
#[derive(Debug, Clone, Copy)]
pub struct AppDeployedSquare {
    pub amount: i64,
    pub square_id: i64,
    pub slot: i64,
}

impl Default for AppDeployedSquare {
    fn default() -> (s: Self)
        ensures
            s.amount == 0 && s.square_id == 0 && s.slot == 0,
    {
        AppDeployedSquare { amount: 0, square_id: 0, slot: 0 }
    }
}

/// A miner's deployment in one round, all squares.
#[derive(Debug)]
pub struct AppDeployment {
    pub pubkey: String,
    pub round_id: i64,
    pub deployments: [AppDeployedSquare; 25],
    pub total_deployed: i64,
    pub total_sol_earned: i64,
    pub total_ore_earned: i64,
    pub winner: bool,
}

impl AppDeployment {
    /// An empty deployment of `pubkey` in `round_id`.
    pub fn new(pubkey: String, round_id: i64) -> (d: Self)
        ensures
            d.pubkey == pubkey,
            d.round_id == round_id,
            forall|i: int| 0 <= i < 25 ==> #[trigger] d.deployments@[i].amount == 0
                && d.deployments@[i].square_id == 0 && d.deployments@[i].slot == 0,
            d.total_deployed == 0,
            d.total_sol_earned == 0,
            d.total_ore_earned == 0,
            !d.winner,
    {
        let empty = AppDeployedSquare::default();
        AppDeployment {
            pubkey,
            round_id,
            deployments: [empty; 25],
            total_deployed: 0,
            total_sol_earned: 0,
            total_ore_earned: 0,
            winner: false,
        }
    }
}

/// The automation settings last seen for an authority.
#[derive(Debug)]
pub struct AutomationCache {
    pub authority: [u8; 32],
    pub active: bool,
    pub mask: u64,
    pub strategy: u64,
    pub amount: u64,
    pub fee: u64,
    pub executor: [u8; 32],
    pub last_updated_slot: u64,
}

impl AutomationCache {
    /// No automation known yet for `authority`.
    pub fn new(authority: [u8; 32]) -> (c: Self)
        ensures
            c.authority == authority,
            !c.active,
            c.mask == 0 && c.strategy == 0 && c.amount == 0 && c.fee == 0,
            c.executor@ == Seq::new(32, |i: int| 0u8),
            c.last_updated_slot == 0,
    {
        let c = AutomationCache {
            authority,
            active: false,
            mask: 0,
            strategy: 0,
            amount: 0,
            fee: 0,
            executor: [0u8; 32],
            last_updated_slot: 0,
        };
        assert(c.executor@ =~= Seq::new(32, |i: int| 0u8));
        c
    }
}

} // verus!
