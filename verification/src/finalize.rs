//! Turning a round snapshot into stored records once the round is settled:
//! the deployments with their rewards, the round row, the mint snapshot,
//! and the estimate of the top miner while the chain has not named one.

use vstd::prelude::*;
use crate::chain::{
    MinerAccount, RoundAccount, TreasuryAccount, round_is_split_reward, round_rng,
    round_top_miner_sample, parse_pubkey, pubkey_to_string, slot_hash_rng, split_reward,
    bit_reversal, parsed_pubkey, pubkey_text,
};
use crate::records::{DeploymentInsert, RoundInsert, MintSnapshot, MinerSnapshot, TreasurySnapshot};
use crate::rewards::{calculate_rewards, ore_reward, sol_reward};

verus! {

broadcast use vstd::string::group_string_axioms;

/// One square of one miner: the amount deployed and the slot it was seen at.
#[derive(Clone, Copy, Debug)]
pub struct SquareEntry {
    pub square: u8,
    pub amount: u64,
    pub slot: u64,
}

/// The squares one miner deployed on in a round.
#[derive(Debug)]
pub struct MinerSquares {
    pub miner: String,
    pub squares: Vec<SquareEntry>,
}

/// State of a round captured when it ended, finalized once it settles.
pub struct RoundSnapshot {
    pub round_id: u64,
    pub start_slot: u64,
    pub end_slot: u64,
    /// Per miner, the squares deployed on with their slots.
    pub deployments: Vec<MinerSquares>,
    /// Miners who deployed in this round.
    pub miners: Vec<MinerAccount>,
    /// Every miner account of the snapshot.
    pub all_miners: Vec<MinerAccount>,
    pub treasury: TreasuryAccount,
    pub round: RoundAccount,
    pub mint_supply: Option<u64>,
    /// Seconds since the epoch.
    pub captured_at: u64,
    /// True when the miner snapshot could not be taken.
    pub gpa_failed: bool,
}

impl MinerAccount {
    /// A copy of this account.
    pub fn copy(&self) -> (r: Self)
        ensures
            r == *self,
    {
        MinerAccount {
            authority: self.authority.clone(),
            deployed: self.deployed,
            cumulative: self.cumulative,
            checkpoint_fee: self.checkpoint_fee,
            checkpoint_id: self.checkpoint_id,
            last_claim_ore_at: self.last_claim_ore_at,
            last_claim_sol_at: self.last_claim_sol_at,
            rewards_factor_bits: self.rewards_factor_bits,
            rewards_sol: self.rewards_sol,
            rewards_ore: self.rewards_ore,
            refined_ore: self.refined_ore,
            round_id: self.round_id,
            lifetime_rewards_sol: self.lifetime_rewards_sol,
            lifetime_rewards_ore: self.lifetime_rewards_ore,
        }
    }
}

/// The slot recorded for `square` among `entries` (the first entry for it).
pub open spec fn entry_slot(entries: Seq<SquareEntry>, square: u8) -> Option<u64>
    decreases entries.len(),
{
    if entries.len() == 0 {
        None
    } else if entries[0].square == square {
        Some(entries[0].slot)
    } else {
        entry_slot(entries.drop_first(), square)
    }
}

/// The squares recorded for `miner` (the first record for it).
pub open spec fn miner_entries(ws: Seq<MinerSquares>, miner: Seq<char>) -> Option<Seq<SquareEntry>>
    decreases ws.len(),
{
    if ws.len() == 0 {
        None
    } else if ws[0].miner@ == miner {
        Some(ws[0].squares@)
    } else {
        miner_entries(ws.drop_first(), miner)
    }
}

/// The slot recorded for `miner` on `square`, or `default`.
pub open spec fn slot_or(ws: Seq<MinerSquares>, miner: Seq<char>, square: u8, default: u64) -> u64 {
    match miner_entries(ws, miner) {
        Some(entries) => match entry_slot(entries, square) {
            Some(slot) => slot,
            None => default,
        },
        None => default,
    }
}

fn find_miner_entries(ws: &Vec<MinerSquares>, miner: &String) -> (r: Option<usize>)
    ensures
        r matches Some(i) ==> i < ws@.len() && miner_entries(ws@, miner@) == Some(ws@[i as int].squares@),
        r is None ==> miner_entries(ws@, miner@) is None,
{
    let mut i: usize = 0;
    assert(ws@.skip(0) =~= ws@);
    while i < ws.len()
        invariant
            i <= ws@.len(),
            miner_entries(ws@, miner@) == miner_entries(ws@.skip(i as int), miner@),
        decreases ws@.len() - i,
    {
        assert(ws@.skip(i as int).drop_first() =~= ws@.skip(i + 1));
        if ws[i].miner == *miner {
            return Some(i);
        }
        i = i + 1;
    }
    None
}

fn find_entry_slot(entries: &Vec<SquareEntry>, square: u8) -> (r: Option<u64>)
    ensures
        r == entry_slot(entries@, square),
{
    let mut i: usize = 0;
    assert(entries@.skip(0) =~= entries@);
    while i < entries.len()
        invariant
            i <= entries@.len(),
            entry_slot(entries@, square) == entry_slot(entries@.skip(i as int), square),
        decreases entries@.len() - i,
    {
        assert(entries@.skip(i as int).drop_first() =~= entries@.skip(i + 1));
        if entries[i].square == square {
            return Some(entries[i].slot);
        }
        i = i + 1;
    }
    None
}

/// The slot of `square` in the recorded squares of one miner (`None` when
/// the miner has no record), or `default`.
fn slot_in(ws: &Vec<MinerSquares>, found: Option<usize>, square: u8, default: u64) -> (slot: u64)
    requires
        found matches Some(i) ==> i < ws@.len(),
    ensures
        slot == match found {
            Some(i) => match entry_slot(ws@[i as int].squares@, square) {
                Some(s) => s,
                None => default,
            },
            None => default,
        },
{
    match found {
        Some(i) => match find_entry_slot(&ws[i].squares, square) {
            Some(s) => s,
            None => default,
        },
        None => default,
    }
}

// ---------------------------------------------------------------------------
// Combining the miner snapshot with the slots seen on the websocket
// ---------------------------------------------------------------------------

/// The squares of one miner with a non-zero amount among the first `k`,
/// each with the slot seen on the websocket or `start_slot`.
pub open spec fn combined_squares(m: MinerAccount, ws: Seq<MinerSquares>, start_slot: u64, k: int) -> Seq<SquareEntry>
    decreases k,
{
    if k <= 0 {
        Seq::empty()
    } else {
        let prev = combined_squares(m, ws, start_slot, k - 1);
        let sq = k - 1;
        if m.deployed@[sq] == 0 {
            prev
        } else {
            prev.push(SquareEntry { square: sq as u8, amount: m.deployed@[sq], slot: slot_or(ws, m.authority@, sq as u8, start_slot) })
        }
    }
}

/// Every miner with at least one square, with its combined squares.
pub open spec fn combined_deployments_spec(miners: Seq<MinerAccount>, ws: Seq<MinerSquares>, start_slot: u64) -> Seq<(Seq<char>, Seq<SquareEntry>)>
    decreases miners.len(),
{
    if miners.len() == 0 {
        Seq::empty()
    } else {
        let prev = combined_deployments_spec(miners.drop_last(), ws, start_slot);
        let m = miners.last();
        let sqs = combined_squares(m, ws, start_slot, 25);
        if sqs.len() == 0 {
            prev
        } else {
            prev.push((m.authority@, sqs))
        }
    }
}

/// The view of combined deployments as (miner, squares) pairs.
pub open spec fn squares_view(v: Seq<MinerSquares>) -> Seq<(Seq<char>, Seq<SquareEntry>)> {
    v.map_values(|e: MinerSquares| (e.miner@, e.squares@))
}

/// Snapshot deployments: amounts come from the miner accounts (the source
/// of truth), slots from the websocket where seen, `start_slot` otherwise.
pub fn combine_deployments(miners: &Vec<MinerAccount>, ws: &Vec<MinerSquares>, start_slot: u64) -> (r: Vec<MinerSquares>)
    ensures
        squares_view(r@) == combined_deployments_spec(miners@, ws@, start_slot),
{
    let mut r: Vec<MinerSquares> = Vec::new();
    let mut i: usize = 0;
    while i < miners.len()
        invariant
            i <= miners@.len(),
            squares_view(r@) == combined_deployments_spec(miners@.take(i as int), ws@, start_slot),
        decreases miners@.len() - i,
    {
        let m = &miners[i];
        let found = find_miner_entries(ws, &m.authority);
        let mut sqs: Vec<SquareEntry> = Vec::new();
        let mut sq: usize = 0;
        while sq < 25
            invariant
                sq <= 25,
                i < miners@.len(),
                *m == miners@[i as int],
                found matches Some(j) ==> j < ws@.len() && miner_entries(ws@, m.authority@) == Some(ws@[j as int].squares@),
                found is None ==> miner_entries(ws@, m.authority@) is None,
                sqs@ == combined_squares(*m, ws@, start_slot, sq as int),
            decreases 25 - sq,
        {
            let amount = m.deployed[sq];
            if amount != 0 {
                let slot = slot_in(ws, found, sq as u8, start_slot);
                sqs.push(SquareEntry { square: sq as u8, amount, slot });
            }
            sq = sq + 1;
        }
        proof {
            assert(miners@.take(i + 1).drop_last() =~= miners@.take(i as int));
        }
        if sqs.len() > 0 {
            r.push(MinerSquares { miner: m.authority.clone(), squares: sqs });
        }
        proof {
            assert(squares_view(r@) =~= combined_deployments_spec(miners@.take(i + 1), ws@, start_slot));
        }
        i = i + 1;
    }
    assert(miners@.take(miners@.len() as int) =~= miners@);
    r
}

// ---------------------------------------------------------------------------
// Deployments of a settled round
// ---------------------------------------------------------------------------

/// The stored record of `m`'s deployment on square `sq` of a settled round:
/// slot from the websocket (zero if unseen), rewards on the winning square
/// only, top-miner flag only on the winning square.
pub open spec fn deployment_record(
    round_id: u64,
    m: MinerAccount,
    sq: int,
    ws: Seq<MinerSquares>,
    round: RoundAccount,
    winning_square: u8,
    is_split: bool,
) -> DeploymentInsert {
    let amount = m.deployed@[sq];
    let is_winner = sq == winning_square as int;
    let is_top = m.authority@ == round.top_miner@;
    let total = round.deployed@[winning_square as int];
    DeploymentInsert {
        round_id,
        miner_pubkey: m.authority,
        square_id: sq as u8,
        amount,
        deployed_slot: slot_or(ws, m.authority@, sq as u8, 0),
        sol_earned: if is_winner { sol_reward(amount, total, round.total_winnings) } else { 0 },
        ore_earned: if is_winner {
            ore_reward(amount, total, round.top_miner_reward, round.motherlode, is_split, is_top) as u64
        } else {
            0
        },
        is_winner: if is_winner { 1 } else { 0 },
        is_top_miner: if is_winner && is_top { 1 } else { 0 },
    }
}

/// Records of `m`'s deployments on the first `k` squares (non-zero amounts).
pub open spec fn miner_records(
    round_id: u64,
    m: MinerAccount,
    ws: Seq<MinerSquares>,
    round: RoundAccount,
    winning_square: u8,
    is_split: bool,
    k: int,
) -> Seq<DeploymentInsert>
    decreases k,
{
    if k <= 0 {
        Seq::empty()
    } else {
        let prev = miner_records(round_id, m, ws, round, winning_square, is_split, k - 1);
        if m.deployed@[k - 1] == 0 {
            prev
        } else {
            prev.push(deployment_record(round_id, m, k - 1, ws, round, winning_square, is_split))
        }
    }
}

/// Records of all deployments of the miners who played in `round_id`, miner
/// by miner and square by square.
pub open spec fn round_records(
    round_id: u64,
    miners: Seq<MinerAccount>,
    ws: Seq<MinerSquares>,
    round: RoundAccount,
    winning_square: u8,
    is_split: bool,
) -> Seq<DeploymentInsert>
    decreases miners.len(),
{
    if miners.len() == 0 {
        Seq::empty()
    } else {
        let prev = round_records(round_id, miners.drop_last(), ws, round, winning_square, is_split);
        let m = miners.last();
        if m.round_id != round_id {
            prev
        } else {
            prev + miner_records(round_id, m, ws, round, winning_square, is_split, 25)
        }
    }
}

/// What any stored record of a settled round says of itself: it is for the
/// round, of a non-zero amount; it is a winner exactly on the winning
/// square; it carries the top-miner flag exactly when it is a winner of the
/// round's top miner; a record off the winning square earns nothing, and
/// one on it earns its pro-rata SOL share and its ORE reward.
pub open spec fn record_consistent(r: DeploymentInsert, round_id: u64, round: RoundAccount, winning_square: u8, is_split: bool) -> bool {
    &&& r.round_id == round_id
    &&& r.amount > 0
    &&& r.square_id < 25
    &&& r.is_winner <= 1
    &&& r.is_top_miner <= 1
    &&& (r.is_winner == 1 <==> r.square_id == winning_square)
    &&& (r.is_top_miner == 1 <==> (r.is_winner == 1 && r.miner_pubkey@ == round.top_miner@))
    &&& (r.is_winner == 0 ==> r.sol_earned == 0 && r.ore_earned == 0)
    &&& (r.is_winner == 1 ==> r.sol_earned == sol_reward(r.amount, round.deployed@[winning_square as int], round.total_winnings)
        && r.ore_earned == ore_reward(r.amount, round.deployed@[winning_square as int], round.top_miner_reward,
            round.motherlode, is_split, r.miner_pubkey@ == round.top_miner@) as u64)
}

proof fn lemma_miner_records_consistent(
    round_id: u64,
    m: MinerAccount,
    ws: Seq<MinerSquares>,
    round: RoundAccount,
    winning_square: u8,
    is_split: bool,
    k: int,
)
    requires
        0 <= k <= 25,
    ensures
        forall|i: int| 0 <= i < miner_records(round_id, m, ws, round, winning_square, is_split, k).len()
            ==> record_consistent(#[trigger] miner_records(round_id, m, ws, round, winning_square, is_split, k)[i], round_id, round, winning_square, is_split),
    decreases k,
{
    if k > 0 {
        lemma_miner_records_consistent(round_id, m, ws, round, winning_square, is_split, k - 1);
        let prev = miner_records(round_id, m, ws, round, winning_square, is_split, k - 1);
        let all = miner_records(round_id, m, ws, round, winning_square, is_split, k);
        if m.deployed@[k - 1] != 0 {
            let r = deployment_record(round_id, m, k - 1, ws, round, winning_square, is_split);
            assert(all == prev.push(r));
            assert(r.square_id as int == k - 1);
            assert forall|i: int| 0 <= i < all.len() implies record_consistent(#[trigger] all[i], round_id, round, winning_square, is_split) by {
                if i < prev.len() {
                    assert(all[i] == prev[i]);
                }
            }
        }
    }
}

/// Every record stored for a settled round is consistent (see
/// `record_consistent`): in particular the top-miner flag is set only on
/// the winning square, and only squares that won earn anything.
pub proof fn lemma_round_records_consistent(
    round_id: u64,
    miners: Seq<MinerAccount>,
    ws: Seq<MinerSquares>,
    round: RoundAccount,
    winning_square: u8,
    is_split: bool,
)
    ensures
        forall|i: int| 0 <= i < round_records(round_id, miners, ws, round, winning_square, is_split).len()
            ==> record_consistent(#[trigger] round_records(round_id, miners, ws, round, winning_square, is_split)[i], round_id, round, winning_square, is_split),
    decreases miners.len(),
{
    if miners.len() > 0 {
        lemma_round_records_consistent(round_id, miners.drop_last(), ws, round, winning_square, is_split);
        let m = miners.last();
        if m.round_id == round_id {
            lemma_miner_records_consistent(round_id, m, ws, round, winning_square, is_split, 25);
            let prev = round_records(round_id, miners.drop_last(), ws, round, winning_square, is_split);
            let mine = miner_records(round_id, m, ws, round, winning_square, is_split, 25);
            let all = round_records(round_id, miners, ws, round, winning_square, is_split);
            assert(all == prev + mine);
            assert forall|i: int| 0 <= i < all.len() implies record_consistent(#[trigger] all[i], round_id, round, winning_square, is_split) by {
                if i < prev.len() {
                    assert(all[i] == prev[i]);
                } else {
                    assert(all[i] == mine[i - prev.len()]);
                }
            }
        } else {
            assert(round_records(round_id, miners, ws, round, winning_square, is_split)
                == round_records(round_id, miners.drop_last(), ws, round, winning_square, is_split));
        }
    }
}

proof fn lemma_miner_records_cover(
    round_id: u64,
    m: MinerAccount,
    ws: Seq<MinerSquares>,
    round: RoundAccount,
    winning_square: u8,
    is_split: bool,
    k: int,
)
    requires
        0 <= k <= 25,
    ensures
        forall|t: int| 0 <= t < miner_records(round_id, m, ws, round, winning_square, is_split, k).len() ==> {
            let r = #[trigger] miner_records(round_id, m, ws, round, winning_square, is_split, k)[t];
            r.miner_pubkey == m.authority && (r.square_id as int) < k && r.amount == m.deployed@[r.square_id as int]
        },
        forall|sq: int| 0 <= sq < k && #[trigger] m.deployed@[sq] > 0 ==> exists|t: int|
            0 <= t < miner_records(round_id, m, ws, round, winning_square, is_split, k).len()
            && (#[trigger] miner_records(round_id, m, ws, round, winning_square, is_split, k)[t]).square_id == sq as u8,
    decreases k,
{
    if k > 0 {
        lemma_miner_records_cover(round_id, m, ws, round, winning_square, is_split, k - 1);
        let prev = miner_records(round_id, m, ws, round, winning_square, is_split, k - 1);
        let all = miner_records(round_id, m, ws, round, winning_square, is_split, k);
        assert((k - 1) as u8 as int == k - 1);
        if m.deployed@[k - 1] != 0 {
            let r = deployment_record(round_id, m, k - 1, ws, round, winning_square, is_split);
            assert(all == prev.push(r));
            assert forall|t: int| 0 <= t < all.len() implies {
                let r = #[trigger] all[t];
                r.miner_pubkey == m.authority && (r.square_id as int) < k && r.amount == m.deployed@[r.square_id as int]
            } by {
                if t < prev.len() {
                    assert(all[t] == prev[t]);
                }
            }
            assert forall|sq: int| 0 <= sq < k && #[trigger] m.deployed@[sq] > 0 implies exists|t: int|
                0 <= t < all.len() && (#[trigger] all[t]).square_id == sq as u8 by {
                if sq < k - 1 {
                    let t = choose|t: int| 0 <= t < prev.len() && (#[trigger] prev[t]).square_id == sq as u8;
                    assert(all[t] == prev[t]);
                } else {
                    assert(all[all.len() - 1] == r);
                }
            }
        } else {
            assert forall|sq: int| 0 <= sq < k && #[trigger] m.deployed@[sq] > 0 implies exists|t: int|
                0 <= t < all.len() && (#[trigger] all[t]).square_id == sq as u8 by {
                assert(sq < k - 1);
            }
        }
    }
}

/// `r` records a stake of `m`, a miner of round `round_id`: its key, and
/// the amount `m` staked on `r`'s square.
pub open spec fn records_stake_of(r: DeploymentInsert, m: MinerAccount, round_id: u64) -> bool {
    m.round_id == round_id && r.miner_pubkey == m.authority && r.amount == m.deployed@[r.square_id as int]
}

/// The records of a settled round are exactly the stakes of the miners who
/// played in it: each record is a miner of the round staking its amount on
/// its square, and each non-zero stake of a miner of the round has a
/// record for that miner and square.
pub proof fn lemma_round_records_cover(
    round_id: u64,
    miners: Seq<MinerAccount>,
    ws: Seq<MinerSquares>,
    round: RoundAccount,
    winning_square: u8,
    is_split: bool,
)
    ensures
        forall|t: int| #![trigger round_records(round_id, miners, ws, round, winning_square, is_split)[t]]
            0 <= t < round_records(round_id, miners, ws, round, winning_square, is_split).len()
            ==> exists|i: int| #![trigger miners[i]] 0 <= i < miners.len()
                && records_stake_of(round_records(round_id, miners, ws, round, winning_square, is_split)[t], miners[i], round_id),
        forall|i: int, sq: int| #![trigger miners[i].deployed@[sq]]
            0 <= i < miners.len() && miners[i].round_id == round_id && 0 <= sq < 25 && miners[i].deployed@[sq] > 0
            ==> exists|t: int| #![trigger round_records(round_id, miners, ws, round, winning_square, is_split)[t]]
                0 <= t < round_records(round_id, miners, ws, round, winning_square, is_split).len()
                && round_records(round_id, miners, ws, round, winning_square, is_split)[t].miner_pubkey == miners[i].authority
                && round_records(round_id, miners, ws, round, winning_square, is_split)[t].square_id == sq as u8,
    decreases miners.len(),
{
    if miners.len() > 0 {
        let init = miners.drop_last();
        let n = miners.len() - 1;
        lemma_round_records_cover(round_id, init, ws, round, winning_square, is_split);
        let m = miners.last();
        let prev = round_records(round_id, init, ws, round, winning_square, is_split);
        let all = round_records(round_id, miners, ws, round, winning_square, is_split);
        assert(miners[n] == m);
        let mine = miner_records(round_id, m, ws, round, winning_square, is_split, 25);
        if m.round_id == round_id {
            lemma_miner_records_cover(round_id, m, ws, round, winning_square, is_split, 25);
            assert(all == prev + mine);
        } else {
            assert(all == prev);
        }
        assert forall|t: int| #![trigger all[t]] 0 <= t < all.len()
            implies exists|i: int| #![trigger miners[i]] 0 <= i < miners.len() && records_stake_of(all[t], miners[i], round_id) by {
            if t < prev.len() {
                assert(all[t] == prev[t]);
                let i = choose|i: int| #![trigger init[i]] 0 <= i < init.len() && records_stake_of(prev[t], init[i], round_id);
                assert(miners[i] == init[i]);
            } else {
                assert(all[t] == mine[t - prev.len()]);
                assert(records_stake_of(all[t], miners[n], round_id));
            }
        }
        assert forall|i: int, sq: int| #![trigger miners[i].deployed@[sq]]
            0 <= i < miners.len() && miners[i].round_id == round_id && 0 <= sq < 25 && miners[i].deployed@[sq] > 0
            implies exists|t: int| #![trigger all[t]] 0 <= t < all.len()
                && all[t].miner_pubkey == miners[i].authority && all[t].square_id == sq as u8 by {
            if i < n {
                assert(init[i] == miners[i]);
                assert(init[i].deployed@[sq] > 0);
                let t = choose|t: int| #![trigger prev[t]] 0 <= t < prev.len()
                    && prev[t].miner_pubkey == init[i].authority && prev[t].square_id == sq as u8;
                assert(all[t] == prev[t]);
            } else {
                assert(m.deployed@[sq] > 0);
                let t = choose|t: int| 0 <= t < mine.len() && (#[trigger] mine[t]).square_id == sq as u8;
                assert(all[prev.len() + t] == mine[t]);
            }
        }
    }
}

/// Number of miners of `round_id` with at least one deployment.
pub open spec fn miners_with_deployments(
    round_id: u64,
    miners: Seq<MinerAccount>,
) -> int
    decreases miners.len(),
{
    if miners.len() == 0 {
        0
    } else {
        let m = miners.last();
        miners_with_deployments(round_id, miners.drop_last()) + (if m.round_id == round_id
            && exists|sq: int| 0 <= sq < 25 && m.deployed@[sq] != 0 { 1int } else { 0int })
    }
}

/// No reward of a winning deployment overflows 64 bits.
pub open spec fn rewards_fit(
    round_id: u64,
    miners: Seq<MinerAccount>,
    round: RoundAccount,
    winning_square: u8,
    is_split: bool,
) -> bool {
    forall|i: int|
        0 <= i < miners.len() && (#[trigger] miners[i]).round_id == round_id ==> ore_reward(
            miners[i].deployed@[winning_square as int],
            round.deployed@[winning_square as int],
            round.top_miner_reward,
            round.motherlode,
            is_split,
            miners[i].authority@ == round.top_miner@,
        ) <= u64::MAX
}

proof fn lemma_miner_records_len(
    round_id: u64,
    m: MinerAccount,
    ws: Seq<MinerSquares>,
    round: RoundAccount,
    winning_square: u8,
    is_split: bool,
    k: int,
)
    requires
        0 <= k <= 25,
    ensures
        miner_records(round_id, m, ws, round, winning_square, is_split, k).len() <= k,
        miner_records(round_id, m, ws, round, winning_square, is_split, k).len() > 0 <==> exists|sq: int|
            0 <= sq < k && m.deployed@[sq] != 0,
    decreases k,
{
    if k > 0 {
        lemma_miner_records_len(round_id, m, ws, round, winning_square, is_split, k - 1);
        if miner_records(round_id, m, ws, round, winning_square, is_split, k - 1).len() > 0 {
            let w = choose|sq: int| 0 <= sq < k - 1 && m.deployed@[sq] != 0;
            assert(0 <= w < k && m.deployed@[w] != 0);
        }
    }
}

/// The deployment records of a settled round and the number of miners who
/// deployed. Amounts come from the miner accounts; rewards are computed for
/// the winning square only.
pub fn finalized_deployments(
    snapshot: &RoundSnapshot,
    round: &RoundAccount,
    winning_square: u8,
    is_split: bool,
) -> (r: (Vec<DeploymentInsert>, u32))
    requires
        winning_square < 25,
        snapshot.miners@.len() <= u32::MAX,
        rewards_fit(snapshot.round_id, snapshot.miners@, *round, winning_square, is_split),
    ensures
        r.0@ == round_records(snapshot.round_id, snapshot.miners@, snapshot.deployments@, *round, winning_square, is_split),
        r.1 == miners_with_deployments(snapshot.round_id, snapshot.miners@),
{
    let round_id = snapshot.round_id;
    let miners = &snapshot.miners;
    let ws = &snapshot.deployments;
    let mut all: Vec<DeploymentInsert> = Vec::new();
    let mut count: u32 = 0;
    let mut i: usize = 0;
    while i < miners.len()
        invariant
            i <= miners@.len(),
            miners == &snapshot.miners,
            ws == &snapshot.deployments,
            round_id == snapshot.round_id,
            winning_square < 25,
            rewards_fit(round_id, miners@, *round, winning_square, is_split),
            all@ == round_records(round_id, miners@.take(i as int), ws@, *round, winning_square, is_split),
            miners@.len() <= u32::MAX,
            count == miners_with_deployments(round_id, miners@.take(i as int)),
            count <= i,
        decreases miners@.len() - i,
    {
        let m = &miners[i];
        proof {
            assert(miners@.take(i + 1).drop_last() =~= miners@.take(i as int));
            assert(miners@.take(i + 1).last() == miners@[i as int]);
        }
        if m.round_id != round_id {
            i = i + 1;
            continue;
        }
        let is_top = m.authority == round.top_miner;
        let found = find_miner_entries(ws, &m.authority);
        let ghost before = all@;
        let mut has_deployment = false;
        let mut sq: usize = 0;
        while sq < 25
            invariant
                sq <= 25,
                i < miners@.len(),
                *m == miners@[i as int],
                m.round_id == round_id,
                winning_square < 25,
                is_top == (m.authority@ == round.top_miner@),
                rewards_fit(round_id, miners@, *round, winning_square, is_split),
                found matches Some(j) ==> j < ws@.len() && miner_entries(ws@, m.authority@) == Some(ws@[j as int].squares@),
                found is None ==> miner_entries(ws@, m.authority@) is None,
                all@ == before + miner_records(round_id, *m, ws@, *round, winning_square, is_split, sq as int),
                has_deployment == (exists|t: int| 0 <= t < sq && m.deployed@[t] != 0),
            decreases 25 - sq,
        {
            let amount = m.deployed[sq];
            if amount != 0 {
                has_deployment = true;
                let deployed_slot = slot_in(ws, found, sq as u8, 0);
                let is_winner = sq == winning_square as usize;
                let (sol_earned, ore_earned) = if is_winner {
                    proof {
                        assert(ore_reward(
                            miners@[i as int].deployed@[winning_square as int],
                            round.deployed@[winning_square as int],
                            round.top_miner_reward,
                            round.motherlode,
                            is_split,
                            miners@[i as int].authority@ == round.top_miner@,
                        ) <= u64::MAX);
                    }
                    calculate_rewards(amount, round, winning_square, round.total_winnings, is_split, is_top)
                } else {
                    (0, 0)
                };
                let rec = DeploymentInsert {
                    round_id,
                    miner_pubkey: m.authority.clone(),
                    square_id: sq as u8,
                    amount,
                    deployed_slot,
                    sol_earned,
                    ore_earned,
                    is_winner: if is_winner { 1 } else { 0 },
                    is_top_miner: if is_winner && is_top { 1 } else { 0 },
                };
                all.push(rec);
                proof {
                    assert(all@ =~= before + miner_records(round_id, *m, ws@, *round, winning_square, is_split, sq + 1));
                }
            }
            sq = sq + 1;
        }
        proof {
            lemma_miner_records_len(round_id, *m, ws@, *round, winning_square, is_split, 25);
        }
        if has_deployment {
            count = count + 1;
        }
        i = i + 1;
    }
    assert(miners@.take(miners@.len() as int) =~= miners@);
    (all, count)
}

/// What storing a settled round writes.
pub struct FinalizedRound {
    pub round: RoundInsert,
    /// The deployment rows, counted in the round row either way.
    pub deployments: Vec<DeploymentInsert>,
    /// Whether the deployment rows are written: only when the listing of
    /// the miners succeeded.
    pub store_deployments: bool,
    pub winning_square: u8,
    pub motherlode_hit: bool,
}

/// The records of a round that settled with random value `rng`: its
/// deployments with rewards and its round row (`live` source, default rent
/// payer, expiry at the end slot). Whether the top-miner reward is split is
/// asked of the ORE program for the winning square (`rng % 25`), which is
/// what its `Round::is_split_reward` takes. The deployment rows are written
/// only when the listing of the miners succeeded; the round row is written
/// either way.
pub fn finalize_settled_round(snapshot: &RoundSnapshot, round: &RoundAccount, rng: u64) -> (r: FinalizedRound)
    requires
        snapshot.miners@.len() <= u32::MAX,
        rewards_fit(snapshot.round_id, snapshot.miners@, *round, (rng % 25) as u8, true),
        rewards_fit(snapshot.round_id, snapshot.miners@, *round, (rng % 25) as u8, false),
    ensures
        r.winning_square == rng % 25,
        r.store_deployments == !snapshot.gpa_failed,
        r.motherlode_hit == (round.motherlode > 0),
        r.deployments@ == round_records(
            snapshot.round_id,
            snapshot.miners@,
            snapshot.deployments@,
            *round,
            r.winning_square,
            split_reward(round.id, rng % 25),
        ),
        r.round.round_id == snapshot.round_id,
        r.round.expires_at == snapshot.end_slot,
        r.round.start_slot == snapshot.start_slot,
        r.round.end_slot == snapshot.end_slot,
        r.round.slot_hash == round.slot_hash,
        r.round.winning_square == r.winning_square,
        r.round.rent_payer@ == pubkey_text(Seq::new(32, |i: int| 0u8)),
        r.round.top_miner == round.top_miner,
        r.round.top_miner_reward == round.top_miner_reward,
        r.round.total_deployed == round.total_deployed,
        r.round.total_vaulted == round.total_vaulted,
        r.round.total_winnings == round.total_winnings,
        r.round.motherlode == round.motherlode,
        r.round.motherlode_hit == (if round.motherlode > 0 { 1u8 } else { 0u8 }),
        r.round.total_deployments == r.deployments@.len() as u32,
        r.round.unique_miners == miners_with_deployments(snapshot.round_id, snapshot.miners@),
        r.round.source@ == "live"@,
{
    let winning_square = (rng % 25) as u8;
    let is_split = round_is_split_reward(round.id, rng % 25);
    let (deployments, unique_miners) = finalized_deployments(snapshot, round, winning_square, is_split);
    let zero_key = [0u8; 32];
    let rent_payer = pubkey_to_string(zero_key);
    proof {
        assert(zero_key@ =~= Seq::new(32, |i: int| 0u8));
    }
    let total_deployments = deployments.len() as u32;
    let motherlode_hit = round.motherlode > 0;
    let round_row = RoundInsert {
        round_id: snapshot.round_id,
        expires_at: snapshot.end_slot,
        start_slot: snapshot.start_slot,
        end_slot: snapshot.end_slot,
        slot_hash: round.slot_hash,
        winning_square,
        rent_payer,
        top_miner: round.top_miner.clone(),
        top_miner_reward: round.top_miner_reward,
        total_deployed: round.total_deployed,
        total_vaulted: round.total_vaulted,
        total_winnings: round.total_winnings,
        motherlode: round.motherlode,
        motherlode_hit: if motherlode_hit { 1 } else { 0 },
        total_deployments,
        unique_miners,
        source: "live".to_owned(),
    };
    FinalizedRound { round: round_row, deployments, store_deployments: !snapshot.gpa_failed, winning_square, motherlode_hit }
}

/// Change of the mint supply since the previous snapshot; zero when there is
/// no previous snapshot (a previous supply of zero).
pub open spec fn supply_change_of(supply: u64, previous_supply: u64) -> int {
    if previous_supply > 0 {
        (supply as i64) as int - (previous_supply as i64) as int
    } else {
        0
    }
}

/// The mint snapshot stored at the end of a round (11 decimals).
pub fn mint_snapshot(round_id: u64, supply: u64, previous_supply: u64) -> (r: MintSnapshot)
    requires
        i64::MIN <= supply_change_of(supply, previous_supply) <= i64::MAX,
    ensures
        r.round_id == round_id,
        r.supply == supply,
        r.decimals == 11,
        r.supply_change == supply_change_of(supply, previous_supply),
{
    let supply_change = if previous_supply > 0 {
        supply as i64 - previous_supply as i64
    } else {
        0
    };
    MintSnapshot { round_id, supply, decimals: 11, supply_change }
}

// ---------------------------------------------------------------------------
// Estimating the top miner before the chain names it
// ---------------------------------------------------------------------------

/// The first miner (in snapshot order) with a stake on `sq` whose key parses.
pub open spec fn first_staked_miner(miners: Seq<MinerAccount>, sq: int) -> Option<Seq<u8>>
    decreases miners.len(),
{
    if miners.len() == 0 {
        None
    } else if miners[0].deployed@[sq] > 0 && parsed_pubkey(miners[0].authority@) is Some {
        parsed_pubkey(miners[0].authority@)
    } else {
        first_staked_miner(miners.drop_first(), sq)
    }
}

/// The first miner (in snapshot order) whose stake on `sq` covers `sample`,
/// i.e. `cumulative <= sample < cumulative + deployed`, and whose key parses.
pub open spec fn first_covering_miner(miners: Seq<MinerAccount>, sq: int, sample: u64) -> Option<Seq<u8>>
    decreases miners.len(),
{
    if miners.len() == 0 {
        None
    } else if miners[0].deployed@[sq] > 0 && miners[0].cumulative@[sq] <= sample
        < miners[0].cumulative@[sq] + miners[0].deployed@[sq] && parsed_pubkey(miners[0].authority@) is Some {
        parsed_pubkey(miners[0].authority@)
    } else {
        first_covering_miner(miners.drop_first(), sq, sample)
    }
}

/// The top miner the chain will pick, estimated from the snapshot: nothing
/// without a random value or without stake on the winning square; when the
/// reward is split, any miner on the winning square; otherwise the miner
/// whose cumulative range on the winning square holds the sample.
pub open spec fn optimistic_top_miner(round: RoundAccount, miners: Seq<MinerAccount>) -> Option<Seq<u8>> {
    match slot_hash_rng(round.slot_hash@) {
        None => None,
        Some(rng) => {
            let ws = (rng % 25) as int;
            let total = round.deployed@[ws];
            if total == 0 {
                None
            } else if split_reward(round.id, rng % 25) {
                first_staked_miner(miners, ws)
            } else {
                first_covering_miner(miners, ws, bit_reversal(rng) % total)
            }
        },
    }
}

/// Miner `m`'s stake range on `sq`, `[cumulative, cumulative + deployed)`,
/// is non-empty and holds `sample`.
pub open spec fn range_holds(m: MinerAccount, sq: int, sample: int) -> bool {
    m.deployed@[sq] > 0 && m.cumulative@[sq] <= sample && sample < m.cumulative@[sq] + m.deployed@[sq]
}

/// Miner `m` stakes on `sq` and its key parses.
pub open spec fn staked_with_key(m: MinerAccount, sq: int) -> bool {
    m.deployed@[sq] > 0 && parsed_pubkey(m.authority@) is Some
}

proof fn lemma_first_covering(miners: Seq<MinerAccount>, sq: int, sample: u64)
    ensures
        first_covering_miner(miners, sq, sample) matches Some(k) ==> exists|i: int| 0 <= i < miners.len()
            && range_holds(#[trigger] miners[i], sq, sample as int) && parsed_pubkey(miners[i].authority@) == Some(k)
            && forall|j: int| 0 <= j < i ==> !(range_holds(#[trigger] miners[j], sq, sample as int)
                && parsed_pubkey(miners[j].authority@) is Some),
        (exists|i: int| 0 <= i < miners.len() && range_holds(#[trigger] miners[i], sq, sample as int)
            && parsed_pubkey(miners[i].authority@) is Some) ==> first_covering_miner(miners, sq, sample) is Some,
    decreases miners.len(),
{
    if miners.len() > 0 {
        let rest = miners.drop_first();
        lemma_first_covering(rest, sq, sample);
        if first_covering_miner(miners, sq, sample) is Some {
            let k = first_covering_miner(miners, sq, sample).unwrap();
            if range_holds(miners[0], sq, sample as int) && parsed_pubkey(miners[0].authority@) is Some {
                assert(range_holds(miners[0], sq, sample as int) && parsed_pubkey(miners[0].authority@) == Some(k)
                    && forall|j: int| 0 <= j < 0 ==> !(range_holds(#[trigger] miners[j], sq, sample as int)
                        && parsed_pubkey(miners[j].authority@) is Some));
            } else {
                let j = choose|j: int| 0 <= j < rest.len() && range_holds(#[trigger] rest[j], sq, sample as int)
                    && parsed_pubkey(rest[j].authority@) == Some(k)
                    && forall|t: int| 0 <= t < j ==> !(range_holds(#[trigger] rest[t], sq, sample as int)
                        && parsed_pubkey(rest[t].authority@) is Some);
                assert(miners[j + 1] == rest[j]);
                assert forall|t: int| 0 <= t < j + 1 implies !(range_holds(#[trigger] miners[t], sq, sample as int)
                    && parsed_pubkey(miners[t].authority@) is Some) by {
                    if t > 0 {
                        assert(miners[t] == rest[t - 1]);
                    }
                }
            }
        }
        if exists|i: int| 0 <= i < miners.len() && range_holds(#[trigger] miners[i], sq, sample as int)
            && parsed_pubkey(miners[i].authority@) is Some {
            let i = choose|i: int| 0 <= i < miners.len() && range_holds(#[trigger] miners[i], sq, sample as int)
                && parsed_pubkey(miners[i].authority@) is Some;
            if i > 0 {
                assert(rest[i - 1] == miners[i]);
            }
        }
    }
}

proof fn lemma_first_staked(miners: Seq<MinerAccount>, sq: int)
    ensures
        first_staked_miner(miners, sq) matches Some(k) ==> exists|i: int| 0 <= i < miners.len()
            && staked_with_key(#[trigger] miners[i], sq) && parsed_pubkey(miners[i].authority@) == Some(k)
            && forall|j: int| 0 <= j < i ==> !staked_with_key(#[trigger] miners[j], sq),
        (exists|i: int| 0 <= i < miners.len() && staked_with_key(#[trigger] miners[i], sq))
            ==> first_staked_miner(miners, sq) is Some,
    decreases miners.len(),
{
    if miners.len() > 0 {
        let rest = miners.drop_first();
        lemma_first_staked(rest, sq);
        if first_staked_miner(miners, sq) is Some {
            let k = first_staked_miner(miners, sq).unwrap();
            if staked_with_key(miners[0], sq) {
                assert(forall|j: int| 0 <= j < 0 ==> !staked_with_key(#[trigger] miners[j], sq));
            } else {
                let j = choose|j: int| 0 <= j < rest.len() && staked_with_key(#[trigger] rest[j], sq)
                    && parsed_pubkey(rest[j].authority@) == Some(k)
                    && forall|t: int| 0 <= t < j ==> !staked_with_key(#[trigger] rest[t], sq);
                assert(miners[j + 1] == rest[j]);
                assert forall|t: int| 0 <= t < j + 1 implies !staked_with_key(#[trigger] miners[t], sq) by {
                    if t > 0 {
                        assert(miners[t] == rest[t - 1]);
                    }
                }
            }
        }
        if exists|i: int| 0 <= i < miners.len() && staked_with_key(#[trigger] miners[i], sq) {
            let i = choose|i: int| 0 <= i < miners.len() && staked_with_key(#[trigger] miners[i], sq);
            if i > 0 {
                assert(rest[i - 1] == miners[i]);
            }
        }
    }
}

/// The estimated top miner of a round. Without a random value, or with no
/// stake on the winning square `ws = rng % 25`, there is none. When the
/// reward is not split, with `sample = bit_reversal(rng) % total` (the
/// total staked on `ws`): the miner named is the first, in snapshot order,
/// whose stake range on `ws` holds `sample` and whose key is valid; one is
/// named whenever such a miner exists; so when no two stake ranges on `ws`
/// overlap, it is the miner whose range holds the sample. When the reward
/// is split, the miner named is the first with a stake on `ws` and a valid
/// key, and one is named whenever such a miner exists.
pub proof fn lemma_optimistic_top_miner(round: RoundAccount, miners: Seq<MinerAccount>)
    ensures
        slot_hash_rng(round.slot_hash@) is None ==> optimistic_top_miner(round, miners) is None,
        slot_hash_rng(round.slot_hash@) matches Some(rng) ==> (round.deployed@[(rng % 25) as int] == 0
            ==> optimistic_top_miner(round, miners) is None),
        slot_hash_rng(round.slot_hash@) matches Some(rng) ==> (round.deployed@[(rng % 25) as int] > 0
            && !split_reward(round.id, rng % 25) ==> {
            let ws = (rng % 25) as int;
            let sample = (bit_reversal(rng) % round.deployed@[ws]) as int;
            &&& optimistic_top_miner(round, miners) matches Some(k) ==> exists|i: int| 0 <= i < miners.len()
                && range_holds(#[trigger] miners[i], ws, sample) && parsed_pubkey(miners[i].authority@) == Some(k)
                && forall|j: int| 0 <= j < i ==> !(range_holds(#[trigger] miners[j], ws, sample)
                    && parsed_pubkey(miners[j].authority@) is Some)
            &&& (exists|i: int| 0 <= i < miners.len() && range_holds(#[trigger] miners[i], ws, sample)
                && parsed_pubkey(miners[i].authority@) is Some) ==> optimistic_top_miner(round, miners) is Some
            &&& forall|i: int| 0 <= i < miners.len() && range_holds(#[trigger] miners[i], ws, sample)
                && parsed_pubkey(miners[i].authority@) is Some
                && (forall|j: int| 0 <= j < miners.len() && j != i ==> !range_holds(#[trigger] miners[j], ws, sample))
                ==> optimistic_top_miner(round, miners) == parsed_pubkey(miners[i].authority@)
        }),
        slot_hash_rng(round.slot_hash@) matches Some(rng) ==> (round.deployed@[(rng % 25) as int] > 0
            && split_reward(round.id, rng % 25) ==> {
            let ws = (rng % 25) as int;
            &&& optimistic_top_miner(round, miners) matches Some(k) ==> exists|i: int| 0 <= i < miners.len()
                && staked_with_key(#[trigger] miners[i], ws) && parsed_pubkey(miners[i].authority@) == Some(k)
                && forall|j: int| 0 <= j < i ==> !staked_with_key(#[trigger] miners[j], ws)
            &&& (exists|i: int| 0 <= i < miners.len() && staked_with_key(#[trigger] miners[i], ws))
                ==> optimistic_top_miner(round, miners) is Some
        }),
{
    if slot_hash_rng(round.slot_hash@) is Some {
        let rng = slot_hash_rng(round.slot_hash@).unwrap();
        let ws = (rng % 25) as int;
        let total = round.deployed@[ws];
        if total > 0 {
            let sample = bit_reversal(rng) % total;
            lemma_first_covering(miners, ws, sample);
            lemma_first_staked(miners, ws);
            if !split_reward(round.id, rng % 25) {
                assert forall|i: int| 0 <= i < miners.len() && range_holds(#[trigger] miners[i], ws, sample as int)
                    && parsed_pubkey(miners[i].authority@) is Some
                    && (forall|j: int| 0 <= j < miners.len() && j != i ==> !range_holds(#[trigger] miners[j], ws, sample as int))
                    implies optimistic_top_miner(round, miners) == parsed_pubkey(miners[i].authority@) by {
                    let k = first_covering_miner(miners, ws, sample).unwrap();
                    let j = choose|j: int| 0 <= j < miners.len() && range_holds(#[trigger] miners[j], ws, sample as int)
                        && parsed_pubkey(miners[j].authority@) == Some(k)
                        && forall|t: int| 0 <= t < j ==> !(range_holds(#[trigger] miners[t], ws, sample as int)
                            && parsed_pubkey(miners[t].authority@) is Some);
                    assert(j == i);
                }
            }
        }
    }
}

/// The stake ranges on the winning square fit in 64 bits.
pub open spec fn ranges_fit(round: RoundAccount, miners: Seq<MinerAccount>) -> bool {
    match slot_hash_rng(round.slot_hash@) {
        None => true,
        Some(rng) => forall|i: int|
            0 <= i < miners.len() ==> (#[trigger] miners[i]).cumulative@[(rng % 25) as int]
                + miners[i].deployed@[(rng % 25) as int] <= u64::MAX,
    }
}

/// Estimate the top miner from the snapshot (see `optimistic_top_miner`).
pub fn calculate_optimistic_top_miner(round: &RoundAccount, snapshot: &RoundSnapshot) -> (r: Option<[u8; 32]>)
    requires
        ranges_fit(*round, snapshot.miners@),
    ensures
        r matches Some(k) ==> optimistic_top_miner(*round, snapshot.miners@) == Some(k@),
        r is None ==> optimistic_top_miner(*round, snapshot.miners@) is None,
{
    let rng = match round_rng(round.slot_hash) {
        Some(v) => v,
        None => return None,
    };
    let ws = (rng % 25) as usize;
    let total = round.deployed[ws];
    if total == 0 {
        return None;
    }
    let miners = &snapshot.miners;
    let split = round_is_split_reward(round.id, rng % 25);
    let sample = round_top_miner_sample(rng, total);
    let mut i: usize = 0;
    assert(miners@.skip(0) =~= miners@);
    while i < miners.len()
        invariant
            i <= miners@.len(),
            ws < 25,
            ws == rng % 25,
            ranges_fit(*round, miners@),
            miners@ == snapshot.miners@,
            slot_hash_rng(round.slot_hash@) == Some(rng),
            total == round.deployed@[ws as int],
            total > 0,
            sample == bit_reversal(rng) % total,
            split == split_reward(round.id, rng % 25),
            split ==> first_staked_miner(miners@, ws as int) == first_staked_miner(miners@.skip(i as int), ws as int),
            !split ==> first_covering_miner(miners@, ws as int, sample) == first_covering_miner(miners@.skip(i as int), ws as int, sample),
        decreases miners@.len() - i,
    {
        let m = &miners[i];
        assert(miners@.skip(i as int).drop_first() =~= miners@.skip(i + 1));
        assert(miners@.skip(i as int)[0] == miners@[i as int]);
        let deployed = m.deployed[ws];
        if deployed > 0 {
            let candidate = if split {
                true
            } else {
                let cumulative = m.cumulative[ws];
                proof {
                    assert(miners@[i as int].cumulative@[ws as int] + miners@[i as int].deployed@[ws as int] <= u64::MAX);
                }
                sample >= cumulative && sample < cumulative + deployed
            };
            if candidate {
                match parse_pubkey(m.authority.as_str()) {
                    Some(k) => {
                        proof {
                            let rest = miners@.skip(i as int);
                            assert(rest[0] == miners@[i as int]);
                            assert(parsed_pubkey(rest[0].authority@) == Some(k@));
                            if split {
                                assert(first_staked_miner(rest, ws as int) == Some(k@));
                            } else {
                                assert(first_covering_miner(rest, ws as int, sample) == Some(k@));
                            }
                        }
                        return Some(k);
                    },
                    None => {},
                }
            }
        }
        i = i + 1;
    }
    None
}

/// What to do after one poll of a round that is being finalized.
pub enum FinalizationPoll {
    /// Slot hash and top miner are both known: finalize with this round.
    Ready,
    /// Keep polling.
    Wait,
}

/// The decision after one poll: ready once the round has a slot hash (not
/// all zeros) and a top miner (not the default key).
pub fn finalization_poll(round: &RoundAccount) -> (r: FinalizationPoll)
    ensures
        r is Ready <==> ((exists|i: int| 0 <= i < 32 && round.slot_hash@[i] != 0u8)
            && round.top_miner@ != pubkey_text(Seq::new(32, |i: int| 0u8))),
{
    if has_slot_hash(round) && has_top_miner(round) {
        FinalizationPoll::Ready
    } else {
        FinalizationPoll::Wait
    }
}

/// Whether the round's slot hash is set (not all zeros).
pub fn has_slot_hash(round: &RoundAccount) -> (b: bool)
    ensures
        b == (exists|i: int| 0 <= i < 32 && round.slot_hash@[i] != 0u8),
{
    let mut i: usize = 0;
    while i < 32
        invariant
            i <= 32,
            forall|j: int| 0 <= j < i ==> round.slot_hash@[j] == 0u8,
        decreases 32 - i,
    {
        if round.slot_hash[i] != 0 {
            return true;
        }
        i = i + 1;
    }
    false
}

/// Whether the round names a top miner (not the default key).
pub fn has_top_miner(round: &RoundAccount) -> (b: bool)
    ensures
        b == (round.top_miner@ != pubkey_text(Seq::new(32, |i: int| 0u8))),
{
    let zero_key = [0u8; 32];
    let default_key = pubkey_to_string(zero_key);
    proof {
        assert(zero_key@ =~= Seq::new(32, |i: int| 0u8));
    }
    !(round.top_miner == default_key)
}

/// When polling times out: the last round seen with a slot hash, with the
/// estimated top miner when one can be estimated; an error without one.
pub fn resolve_finalization_timeout(last_with_slot_hash: Option<RoundAccount>, snapshot: &RoundSnapshot) -> (r: Result<RoundAccount, ()>)
    requires
        last_with_slot_hash matches Some(round) ==> ranges_fit(round, snapshot.miners@),
    ensures
        last_with_slot_hash is None ==> r is Err,
        last_with_slot_hash matches Some(round) ==> r matches Ok(out) && out.id == round.id
            && out.slot_hash == round.slot_hash && out.deployed == round.deployed
            && out.total_winnings == round.total_winnings && out.motherlode == round.motherlode
            && out.top_miner_reward == round.top_miner_reward
            && out.total_deployed == round.total_deployed && out.total_vaulted == round.total_vaulted
            && (match optimistic_top_miner(round, snapshot.miners@) {
                Some(k) => out.top_miner@ == pubkey_text(k),
                None => out.top_miner == round.top_miner,
            }),
{
    match last_with_slot_hash {
        None => Err(()),
        Some(mut round) => {
            match calculate_optimistic_top_miner(&round, snapshot) {
                Some(k) => {
                    round.top_miner = pubkey_to_string(k);
                },
                None => {},
            }
            Ok(round)
        },
    }
}

// ---------------------------------------------------------------------------
// Snapshots stored before finalization, and rounds that never settled
// ---------------------------------------------------------------------------

/// The miners of the snapshot that played in `round_id`, in order.
pub open spec fn round_miners_spec(all: Seq<MinerAccount>, round_id: u64) -> Seq<MinerAccount> {
    all.filter(|m: MinerAccount| m.round_id == round_id)
}

/// Keep the miners whose last round is `round_id`.
pub fn miners_of_round(all: &Vec<MinerAccount>, round_id: u64) -> (r: Vec<MinerAccount>)
    ensures
        r@ == round_miners_spec(all@, round_id),
{
    let mut r: Vec<MinerAccount> = Vec::new();
    let mut i: usize = 0;
    while i < all.len()
        invariant
            i <= all@.len(),
            r@ == round_miners_spec(all@.take(i as int), round_id),
        decreases all@.len() - i,
    {
        proof {
            reveal(Seq::filter);
            assert(all@.take(i + 1).drop_last() =~= all@.take(i as int));
        }
        if all[i].round_id == round_id {
            r.push(all[i].copy());
        }
        i = i + 1;
    }
    assert(all@.take(all@.len() as int) =~= all@);
    r
}

/// The balances of a miner at the end of round `round_id`.
pub open spec fn miner_snapshot_of(round_id: u64, m: MinerAccount) -> MinerSnapshot {
    MinerSnapshot {
        round_id,
        miner_pubkey: m.authority,
        unclaimed_ore: m.rewards_ore,
        refined_ore: m.refined_ore,
        lifetime_sol: m.lifetime_rewards_sol,
        lifetime_ore: m.lifetime_rewards_ore,
    }
}

/// One balance snapshot per miner of the snapshot, in order.
pub fn miner_snapshots(round_id: u64, miners: &Vec<MinerAccount>) -> (r: Vec<MinerSnapshot>)
    ensures
        r@ == miners@.map_values(|m: MinerAccount| miner_snapshot_of(round_id, m)),
{
    let mut r: Vec<MinerSnapshot> = Vec::new();
    let mut i: usize = 0;
    while i < miners.len()
        invariant
            i <= miners@.len(),
            r@ == miners@.take(i as int).map_values(|m: MinerAccount| miner_snapshot_of(round_id, m)),
        decreases miners@.len() - i,
    {
        let m = &miners[i];
        r.push(MinerSnapshot {
            round_id,
            miner_pubkey: m.authority.clone(),
            unclaimed_ore: m.rewards_ore,
            refined_ore: m.refined_ore,
            lifetime_sol: m.lifetime_rewards_sol,
            lifetime_ore: m.lifetime_rewards_ore,
        });
        proof {
            assert(r@ =~= miners@.take(i + 1).map_values(|m: MinerAccount| miner_snapshot_of(round_id, m)));
        }
        i = i + 1;
    }
    assert(miners@.take(miners@.len() as int) =~= miners@);
    r
}

/// The treasury snapshot stored at the end of round `round_id`.
pub fn treasury_snapshot(round_id: u64, treasury: &TreasuryAccount) -> (r: TreasurySnapshot)
    ensures
        r.balance == treasury.balance,
        r.motherlode == treasury.motherlode,
        r.total_staked == treasury.total_staked,
        r.total_unclaimed == treasury.total_unclaimed,
        r.total_refined == treasury.total_refined,
        r.round_id == round_id,
{
    TreasurySnapshot {
        balance: treasury.balance,
        motherlode: treasury.motherlode,
        total_staked: treasury.total_staked,
        total_unclaimed: treasury.total_unclaimed,
        total_refined: treasury.total_refined,
        round_id,
    }
}

/// A round whose top miner never appeared in time, kept for a later backfill.
#[derive(Debug)]
pub struct PartialRoundInsert {
    pub round_id: u64,
    pub start_slot: u64,
    pub end_slot: u64,
    pub slot_hash: [u8; 32],
    /// 255 when the slot hash is unknown.
    pub winning_square: u8,
    pub total_deployed: u64,
    pub total_vaulted: u64,
    pub total_winnings: u64,
    pub top_miner_reward: u64,
    pub motherlode: u64,
    pub unique_miners: u32,
    pub total_deployments: u32,
    pub failure_reason: String,
}

impl PartialRoundInsert {
    /// A partial round from what the snapshot and the chain provide.
    pub fn from_snapshot(
        round_id: u64,
        start_slot: u64,
        end_slot: u64,
        slot_hash: [u8; 32],
        winning_square: u8,
        total_deployed: u64,
        total_vaulted: u64,
        total_winnings: u64,
        top_miner_reward: u64,
        motherlode: u64,
        unique_miners: u32,
        total_deployments: u32,
        failure_reason: String,
    ) -> (r: Self)
        ensures
            r == (PartialRoundInsert {
                round_id,
                start_slot,
                end_slot,
                slot_hash,
                winning_square,
                total_deployed,
                total_vaulted,
                total_winnings,
                top_miner_reward,
                motherlode,
                unique_miners,
                total_deployments,
                failure_reason,
            }),
    {
        PartialRoundInsert {
            round_id,
            start_slot,
            end_slot,
            slot_hash,
            winning_square,
            total_deployed,
            total_vaulted,
            total_winnings,
            top_miner_reward,
            motherlode,
            unique_miners,
            total_deployments,
            failure_reason,
        }
    }
}

/// The winning square of a round, or 255 while its slot hash is unknown.
pub fn winning_square_or_unknown(slot_hash: [u8; 32]) -> (ws: u8)
    ensures
        ws == match slot_hash_rng(slot_hash@) {
            Some(rng) => (rng % 25) as u8,
            None => 255u8,
        },
{
    match round_rng(slot_hash) {
        Some(rng) => (rng % 25) as u8,
        None => 255,
    }
}

/// Total number of square entries over all miners.
pub open spec fn entry_count(ws: Seq<MinerSquares>) -> int
    decreases ws.len(),
{
    if ws.len() == 0 {
        0
    } else {
        entry_count(ws.drop_last()) + ws.last().squares@.len()
    }
}

/// The partial round stored when finalization times out: the round's totals
/// with its winning square (255 without a slot hash), the snapshot's miner
/// count and its number of square entries.
pub fn partial_round(snapshot: &RoundSnapshot, round: &RoundAccount, failure_reason: String) -> (r: PartialRoundInsert)
    requires
        snapshot.miners@.len() <= u32::MAX,
        entry_count(snapshot.deployments@) <= u32::MAX,
    ensures
        r.round_id == snapshot.round_id,
        r.start_slot == snapshot.start_slot,
        r.end_slot == snapshot.end_slot,
        r.slot_hash == round.slot_hash,
        r.winning_square == match slot_hash_rng(round.slot_hash@) {
            Some(rng) => (rng % 25) as u8,
            None => 255u8,
        },
        r.total_deployed == round.total_deployed,
        r.total_vaulted == round.total_vaulted,
        r.total_winnings == round.total_winnings,
        r.top_miner_reward == round.top_miner_reward,
        r.motherlode == round.motherlode,
        r.unique_miners == snapshot.miners@.len(),
        r.total_deployments == entry_count(snapshot.deployments@),
        r.failure_reason == failure_reason,
{
    let ws = &snapshot.deployments;
    let mut total: u32 = 0;
    let mut i: usize = 0;
    while i < ws.len()
        invariant
            i <= ws@.len(),
            ws == &snapshot.deployments,
            entry_count(snapshot.deployments@) <= u32::MAX,
            total == entry_count(ws@.take(i as int)),
        decreases ws@.len() - i,
    {
        proof {
            assert(ws@.take(i + 1).drop_last() =~= ws@.take(i as int));
            lemma_entry_count_prefix(ws@, i + 1);
        }
        total = total + ws[i].squares.len() as u32;
        i = i + 1;
    }
    assert(ws@.take(ws@.len() as int) =~= ws@);
    PartialRoundInsert::from_snapshot(
        snapshot.round_id,
        snapshot.start_slot,
        snapshot.end_slot,
        round.slot_hash,
        winning_square_or_unknown(round.slot_hash),
        round.total_deployed,
        round.total_vaulted,
        round.total_winnings,
        round.top_miner_reward,
        round.motherlode,
        snapshot.miners.len() as u32,
        total,
        failure_reason,
    )
}

proof fn lemma_entry_count_prefix(ws: Seq<MinerSquares>, k: int)
    requires
        0 <= k <= ws.len(),
    ensures
        entry_count(ws.take(k)) <= entry_count(ws),
    decreases ws.len() - k,
{
    if k < ws.len() {
        lemma_entry_count_prefix(ws, k + 1);
        assert(ws.take(k + 1).drop_last() =~= ws.take(k));
    } else {
        assert(ws.take(k) =~= ws);
    }
}

} // verus!
