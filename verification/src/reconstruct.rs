//! Rebuilding a round's deployments from its parsed Deploy instructions,
//! and turning a rebuilt round into stored deployment rows.

use vstd::prelude::*;
use crate::records::DeploymentInsert;
use crate::live::AppRound;
use std::collections::HashMap;

verus! {

broadcast use vstd::string::group_string_axioms;

/// One Deploy instruction of a round: the same amount on every chosen square.
#[derive(Debug)]
pub struct ParsedDeployment {
    /// Base58 key of the deploying authority.
    pub authority: String,
    /// Which squares the instruction deploys on.
    pub squares: [bool; 25],
    pub amount_per_square: u64,
    pub slot: u64,
}

/// A single deployment rebuilt from transactions (held in memory until it
/// is finalized).
#[derive(Debug)]
pub struct BackfillDeployment {
    pub miner_pubkey: String,
    pub square_id: u8,
    pub amount: u64,
    pub deployed_slot: u64,
}

/// Identifies a miner's stake on one square.
pub type StakeKey = (Seq<char>, u8);

/// Adds the squares `0..k` of `pd` to the running totals: amounts add up,
/// the earliest slot is kept.
pub open spec fn add_squares(acc: Map<StakeKey, (int, u64)>, pd: ParsedDeployment, k: int) -> Map<StakeKey, (int, u64)>
    decreases k,
{
    if k <= 0 {
        acc
    } else {
        let prev = add_squares(acc, pd, k - 1);
        let key = (pd.authority@, (k - 1) as u8);
        if !pd.squares@[k - 1] {
            prev
        } else if prev.contains_key(key) {
            let (amount, slot) = prev[key];
            prev.insert(key, (amount + pd.amount_per_square, if pd.slot < slot { pd.slot } else { slot }))
        } else {
            prev.insert(key, (pd.amount_per_square as int, pd.slot))
        }
    }
}

/// Per miner and square: the total amount deployed and the earliest slot.
pub open spec fn aggregate(pds: Seq<ParsedDeployment>) -> Map<StakeKey, (int, u64)>
    decreases pds.len(),
{
    if pds.len() == 0 {
        Map::empty()
    } else {
        add_squares(aggregate(pds.drop_last()), pds.last(), 25)
    }
}

/// The key of a rebuilt deployment.
pub open spec fn key_of(d: BackfillDeployment) -> StakeKey {
    (d.miner_pubkey@, d.square_id)
}

/// `v` lists exactly the entries of `agg`, each key once.
pub open spec fn lists_exactly(v: Seq<BackfillDeployment>, agg: Map<StakeKey, (int, u64)>) -> bool {
    &&& forall|i: int, j: int| 0 <= i < j < v.len() ==> key_of(#[trigger] v[i]) != key_of(#[trigger] v[j])
    &&& forall|i: int| 0 <= i < v.len() ==> agg.contains_key(key_of(#[trigger] v[i]))
        && agg[key_of(v[i])] == (v[i].amount as int, v[i].deployed_slot)
    &&& forall|k: StakeKey| agg.contains_key(k) ==> exists|i: int| 0 <= i < v.len() && key_of(#[trigger] v[i]) == k
}

/// Non-negative totals.
pub open spec fn nonneg_totals(m: Map<StakeKey, (int, u64)>) -> bool {
    forall|key: StakeKey| #[trigger] m.contains_key(key) ==> m[key].0 >= 0
}

/// `b` keeps every key of `a` with a total at least as large.
pub open spec fn grows(a: Map<StakeKey, (int, u64)>, b: Map<StakeKey, (int, u64)>) -> bool {
    forall|key: StakeKey| #[trigger] a.contains_key(key) ==> b.contains_key(key) && a[key].0 <= b[key].0
}

proof fn lemma_add_squares_step(acc: Map<StakeKey, (int, u64)>, pd: ParsedDeployment, k: int)
    requires
        1 <= k,
        nonneg_totals(add_squares(acc, pd, k - 1)),
    ensures
        grows(add_squares(acc, pd, k - 1), add_squares(acc, pd, k)),
        nonneg_totals(add_squares(acc, pd, k)),
{
    let prev = add_squares(acc, pd, k - 1);
    let key = (pd.authority@, (k - 1) as u8);
    assert(add_squares(acc, pd, k) == (if !pd.squares@[k - 1] {
        prev
    } else if prev.contains_key(key) {
        prev.insert(key, (prev[key].0 + pd.amount_per_square, if pd.slot < prev[key].1 { pd.slot } else { prev[key].1 }))
    } else {
        prev.insert(key, (pd.amount_per_square as int, pd.slot))
    }));
}

proof fn lemma_add_squares_grows(acc: Map<StakeKey, (int, u64)>, pd: ParsedDeployment, k: int)
    requires
        0 <= k,
        nonneg_totals(acc),
    ensures
        grows(acc, add_squares(acc, pd, k)),
        nonneg_totals(add_squares(acc, pd, k)),
    decreases k,
{
    if k > 0 {
        lemma_add_squares_grows(acc, pd, k - 1);
        lemma_add_squares_step(acc, pd, k);
    }
}

proof fn lemma_aggregate_nonneg(pds: Seq<ParsedDeployment>)
    ensures
        nonneg_totals(aggregate(pds)),
    decreases pds.len(),
{
    if pds.len() > 0 {
        lemma_aggregate_nonneg(pds.drop_last());
        lemma_add_squares_grows(aggregate(pds.drop_last()), pds.last(), 25);
    }
}

/// Totals only grow as more instructions are added.
proof fn lemma_aggregate_prefix(pds: Seq<ParsedDeployment>, j: int)
    requires
        0 <= j <= pds.len(),
    ensures
        grows(aggregate(pds.take(j)), aggregate(pds)),
    decreases pds.len() - j,
{
    if j == pds.len() {
        assert(pds.take(j) =~= pds);
    } else {
        lemma_aggregate_prefix(pds, j + 1);
        assert(pds.take(j + 1).drop_last() =~= pds.take(j));
        assert(pds.take(j + 1).last() == pds[j]);
        lemma_aggregate_nonneg(pds.take(j));
        lemma_add_squares_grows(aggregate(pds.take(j)), pds[j], 25);
    }
}

proof fn lemma_add_squares_prefix(acc: Map<StakeKey, (int, u64)>, pd: ParsedDeployment, k: int)
    requires
        0 <= k <= 25,
        nonneg_totals(acc),
    ensures
        grows(add_squares(acc, pd, k), add_squares(acc, pd, 25)),
    decreases 25 - k,
{
    if k < 25 {
        lemma_add_squares_prefix(acc, pd, k + 1);
        lemma_add_squares_grows(acc, pd, k);
        lemma_add_squares_step(acc, pd, k + 1);
    }
}

/// `pd` deploys on the square of `key` for the miner of `key`.
pub open spec fn deploys_on(pd: ParsedDeployment, key: StakeKey) -> bool {
    pd.authority@ == key.0 && key.1 < 25 && pd.squares@[key.1 as int]
}

/// The amount that `pds` put on `key`: each instruction deploying there
/// adds its amount per square.
pub open spec fn amount_on(pds: Seq<ParsedDeployment>, key: StakeKey) -> int
    decreases pds.len(),
{
    if pds.len() == 0 {
        0
    } else {
        amount_on(pds.drop_last(), key) + (if deploys_on(pds.last(), key) { pds.last().amount_per_square as int } else { 0int })
    }
}

/// Among the squares `0..k` of `pd`, one is `key`'s.
spec fn hits(pd: ParsedDeployment, key: StakeKey, k: int) -> bool {
    pd.authority@ == key.0 && (key.1 as int) < k && pd.squares@[key.1 as int]
}

proof fn lemma_add_squares_effect(acc: Map<StakeKey, (int, u64)>, pd: ParsedDeployment, k: int)
    requires
        0 <= k <= 25,
    ensures
        forall|key: StakeKey| #[trigger] add_squares(acc, pd, k).contains_key(key) == (acc.contains_key(key) || hits(pd, key, k)),
        forall|key: StakeKey| !hits(pd, key, k) && acc.contains_key(key) ==> #[trigger] add_squares(acc, pd, k)[key] == acc[key],
        forall|key: StakeKey| hits(pd, key, k) ==> #[trigger] add_squares(acc, pd, k)[key] == (if acc.contains_key(key) {
            (acc[key].0 + pd.amount_per_square, if pd.slot < acc[key].1 { pd.slot } else { acc[key].1 })
        } else {
            (pd.amount_per_square as int, pd.slot)
        }),
    decreases k,
{
    if k > 0 {
        lemma_add_squares_effect(acc, pd, k - 1);
        let prev = add_squares(acc, pd, k - 1);
        let nk = (pd.authority@, (k - 1) as u8);
        assert((k - 1) as u8 as int == k - 1);
        assert forall|key: StakeKey| #[trigger] add_squares(acc, pd, k).contains_key(key) == (acc.contains_key(key) || hits(pd, key, k)) by {
            if key != nk {
                assert(hits(pd, key, k) == hits(pd, key, k - 1));
            } else {
                assert(!hits(pd, key, k - 1));
            }
        }
        assert forall|key: StakeKey| !hits(pd, key, k) && acc.contains_key(key) implies #[trigger] add_squares(acc, pd, k)[key] == acc[key] by {
            if key != nk {
                assert(hits(pd, key, k) == hits(pd, key, k - 1));
            } else {
                assert(!hits(pd, key, k - 1));
            }
        }
        assert forall|key: StakeKey| hits(pd, key, k) implies #[trigger] add_squares(acc, pd, k)[key] == (if acc.contains_key(key) {
            (acc[key].0 + pd.amount_per_square, if pd.slot < acc[key].1 { pd.slot } else { acc[key].1 })
        } else {
            (pd.amount_per_square as int, pd.slot)
        }) by {
            if key != nk {
                assert(hits(pd, key, k) == hits(pd, key, k - 1));
            } else {
                assert(!hits(pd, key, k - 1));
            }
        }
    }
}

/// What a rebuilt round holds, whatever the order of its instructions: a
/// (miner, square) appears exactly when some instruction of that miner
/// deploys on that square; its amount is the sum of what those
/// instructions put there; and its slot is the earliest of their slots
/// (no later than any of them, and the slot of one of them).
pub proof fn lemma_aggregate_meaning(pds: Seq<ParsedDeployment>)
    ensures
        forall|key: StakeKey| #[trigger] aggregate(pds).contains_key(key)
            <==> exists|i: int| 0 <= i < pds.len() && deploys_on(#[trigger] pds[i], key),
        forall|key: StakeKey| #[trigger] aggregate(pds).contains_key(key) ==> aggregate(pds)[key].0 == amount_on(pds, key),
        forall|key: StakeKey, i: int| #[trigger] aggregate(pds).contains_key(key) && 0 <= i < pds.len()
            && deploys_on(#[trigger] pds[i], key) ==> aggregate(pds)[key].1 <= pds[i].slot,
        forall|key: StakeKey| #[trigger] aggregate(pds).contains_key(key) ==> exists|i: int| 0 <= i < pds.len()
            && deploys_on(#[trigger] pds[i], key) && pds[i].slot == aggregate(pds)[key].1,
        forall|key: StakeKey| !(#[trigger] aggregate(pds).contains_key(key)) ==> amount_on(pds, key) == 0,
    decreases pds.len(),
{
    if pds.len() > 0 {
        let init = pds.drop_last();
        let pd = pds.last();
        let n = pds.len() - 1;
        lemma_aggregate_meaning(init);
        lemma_add_squares_effect(aggregate(init), pd, 25);
        let a0 = aggregate(init);
        let a = aggregate(pds);
        assert(a == add_squares(a0, pd, 25));
        assert(pds[n] == pd);
        assert forall|key: StakeKey| hits(pd, key, 25) == deploys_on(pd, key) by {}
        assert forall|key: StakeKey| #[trigger] a.contains_key(key)
            <==> exists|i: int| 0 <= i < pds.len() && deploys_on(#[trigger] pds[i], key) by {
            if a0.contains_key(key) {
                let i = choose|i: int| 0 <= i < init.len() && deploys_on(#[trigger] init[i], key);
                assert(pds[i] == init[i]);
            }
            if exists|i: int| 0 <= i < pds.len() && deploys_on(#[trigger] pds[i], key) {
                let i = choose|i: int| 0 <= i < pds.len() && deploys_on(#[trigger] pds[i], key);
                if i < n {
                    assert(init[i] == pds[i]);
                }
            }
        }
        assert forall|key: StakeKey| #[trigger] a.contains_key(key) implies a[key].0 == amount_on(pds, key) by {}
        assert forall|key: StakeKey| !(#[trigger] a.contains_key(key)) implies amount_on(pds, key) == 0 by {}
        assert forall|key: StakeKey, i: int| #[trigger] a.contains_key(key) && 0 <= i < pds.len()
            && deploys_on(#[trigger] pds[i], key) implies a[key].1 <= pds[i].slot by {
            if i < n {
                assert(init[i] == pds[i]);
                assert(a0.contains_key(key));
            }
        }
        assert forall|key: StakeKey| #[trigger] a.contains_key(key) implies exists|i: int| 0 <= i < pds.len()
            && deploys_on(#[trigger] pds[i], key) && pds[i].slot == a[key].1 by {
            if deploys_on(pd, key) {
                if a0.contains_key(key) && a0[key].1 <= pd.slot {
                    let i = choose|i: int| 0 <= i < init.len() && deploys_on(#[trigger] init[i], key) && init[i].slot == a0[key].1;
                    assert(pds[i] == init[i]);
                } else {
                    assert(deploys_on(pds[n], key));
                }
            } else {
                let i = choose|i: int| 0 <= i < init.len() && deploys_on(#[trigger] init[i], key) && init[i].slot == a0[key].1;
                assert(pds[i] == init[i]);
            }
        }
    }
}

/// Whether every total of the rebuilt round fits in 64 bits.
pub open spec fn totals_fit(pds: Seq<ParsedDeployment>) -> bool {
    forall|key: StakeKey| #[trigger] aggregate(pds).contains_key(key) ==> aggregate(pds)[key].0 <= u64::MAX
}

/// The position of the entry for (`miner`, `square`) in `v`, if any.
fn find_stake(v: &Vec<BackfillDeployment>, miner: &String, square: u8) -> (r: Option<usize>)
    ensures
        r matches Some(i) ==> i < v@.len() && key_of(v@[i as int]) == (miner@, square),
        r is None ==> forall|i: int| 0 <= i < v@.len() ==> key_of(#[trigger] v@[i]) != (miner@, square),
{
    let mut i: usize = 0;
    while i < v.len()
        invariant
            i <= v@.len(),
            forall|t: int| 0 <= t < i ==> key_of(#[trigger] v@[t]) != (miner@, square),
        decreases v@.len() - i,
    {
        if v[i].square_id == square && v[i].miner_pubkey == *miner {
            return Some(i);
        }
        i = i + 1;
    }
    None
}

/// Aggregate parsed Deploy instructions per miner and square: the amounts
/// add up and the earliest slot is kept. Each (miner, square) appears once,
/// in the order it is first seen.
pub fn aggregate_deployments(pds: &Vec<ParsedDeployment>) -> (r: Vec<BackfillDeployment>)
    requires
        totals_fit(pds@),
    ensures
        lists_exactly(r@, aggregate(pds@)),
{
    let mut v: Vec<BackfillDeployment> = Vec::new();
    let mut i: usize = 0;
    assert(lists_exactly(v@, aggregate(pds@.take(0)))) by {
        assert(aggregate(pds@.take(0)) =~= Map::empty());
    }
    while i < pds.len()
        invariant
            i <= pds@.len(),
            totals_fit(pds@),
            lists_exactly(v@, aggregate(pds@.take(i as int))),
        decreases pds@.len() - i,
    {
        let pd = &pds[i];
        let ghost base = aggregate(pds@.take(i as int));
        proof {
            assert(pds@.take(i + 1).drop_last() =~= pds@.take(i as int));
            assert(pds@.take(i + 1).last() == pds@[i as int]);
            lemma_aggregate_prefix(pds@, i + 1);
            lemma_aggregate_nonneg(pds@.take(i as int));
        }
        let mut sq: usize = 0;
        while sq < 25
            invariant
                sq <= 25,
                i < pds@.len(),
                *pd == pds@[i as int],
                base == aggregate(pds@.take(i as int)),
                nonneg_totals(base),
                add_squares(base, *pd, 25) == aggregate(pds@.take(i + 1)),
                grows(aggregate(pds@.take(i + 1)), aggregate(pds@)),
                totals_fit(pds@),
                lists_exactly(v@, add_squares(base, *pd, sq as int)),
            decreases 25 - sq,
        {
            proof {
                lemma_add_squares_prefix(base, *pd, sq + 1);
            }
            if pd.squares[sq] {
                let square_id = sq as u8;
                let ghost prev = add_squares(base, *pd, sq as int);
                let ghost key = (pd.authority@, square_id);
                let ghost next = add_squares(base, *pd, sq + 1);
                match find_stake(&v, &pd.authority, square_id) {
                    Some(j) => {
                        proof {
                            assert(prev.contains_key(key));
                            assert(next.contains_key(key));
                            assert(next[key].0 <= aggregate(pds@)[key].0);
                        }
                        let amount = v[j].amount + pd.amount_per_square;
                        let slot = if pd.slot < v[j].deployed_slot { pd.slot } else { v[j].deployed_slot };
                        let entry = BackfillDeployment {
                            miner_pubkey: pd.authority.clone(),
                            square_id,
                            amount,
                            deployed_slot: slot,
                        };
                        let ghost old_v = v@;
                        v.set(j, entry);
                        proof {
                            assert(v@ == old_v.update(j as int, entry));
                            assert forall|k: StakeKey| next.contains_key(k) implies exists|t: int|
                                0 <= t < v@.len() && key_of(#[trigger] v@[t]) == k by {
                                if k == key {
                                    assert(key_of(v@[j as int]) == k);
                                } else {
                                    assert(prev.contains_key(k));
                                    let t = choose|t: int| 0 <= t < old_v.len() && key_of(#[trigger] old_v[t]) == k;
                                    assert(t != j);
                                    assert(key_of(v@[t]) == k);
                                }
                            }
                        }
                    },
                    None => {
                        proof {
                            assert(!prev.contains_key(key)) by {
                                if prev.contains_key(key) {
                                    let t = choose|t: int| 0 <= t < v@.len() && key_of(#[trigger] v@[t]) == key;
                                }
                            }
                            assert(next.contains_key(key));
                        }
                        let ghost old_v = v@;
                        v.push(BackfillDeployment {
                            miner_pubkey: pd.authority.clone(),
                            square_id,
                            amount: pd.amount_per_square,
                            deployed_slot: pd.slot,
                        });
                        proof {
                            assert forall|k: StakeKey| next.contains_key(k) implies exists|t: int|
                                0 <= t < v@.len() && key_of(#[trigger] v@[t]) == k by {
                                if k == key {
                                    assert(key_of(v@[old_v.len() as int]) == k);
                                } else {
                                    assert(prev.contains_key(k));
                                    let t = choose|t: int| 0 <= t < old_v.len() && key_of(#[trigger] old_v[t]) == k;
                                    assert(key_of(v@[t]) == k);
                                }
                            }
                        }
                    },
                }
                assert(lists_exactly(v@, next));
            }
            sq = sq + 1;
        }
        i = i + 1;
    }
    assert(pds@.take(pds@.len() as int) =~= pds@);
    v
}

// ---------------------------------------------------------------------------
// Rebuilt rounds held in memory until they are finalized
// ---------------------------------------------------------------------------

/// A round rebuilt from its transactions, awaiting finalization.
#[derive(Debug)]
pub struct BackfillReconstructedRound {
    pub round_id: u64,
    pub deployments: Vec<BackfillDeployment>,
    pub winning_square: u8,
    pub top_miner: String,
    /// Milliseconds since the epoch.
    pub reconstructed_at_ms: i64,
    pub transaction_count: usize,
}

/// The stored row of a rebuilt deployment: flagged as winner on the winning
/// square and as top miner when it belongs to the round's top miner; rewards
/// are not known for rebuilt rounds.
pub open spec fn backfill_row(round_id: u64, d: BackfillDeployment, winning_square: u8, top_miner: Seq<char>) -> DeploymentInsert {
    DeploymentInsert {
        round_id,
        miner_pubkey: d.miner_pubkey,
        square_id: d.square_id,
        amount: d.amount,
        deployed_slot: d.deployed_slot,
        ore_earned: 0,
        sol_earned: 0,
        is_winner: if d.square_id == winning_square { 1 } else { 0 },
        is_top_miner: if d.miner_pubkey@ == top_miner { 1 } else { 0 },
    }
}

/// Rows to store for the rebuilt deployments of a round, in order.
pub fn backfill_rows(
    round_id: u64,
    deployments: &Vec<BackfillDeployment>,
    winning_square: u8,
    top_miner: &String,
) -> (r: Vec<DeploymentInsert>)
    ensures
        r@ == deployments@.map_values(|d: BackfillDeployment| backfill_row(round_id, d, winning_square, top_miner@)),
{
    let mut r: Vec<DeploymentInsert> = Vec::new();
    let mut i: usize = 0;
    while i < deployments.len()
        invariant
            i <= deployments@.len(),
            r@ == deployments@.take(i as int).map_values(|d: BackfillDeployment| backfill_row(round_id, d, winning_square, top_miner@)),
        decreases deployments@.len() - i,
    {
        let d = &deployments[i];
        let is_winner = d.square_id == winning_square;
        let is_top = d.miner_pubkey == *top_miner;
        r.push(DeploymentInsert {
            round_id,
            miner_pubkey: d.miner_pubkey.clone(),
            square_id: d.square_id,
            amount: d.amount,
            deployed_slot: d.deployed_slot,
            ore_earned: 0,
            sol_earned: 0,
            is_winner: if is_winner { 1 } else { 0 },
            is_top_miner: if is_top { 1 } else { 0 },
        });
        proof {
            assert(r@ =~= deployments@.take(i + 1).map_values(|d: BackfillDeployment| backfill_row(round_id, d, winning_square, top_miner@)));
        }
        i = i + 1;
    }
    assert(deployments@.take(deployments@.len() as int) =~= deployments@);
    r
}

/// Rebuilt rounds awaiting finalization, by round id (in memory only).
pub struct BackfillReconstructedCache {
    pub rounds: HashMap<u64, BackfillReconstructedRound>,
}

impl BackfillReconstructedCache {
    /// The rebuilt rounds by id.
    pub open spec fn view(&self) -> Map<u64, BackfillReconstructedRound> {
        self.rounds@
    }

    /// An empty cache.
    pub fn new() -> (c: Self)
        ensures
            c.view() == Map::<u64, BackfillReconstructedRound>::empty(),
    {
        BackfillReconstructedCache { rounds: HashMap::new() }
    }

    /// Store a rebuilt round, replacing an earlier one of the same id.
    pub fn insert(&mut self, round: BackfillReconstructedRound)
        ensures
            final(self).view() == old(self).view().insert(round.round_id, round),
    {
        broadcast use vstd::std_specs::hash::group_hash_axioms;
        let id = round.round_id;
        self.rounds.insert(id, round);
    }

    /// The rebuilt round with this id.
    pub fn get(&self, round_id: u64) -> (r: Option<&BackfillReconstructedRound>)
        ensures
            r matches Some(v) ==> self.view().contains_key(round_id) && *v == self.view()[round_id],
            r is None ==> !self.view().contains_key(round_id),
    {
        broadcast use vstd::std_specs::hash::group_hash_axioms;
        self.rounds.get(&round_id)
    }

    /// Take out the rebuilt round with this id (once it is finalized).
    pub fn remove(&mut self, round_id: u64) -> (r: Option<BackfillReconstructedRound>)
        ensures
            final(self).view() == old(self).view().remove(round_id),
            r matches Some(v) ==> old(self).view().contains_key(round_id) && v == old(self).view()[round_id],
            r is None ==> !old(self).view().contains_key(round_id),
    {
        broadcast use vstd::std_specs::hash::group_hash_axioms;
        self.rounds.remove(&round_id)
    }

    /// Whether a round with this id is held.
    pub fn contains(&self, round_id: u64) -> (b: bool)
        ensures
            b == self.view().contains_key(round_id),
    {
        broadcast use vstd::std_specs::hash::group_hash_axioms;
        self.rounds.contains_key(&round_id)
    }

    /// Number of rounds held.
    pub fn len(&self) -> (n: usize)
        ensures
            n == self.view().len(),
    {
        broadcast use vstd::std_specs::hash::group_hash_axioms;
        self.rounds.len()
    }
}

/// A finalized rebuilt round is gone from the cache and every other round
/// stays as it was.
pub proof fn lemma_remove_after_insert(c: Map<u64, BackfillReconstructedRound>, round: BackfillReconstructedRound, other: u64)
    ensures
        c.insert(round.round_id, round).remove(round.round_id).contains_key(round.round_id) == false,
        other != round.round_id ==> (c.insert(round.round_id, round).remove(round.round_id).contains_key(other)
            == c.contains_key(other)),
        c.insert(round.round_id, round)[round.round_id] == round,
{
}

// ---------------------------------------------------------------------------
// Walking the pages of the external rounds API
// ---------------------------------------------------------------------------

/// The page where a round should be, counting `per_page` rounds per page
/// downward from `highest_round` on page zero.
pub open spec fn target_page_spec(highest_round: u64, round_id: u64, per_page: u64) -> int {
    (if highest_round >= round_id { highest_round - round_id } else { 0 }) / (per_page as int)
}

/// The page where `round_id` should be found.
pub fn target_page(highest_round: u64, round_id: u64, per_page: u64) -> (p: u32)
    requires
        per_page > 0,
    ensures
        p == target_page_spec(highest_round, round_id, per_page) as u32,
{
    let from_highest = highest_round.saturating_sub(round_id);
    (from_highest / per_page) as u32
}

/// The next move while searching the pages for a round.
pub enum PageStep {
    /// The round is on this page.
    OnPage,
    /// Look at this later page (lower round ids).
    Later(u32),
    /// Look at this earlier page (higher round ids).
    Earlier(u32),
    /// The round should be above page zero: give up.
    NotFound,
}

/// Where to look next for `round_id` after fetching `page`, whose rounds run
/// from `page_first` (highest) down to `page_last`.
pub fn page_step(page: u32, round_id: u64, page_first: u64, page_last: u64) -> (s: PageStep)
    requires
        page_last > round_id ==> page < u32::MAX,
    ensures
        page_last > round_id ==> s == PageStep::Later((page + 1) as u32),
        page_last <= round_id && page_first < round_id && page == 0 ==> s == PageStep::NotFound,
        page_last <= round_id && page_first < round_id && page > 0 ==> s == PageStep::Earlier((page - 1) as u32),
        page_last <= round_id <= page_first ==> s == PageStep::OnPage,
{
    if page_last > round_id {
        PageStep::Later(page + 1)
    } else if page_first < round_id {
        if page == 0 {
            PageStep::NotFound
        } else {
            PageStep::Earlier(page - 1)
        }
    } else {
        PageStep::OnPage
    }
}

/// When the external API lists every round from `highest_round` down,
/// `per_page` per page, the page computed for a round holds it: its first
/// round is at or above it and its last at or below.
pub proof fn lemma_target_page_holds_round(highest_round: u64, round_id: u64, per_page: u64)
    requires
        per_page > 0,
        round_id <= highest_round,
    ensures
        ({
            let p = target_page_spec(highest_round, round_id, per_page);
            let first = highest_round - p * per_page;
            let last = first - per_page + 1;
            last <= round_id <= first
        }),
{
    let d = highest_round - round_id;
    let p = d / (per_page as int);
    assert(p * per_page <= d < p * per_page + per_page) by (nonlinear_arith)
        requires
            p == d / (per_page as int),
            per_page > 0,
            d >= 0,
    ;
}

/// Whether a fetched page holds `round_id`.
pub fn page_holds_round(page_rounds: &Vec<u64>, round_id: u64) -> (b: bool)
    ensures
        b == page_rounds@.contains(round_id),
{
    let mut i: usize = 0;
    while i < page_rounds.len()
        invariant
            i <= page_rounds@.len(),
            forall|t: int| 0 <= t < i ==> page_rounds@[t] != round_id,
        decreases page_rounds@.len() - i,
    {
        if page_rounds[i] == round_id {
            return true;
        }
        i = i + 1;
    }
    false
}

/// Positions, among the first `n` rounds of a page, of those to store: above
/// `stop_at_round` and not stored yet (`stored[i]` tells of round `i`).
pub open spec fn rounds_to_store(page: Seq<AppRound>, stop_at_round: u64, stored: Seq<bool>, n: int) -> Seq<usize>
    decreases n,
{
    if n <= 0 {
        Seq::empty()
    } else {
        let prev = rounds_to_store(page, stop_at_round, stored, n - 1);
        if page[n - 1].round_id as u64 > stop_at_round && !stored[n - 1] {
            prev.push((n - 1) as usize)
        } else {
            prev
        }
    }
}

/// Number, among the first `n` rounds of a page, of those above
/// `stop_at_round` that are stored already.
pub open spec fn rounds_skipped(page: Seq<AppRound>, stop_at_round: u64, stored: Seq<bool>, n: int) -> int
    decreases n,
{
    if n <= 0 {
        0
    } else {
        rounds_skipped(page, stop_at_round, stored, n - 1) + if page[n - 1].round_id as u64 > stop_at_round
            && stored[n - 1] { 1int } else { 0int }
    }
}

proof fn lemma_rounds_skipped_bound(page: Seq<AppRound>, stop_at_round: u64, stored: Seq<bool>, n: int)
    requires
        n >= 0,
    ensures
        0 <= rounds_skipped(page, stop_at_round, stored, n) <= n,
    decreases n,
{
    if n > 0 {
        lemma_rounds_skipped_bound(page, stop_at_round, stored, n - 1);
    }
}

/// Which rounds of a page of the external API to store: the positions of
/// those above `stop_at_round` that are not stored yet, and how many above
/// it were skipped because they are.
pub fn missing_rounds_on_page(page_rounds: &Vec<AppRound>, stop_at_round: u64, stored: &Vec<bool>) -> (r: (Vec<usize>, u32))
    requires
        stored@.len() == page_rounds@.len(),
        page_rounds@.len() <= u32::MAX,
    ensures
        r.0@ == rounds_to_store(page_rounds@, stop_at_round, stored@, page_rounds@.len() as int),
        r.1 == rounds_skipped(page_rounds@, stop_at_round, stored@, page_rounds@.len() as int),
{
    let mut store: Vec<usize> = Vec::new();
    let mut skipped: u32 = 0;
    let mut i: usize = 0;
    while i < page_rounds.len()
        invariant
            i <= page_rounds@.len(),
            stored@.len() == page_rounds@.len(),
            page_rounds@.len() <= u32::MAX,
            store@ == rounds_to_store(page_rounds@, stop_at_round, stored@, i as int),
            skipped == rounds_skipped(page_rounds@, stop_at_round, stored@, i as int),
        decreases page_rounds@.len() - i,
    {
        proof {
            lemma_rounds_skipped_bound(page_rounds@, stop_at_round, stored@, i as int);
        }
        if page_rounds[i].round_id as u64 > stop_at_round {
            if stored[i] {
                skipped = skipped + 1;
            } else {
                store.push(i);
            }
        }
        i = i + 1;
    }
    (store, skipped)
}


// ---------------------------------------------------------------------------
// A backfill run
// ---------------------------------------------------------------------------

/// Pages fetched while looking for one round before giving it up.
pub const MAX_SEARCH_ATTEMPTS: u32 = 10;

/// How a backfill run ended.
#[derive(Debug)]
pub enum BackfillEnd {
    Completed,
    Cancelled,
    Failed(String),
}

/// Where a backfill run stands.
#[derive(Debug)]
pub enum BackfillStage {
    /// Page zero is being fetched.
    Opening,
    /// The rounds of page zero are being stored.
    StoringFirst,
    /// The next missing round is being looked up.
    Seeking,
    /// `round` is being looked for on `page`; this is the `attempts`-th page
    /// fetched for it.
    Searching { round: u64, page: u32, attempts: u32 },
    /// The page that should hold `round` is being stored; `listed` tells
    /// whether it lists `round`.
    StoringFound { round: u64, listed: bool },
    /// The run has ended.
    Ended,
}

/// A run that fetches the rounds missing from storage, page by page, from
/// an external API that lists every round, highest first.
#[derive(Debug)]
pub struct BackfillRun {
    /// Rounds at or below this one are left alone.
    pub stop_at_round: u64,
    pub max_pages: u32,
    pub pages_fetched: u32,
    /// The highest round, from page zero.
    pub highest_round: u64,
    /// Rounds per page, from page zero.
    pub per_page: u64,
    /// Rounds given up on, each once.
    pub skipped: Vec<u64>,
    /// How many times a round was given up on.
    pub rounds_not_in_external_api: u32,
    pub stage: BackfillStage,
}

/// What a backfill run learned.
#[derive(Debug)]
pub enum BackfillEvent {
    /// A page was fetched: the ids of its rounds, highest first.
    PageFetched { round_ids: Vec<u64> },
    /// The highest round missing from storage above the stop round, none of
    /// those given up on; or why the lookup failed.
    MissingLookedUp { result: Result<Option<u64>, String> },
    /// The missing rounds of the page just fetched were stored.
    PageStored,
}

/// What a backfill run does next.
#[derive(Debug)]
pub enum BackfillAction {
    FetchPage { page: u32 },
    /// Store the rounds of the page just fetched that storage lacks.
    StorePage,
    /// Look up the highest round missing from storage above `above` and up
    /// to `to`, none of those given up on.
    FindMissing { above: u64, to: u64 },
    Finish { end: BackfillEnd },
}

/// `event` is what the run can learn where it stands.
pub open spec fn backfill_awaits(stage: BackfillStage, event: BackfillEvent) -> bool {
    match stage {
        BackfillStage::Opening => event is PageFetched,
        BackfillStage::StoringFirst => event is PageStored,
        BackfillStage::Seeking => event is MissingLookedUp,
        BackfillStage::Searching { .. } => event is PageFetched,
        BackfillStage::StoringFound { .. } => event is PageStored,
        BackfillStage::Ended => false,
    }
}

/// `skipped` with `round` added, if it was not there.
pub open spec fn skip_round(skipped: Seq<u64>, round: u64) -> Seq<u64> {
    if skipped.contains(round) { skipped } else { skipped.push(round) }
}

/// The run moved from `before`, on learning `event` and whether it was
/// asked to stop, to `after`, to do `action`.
pub open spec fn backfill_moved(
    before: BackfillRun,
    event: BackfillEvent,
    cancelled: bool,
    after: BackfillRun,
    action: BackfillAction,
) -> bool {
    &&& after.well_formed()
    &&& after.stop_at_round == before.stop_at_round
    &&& after.max_pages == before.max_pages
    &&& after.pages_fetched == before.pages_fetched + (if event is PageFetched { 1int } else { 0int })
    &&& !(before.stage is Opening) ==> after.same_setup(&before)
    &&& match before.stage {
            BackfillStage::Opening => event matches BackfillEvent::PageFetched { round_ids } && if round_ids@.len() == 0 {
                &&& after.stage is Ended
                &&& action matches BackfillAction::Finish { end: BackfillEnd::Failed(m) }
                &&& m@ == "External API returned empty first page"@
            } else {
                &&& after.highest_round == round_ids@[0]
                &&& after.per_page == round_ids@.len()
                &&& after.skipped@ == before.skipped@
                &&& after.rounds_not_in_external_api == before.rounds_not_in_external_api
                &&& after.stage is StoringFirst
                &&& action == BackfillAction::StorePage
            },
            BackfillStage::StoringFirst => {
                &&& after.skipped@ == before.skipped@
                &&& after.rounds_not_in_external_api == before.rounds_not_in_external_api
                &&& after.at_top(action, cancelled)
            },
            BackfillStage::Seeking => event matches BackfillEvent::MissingLookedUp { result } && match result {
                Err(e) => {
                    &&& after.stage is Ended
                    &&& action matches BackfillAction::Finish { end: BackfillEnd::Failed(m) }
                    &&& m@ == "ClickHouse query failed: "@ + e@
                },
                Ok(None) => after.stage is Ended && action == (BackfillAction::Finish { end: BackfillEnd::Completed }),
                Ok(Some(round)) => after.searches(&before, round,
                    target_page_spec(before.highest_round, round, before.per_page) as u32, 0, action, cancelled),
            },
            BackfillStage::Searching { round, page, attempts } => event matches BackfillEvent::PageFetched { round_ids } && {
                let first = round_ids@[0];
                let last = round_ids@.last();
                if round_ids@.len() == 0 || (last <= round && first < round && page == 0) {
                    after.gave_up(&before, round, action, cancelled)
                } else if last > round {
                    after.searches(&before, round, (page + 1) as u32, attempts, action, cancelled)
                } else if first < round {
                    after.searches(&before, round, (page - 1) as u32, attempts, action, cancelled)
                } else {
                    &&& after.skipped@ == before.skipped@
                    &&& after.rounds_not_in_external_api == before.rounds_not_in_external_api
                    &&& after.stage == (BackfillStage::StoringFound { round, listed: round_ids@.contains(round) })
                    &&& action == BackfillAction::StorePage
                }
            },
            BackfillStage::StoringFound { round, listed } => if listed {
                &&& after.skipped@ == before.skipped@
                &&& after.rounds_not_in_external_api == before.rounds_not_in_external_api
                &&& after.at_top(action, cancelled)
            } else {
                after.gave_up(&before, round, action, cancelled)
            },
            BackfillStage::Ended => true,
        }
}

impl BackfillRun {
    /// Page zero is known once the run is past opening; no round is given
    /// up on twice; a round is given up on only after a page was fetched
    /// for it.
    pub open spec fn well_formed(&self) -> bool {
        &&& self.skipped@.no_duplicates()
        &&& match self.stage {
            BackfillStage::Opening => self.rounds_not_in_external_api == 0,
            BackfillStage::Searching { attempts, .. } => self.per_page > 0 && 1 <= attempts <= MAX_SEARCH_ATTEMPTS
                && self.rounds_not_in_external_api + attempts <= self.pages_fetched,
            BackfillStage::StoringFound { .. } => self.per_page > 0 && self.rounds_not_in_external_api + 2 <= self.pages_fetched,
            BackfillStage::Ended => true,
            _ => self.per_page > 0 && self.rounds_not_in_external_api + 1 <= self.pages_fetched,
        }
    }

    /// What the run leaves as it was: its limits and page zero's figures.
    pub open spec fn same_setup(&self, other: &BackfillRun) -> bool {
        &&& self.stop_at_round == other.stop_at_round
        &&& self.max_pages == other.max_pages
        &&& self.highest_round == other.highest_round
        &&& self.per_page == other.per_page
    }

    /// At the top of the run's loop: stop when cancelled, complete once
    /// `max_pages` pages were fetched, else look for the next missing round.
    pub open spec fn at_top(&self, action: BackfillAction, cancelled: bool) -> bool {
        if cancelled {
            self.stage is Ended && action == (BackfillAction::Finish { end: BackfillEnd::Cancelled })
        } else if self.pages_fetched >= self.max_pages {
            self.stage is Ended && action == (BackfillAction::Finish { end: BackfillEnd::Completed })
        } else {
            self.stage is Seeking && action == (BackfillAction::FindMissing { above: self.stop_at_round, to: self.highest_round })
        }
    }

    /// `self` gave up on `round`, which `before` had not, and went to the top
    /// of the loop.
    pub open spec fn gave_up(&self, before: &BackfillRun, round: u64, action: BackfillAction, cancelled: bool) -> bool {
        &&& self.skipped@ == skip_round(before.skipped@, round)
        &&& self.rounds_not_in_external_api == before.rounds_not_in_external_api + 1
        &&& self.at_top(action, cancelled)
    }

    /// Looking for `round` on `page` after `attempts` pages: give it up when
    /// the attempts are used up, stop when cancelled, else fetch the page.
    pub open spec fn searches(&self, before: &BackfillRun, round: u64, page: u32, attempts: u32, action: BackfillAction, cancelled: bool) -> bool {
        if attempts >= MAX_SEARCH_ATTEMPTS {
            self.gave_up(before, round, action, cancelled)
        } else {
            &&& self.skipped@ == before.skipped@
            &&& self.rounds_not_in_external_api == before.rounds_not_in_external_api
            &&& if cancelled {
                self.stage is Ended && action == (BackfillAction::Finish { end: BackfillEnd::Cancelled })
            } else {
                self.stage == (BackfillStage::Searching { round, page, attempts: (attempts + 1) as u32 })
                    && action == (BackfillAction::FetchPage { page })
            }
        }
    }

    /// A run that is about to fetch page zero.
    pub fn new(stop_at_round: u64, max_pages: u32) -> (r: (BackfillRun, BackfillAction))
        ensures
            r.0.well_formed(),
            r.0.stop_at_round == stop_at_round,
            r.0.max_pages == max_pages,
            r.0.pages_fetched == 0,
            r.0.skipped@ == Seq::<u64>::empty(),
            r.0.rounds_not_in_external_api == 0,
            r.0.stage is Opening,
            r.1 == (BackfillAction::FetchPage { page: 0 }),
    {
        (
            BackfillRun {
                stop_at_round,
                max_pages,
                pages_fetched: 0,
                highest_round: 0,
                per_page: 0,
                skipped: Vec::new(),
                rounds_not_in_external_api: 0,
                stage: BackfillStage::Opening,
            },
            BackfillAction::FetchPage { page: 0 },
        )
    }

    /// How many rounds the run may have to fetch: those above the stop
    /// round, up to the highest; none when the highest is not above it.
    pub fn estimated_total_rounds(&self) -> (r: Option<u64>)
        ensures
            r == (if self.highest_round > self.stop_at_round {
                Some((self.highest_round - self.stop_at_round) as u64)
            } else {
                None::<u64>
            }),
    {
        if self.highest_round > self.stop_at_round {
            Some(self.highest_round - self.stop_at_round)
        } else {
            None
        }
    }

    fn to_top(&mut self, cancelled: bool) -> (a: BackfillAction)
        ensures
            final(self).same_setup(&*old(self)),
            final(self).pages_fetched == old(self).pages_fetched,
            final(self).skipped@ == old(self).skipped@,
            final(self).rounds_not_in_external_api == old(self).rounds_not_in_external_api,
            final(self).at_top(a, cancelled),
    {
        if cancelled {
            self.stage = BackfillStage::Ended;
            BackfillAction::Finish { end: BackfillEnd::Cancelled }
        } else if self.pages_fetched >= self.max_pages {
            self.stage = BackfillStage::Ended;
            BackfillAction::Finish { end: BackfillEnd::Completed }
        } else {
            self.stage = BackfillStage::Seeking;
            BackfillAction::FindMissing { above: self.stop_at_round, to: self.highest_round }
        }
    }

    fn give_up(&mut self, round: u64, cancelled: bool) -> (a: BackfillAction)
        requires
            old(self).skipped@.no_duplicates(),
            old(self).rounds_not_in_external_api < u32::MAX,
        ensures
            final(self).same_setup(&*old(self)),
            final(self).pages_fetched == old(self).pages_fetched,
            final(self).skipped@.no_duplicates(),
            final(self).gave_up(&*old(self), round, a, cancelled),
    {
        let mut known = false;
        let mut i: usize = 0;
        while i < self.skipped.len()
            invariant
                i <= self.skipped@.len(),
                known == exists|t: int| 0 <= t < i && self.skipped@[t] == round,
            decreases self.skipped@.len() - i,
        {
            if self.skipped[i] == round {
                known = true;
            }
            i = i + 1;
        }
        if !known {
            self.skipped.push(round);
        }
        self.rounds_not_in_external_api = self.rounds_not_in_external_api + 1;
        self.to_top(cancelled)
    }

    fn search(&mut self, round: u64, page: u32, attempts: u32, cancelled: bool) -> (a: BackfillAction)
        requires
            old(self).skipped@.no_duplicates(),
            attempts >= MAX_SEARCH_ATTEMPTS ==> old(self).rounds_not_in_external_api < u32::MAX,
        ensures
            final(self).same_setup(&*old(self)),
            final(self).pages_fetched == old(self).pages_fetched,
            final(self).skipped@.no_duplicates(),
            final(self).searches(&*old(self), round, page, attempts, a, cancelled),
    {
        if attempts >= MAX_SEARCH_ATTEMPTS {
            self.give_up(round, cancelled)
        } else if cancelled {
            self.stage = BackfillStage::Ended;
            BackfillAction::Finish { end: BackfillEnd::Cancelled }
        } else {
            self.stage = BackfillStage::Searching { round, page, attempts: attempts + 1 };
            BackfillAction::FetchPage { page }
        }
    }

    /// One step of the run: from where it stands, what it learned and
    /// whether it was asked to stop, where it stands next and what to do.
    /// Page zero gives the highest round and the page size (an empty one
    /// fails the run) and its missing rounds are stored; then, until the run
    /// is cancelled, has fetched `max_pages` pages or finds no missing round,
    /// the next missing round is looked for from the page computed for it,
    /// moving a page at a time toward it, and the page holding it is stored.
    /// A round is given up on when a page comes back empty, when it should
    /// be above page zero, when the page that should hold it does not list
    /// it, or after ten pages.
    pub fn step(&mut self, event: BackfillEvent, cancelled: bool) -> (a: BackfillAction)
        requires
            old(self).well_formed(),
            backfill_awaits(old(self).stage, event),
            event is PageFetched ==> old(self).pages_fetched < u32::MAX,
            old(self).stage matches BackfillStage::Searching { round, page, .. } ==> (event matches BackfillEvent::PageFetched { round_ids }
                ==> (round_ids@.len() > 0 && round_ids@.last() > round ==> page < u32::MAX)),
        ensures
            backfill_moved(*old(self), event, cancelled, *final(self), a),
    {
        let mut stage = BackfillStage::Ended;
        std::mem::swap(&mut stage, &mut self.stage);
        match stage {
            BackfillStage::Opening => match event {
                BackfillEvent::PageFetched { round_ids } => {
                    self.pages_fetched = self.pages_fetched + 1;
                    if round_ids.len() == 0 {
                        BackfillAction::Finish { end: BackfillEnd::Failed("External API returned empty first page".to_owned()) }
                    } else {
                        self.highest_round = round_ids[0];
                        self.per_page = round_ids.len() as u64;
                        self.stage = BackfillStage::StoringFirst;
                        BackfillAction::StorePage
                    }
                },
                _ => BackfillAction::StorePage,
            },
            BackfillStage::StoringFirst => self.to_top(cancelled),
            BackfillStage::Seeking => match event {
                BackfillEvent::MissingLookedUp { result } => match result {
                    Err(e) => {
                        let mut m = "ClickHouse query failed: ".to_owned();
                        m.append(e.as_str());
                        BackfillAction::Finish { end: BackfillEnd::Failed(m) }
                    },
                    Ok(None) => BackfillAction::Finish { end: BackfillEnd::Completed },
                    Ok(Some(round)) => {
                        let page = target_page(self.highest_round, round, self.per_page);
                        self.search(round, page, 0, cancelled)
                    },
                },
                _ => BackfillAction::StorePage,
            },
            BackfillStage::Searching { round, page, attempts } => match event {
                BackfillEvent::PageFetched { round_ids } => {
                    self.pages_fetched = self.pages_fetched + 1;
                    if round_ids.len() == 0 {
                        self.give_up(round, cancelled)
                    } else {
                        let first = round_ids[0];
                        let last = round_ids[round_ids.len() - 1];
                        match page_step(page, round, first, last) {
                            PageStep::Later(next) => self.search(round, next, attempts, cancelled),
                            PageStep::Earlier(next) => self.search(round, next, attempts, cancelled),
                            PageStep::NotFound => self.give_up(round, cancelled),
                            PageStep::OnPage => {
                                let listed = page_holds_round(&round_ids, round);
                                self.stage = BackfillStage::StoringFound { round, listed };
                                BackfillAction::StorePage
                            },
                        }
                    }
                },
                _ => BackfillAction::StorePage,
            },
            BackfillStage::StoringFound { round, listed } => {
                if listed {
                    self.to_top(cancelled)
                } else {
                    self.give_up(round, cancelled)
                }
            },
            BackfillStage::Ended => BackfillAction::StorePage,
        }
    }
}


proof fn lemma_backfill_step_facts(
    before: BackfillRun,
    event: BackfillEvent,
    cancelled: bool,
    after: BackfillRun,
    action: BackfillAction,
)
    requires
        backfill_awaits(before.stage, event),
        backfill_moved(before, event, cancelled, after, action),
    ensures
        after.stop_at_round == before.stop_at_round,
        action matches BackfillAction::FindMissing { above, .. } ==> above == before.stop_at_round,
        action is Finish ==> after.stage is Ended,
        action is StorePage ==> (event matches BackfillEvent::PageFetched { round_ids } && round_ids@.len() > 0),
{
}

proof fn lemma_backfill_prefix(
    runs: Seq<BackfillRun>,
    events: Seq<BackfillEvent>,
    cancels: Seq<bool>,
    actions: Seq<BackfillAction>,
    n: int,
)
    requires
        runs.len() == events.len() + 1,
        cancels.len() == events.len(),
        actions.len() == events.len(),
        forall|i: int| #![trigger events[i]] 0 <= i < events.len() ==> backfill_awaits(runs[i].stage, events[i])
            && backfill_moved(runs[i], events[i], cancels[i], runs[i + 1], actions[i]),
        0 <= n < runs.len(),
    ensures
        runs[n].stop_at_round == runs[0].stop_at_round,
    decreases n,
{
    if n > 0 {
        lemma_backfill_prefix(runs, events, cancels, actions, n - 1);
        assert(backfill_awaits(runs[n - 1].stage, events[n - 1]));
        lemma_backfill_step_facts(runs[n - 1], events[n - 1], cancels[n - 1], runs[n], actions[n - 1]);
    }
}

/// Over a whole backfill run from its opening, whatever the pages, lookups
/// and cancellations: it only ever looks for rounds above its stop round;
/// it stores only pages it fetched that list rounds; it ends with its last
/// step, and only then (completed, cancelled or failed); and when page zero
/// comes back empty its one step fails the run with that reason, so nothing
/// is stored.
pub proof fn lemma_backfill_run(
    runs: Seq<BackfillRun>,
    events: Seq<BackfillEvent>,
    cancels: Seq<bool>,
    actions: Seq<BackfillAction>,
)
    requires
        runs.len() == events.len() + 1,
        cancels.len() == events.len(),
        actions.len() == events.len(),
        runs[0].stage is Opening,
        forall|i: int| #![trigger events[i]] 0 <= i < events.len() ==> backfill_awaits(runs[i].stage, events[i])
            && backfill_moved(runs[i], events[i], cancels[i], runs[i + 1], actions[i]),
    ensures
        forall|i: int| #![trigger actions[i]] 0 <= i < actions.len() ==> {
            &&& (actions[i] matches BackfillAction::FindMissing { above, .. } ==> above == runs[0].stop_at_round)
            &&& (actions[i] is StorePage ==> (events[i] matches BackfillEvent::PageFetched { round_ids } && round_ids@.len() > 0))
            &&& (actions[i] is Finish <==> i == actions.len() - 1 && runs[i + 1].stage is Ended)
        },
        events.len() > 0 ==> (events[0] matches BackfillEvent::PageFetched { round_ids } ==> (round_ids@.len() == 0 ==> {
            &&& actions.len() == 1
            &&& actions[0] matches BackfillAction::Finish { end: BackfillEnd::Failed(m) }
            &&& m@ == "External API returned empty first page"@
        })),
{
    assert forall|i: int| #![trigger actions[i]] 0 <= i < actions.len() implies {
        &&& (actions[i] matches BackfillAction::FindMissing { above, .. } ==> above == runs[0].stop_at_round)
        &&& (actions[i] is StorePage ==> (events[i] matches BackfillEvent::PageFetched { round_ids } && round_ids@.len() > 0))
        &&& (actions[i] is Finish <==> i == actions.len() - 1 && runs[i + 1].stage is Ended)
    } by {
        assert(backfill_awaits(runs[i].stage, events[i]));
        lemma_backfill_prefix(runs, events, cancels, actions, i);
        lemma_backfill_step_facts(runs[i], events[i], cancels[i], runs[i + 1], actions[i]);
        if i + 1 < events.len() {
            assert(backfill_awaits(runs[i + 1].stage, events[i + 1]));
        }
    }
    if events.len() > 0 {
        assert(backfill_awaits(runs[0].stage, events[0]));
        if events.len() > 1 {
            assert(backfill_awaits(runs[1].stage, events[1]));
        }
    }
}

} // verus!
