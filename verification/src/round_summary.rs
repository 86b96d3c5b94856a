//! The summary of a round's fully analyzed transactions: fees, compute,
//! signers and programs, and what the ORE instructions deployed (parsed and
//! as the program logged them). The SOL figures derived from lamports are
//! left to the caller.

use vstd::prelude::*;
use crate::keyed::{KeyedList, key_before, key_set, lemma_key_set_len, lemma_keyed_sorted, lemma_lookup_at, lookup};
use crate::transactions::{ProgramUsageSummary, SquareDeploymentInfo};

verus! {

broadcast use vstd::string::group_string_axioms;

/// A program invoked by a transaction.
#[derive(Debug)]
pub struct ProgramInvocation {
    /// Base58 key of the program.
    pub pubkey: String,
    pub name: String,
    pub invocation_count: usize,
}

/// A Deploy instruction found in a transaction.
#[derive(Debug)]
pub struct OreDeploymentInfo {
    /// Base58 key of the deploying authority.
    pub authority: String,
    /// Lamports deployed by the instruction over all its squares.
    pub total_lamports: u64,
    pub amount_per_square: u64,
    /// The squares deployed on.
    pub squares: Vec<u8>,
    /// Whether the instruction is for the round being summarized.
    pub round_matches: bool,
}

/// A deployment as the program's log line reports it.
#[derive(Debug)]
pub struct LoggedDeployment {
    /// Base58 key of the authority, when it could be told.
    pub authority: Option<String>,
    pub round_matches: bool,
    /// Whether a parsed Deploy instruction accounts for it.
    pub matched_parsed: bool,
}

/// What a transaction did with the ORE program.
#[derive(Debug)]
pub struct OreAnalysis {
    pub deployments: Vec<OreDeploymentInfo>,
    pub logged_deploy_count: usize,
    pub logged_deployed_lamports: u64,
    pub logged_deployments: Vec<LoggedDeployment>,
}

/// What a round summary reads of one analyzed transaction.
#[derive(Debug)]
pub struct AnalyzedTransaction {
    pub fee: u64,
    pub compute_units_consumed: Option<u64>,
    pub success: bool,
    /// Base58 keys of the signers.
    pub signers: Vec<String>,
    pub programs_invoked: Vec<ProgramInvocation>,
    pub ore_analysis: Option<OreAnalysis>,
}

/// The integer figures of what the ORE instructions of a round deployed.
#[derive(Debug)]
pub struct OreRoundTotals {
    pub total_deployments: usize,
    pub deployments_matching_round: usize,
    pub deployments_wrong_round: usize,
    pub unique_miners: usize,
    pub total_deployed_lamports: u64,
    /// Per square deployed on, in square order.
    pub squares_deployed: Vec<SquareDeploymentInfo>,
    pub logged_deploy_count: usize,
    pub logged_deployed_lamports: u64,
    pub logged_unique_miners: usize,
    /// Logged deployments for the round that no parsed instruction accounts for.
    pub logged_unmatched_count: usize,
    /// Logged minus parsed lamports.
    pub logged_vs_parsed_diff_lamports: i64,
}

/// The integer figures of a round's analyzed transactions.
#[derive(Debug)]
pub struct RoundSummaryTotals {
    pub total_transactions: usize,
    pub successful_transactions: usize,
    pub failed_transactions: usize,
    pub total_fee_paid: u64,
    pub total_compute_units: u64,
    pub unique_signers: usize,
    /// Per program, in key order: the name first seen and the invocations.
    pub programs_used: Vec<ProgramUsageSummary>,
    /// Present when a Deploy was parsed or logged.
    pub ore_summary: Option<OreRoundTotals>,
}

// ---------------------------------------------------------------------------
// Sums
// ---------------------------------------------------------------------------

/// Sum of `f` over `s`.
pub open spec fn total_of<T>(s: Seq<T>, f: spec_fn(T) -> nat) -> nat
    decreases s.len(),
{
    if s.len() == 0 {
        0
    } else {
        total_of(s.drop_last(), f) + f(s.last())
    }
}

proof fn lemma_total_step<T>(s: Seq<T>, f: spec_fn(T) -> nat, i: int)
    requires
        0 <= i < s.len(),
    ensures
        total_of(s.take(i + 1), f) == total_of(s.take(i), f) + f(s[i]),
{
    assert(s.take(i + 1).drop_last() =~= s.take(i));
}

proof fn lemma_total_prefix<T>(s: Seq<T>, f: spec_fn(T) -> nat, i: int)
    requires
        0 <= i <= s.len(),
    ensures
        total_of(s.take(i), f) <= total_of(s, f),
    decreases s.len() - i,
{
    if i < s.len() {
        lemma_total_prefix(s, f, i + 1);
        lemma_total_step(s, f, i);
    } else {
        assert(s.take(i) =~= s);
    }
}

proof fn lemma_total_all<T>(s: Seq<T>, f: spec_fn(T) -> nat)
    ensures
        total_of(s.take(s.len() as int), f) == total_of(s, f),
{
    assert(s.take(s.len() as int) =~= s);
}

// ---------------------------------------------------------------------------
// What each transaction contributes
// ---------------------------------------------------------------------------

/// The Deploy instructions parsed in a transaction.
pub open spec fn deps_of(a: AnalyzedTransaction) -> Seq<OreDeploymentInfo> {
    match a.ore_analysis {
        Some(o) => o.deployments@,
        None => Seq::empty(),
    }
}

/// The logged deployments of a transaction.
pub open spec fn logged_of(a: AnalyzedTransaction) -> Seq<LoggedDeployment> {
    match a.ore_analysis {
        Some(o) => o.logged_deployments@,
        None => Seq::empty(),
    }
}

pub open spec fn fee_fn() -> spec_fn(AnalyzedTransaction) -> nat {
    |a: AnalyzedTransaction| a.fee as nat
}

pub open spec fn compute_fn() -> spec_fn(AnalyzedTransaction) -> nat {
    |a: AnalyzedTransaction| match a.compute_units_consumed {
        Some(c) => c as nat,
        None => 0nat,
    }
}

pub open spec fn success_fn() -> spec_fn(AnalyzedTransaction) -> nat {
    |a: AnalyzedTransaction| if a.success { 1nat } else { 0nat }
}

pub open spec fn failure_fn() -> spec_fn(AnalyzedTransaction) -> nat {
    |a: AnalyzedTransaction| if a.success { 0nat } else { 1nat }
}

pub open spec fn deploy_count_fn() -> spec_fn(AnalyzedTransaction) -> nat {
    |a: AnalyzedTransaction| deps_of(a).len()
}

pub open spec fn matching_fn() -> spec_fn(OreDeploymentInfo) -> nat {
    |d: OreDeploymentInfo| if d.round_matches { 1nat } else { 0nat }
}

pub open spec fn wrong_fn() -> spec_fn(OreDeploymentInfo) -> nat {
    |d: OreDeploymentInfo| if d.round_matches { 0nat } else { 1nat }
}

pub open spec fn lamports_fn() -> spec_fn(OreDeploymentInfo) -> nat {
    |d: OreDeploymentInfo| d.total_lamports as nat
}

/// A per-deployment figure summed over the deployments of a transaction.
pub open spec fn over_deps(f: spec_fn(OreDeploymentInfo) -> nat) -> spec_fn(AnalyzedTransaction) -> nat {
    |a: AnalyzedTransaction| total_of(deps_of(a), f)
}

/// One for each occurrence of `sq`.
pub open spec fn is_square(sq: u8) -> spec_fn(u8) -> nat {
    |x: u8| if x == sq { 1nat } else { 0nat }
}

/// `amount` for each occurrence of `sq`.
pub open spec fn on_square(sq: u8, amount: u64) -> spec_fn(u8) -> nat {
    |x: u8| if x == sq { amount as nat } else { 0nat }
}

/// Occurrences of `sq` among a deployment's squares.
pub open spec fn square_count_fn(sq: u8) -> spec_fn(OreDeploymentInfo) -> nat {
    |d: OreDeploymentInfo| total_of(d.squares@, is_square(sq))
}

/// Lamports a deployment put on `sq` (its amount per square, once per
/// occurrence of `sq`).
pub open spec fn square_lamports_fn(sq: u8) -> spec_fn(OreDeploymentInfo) -> nat {
    |d: OreDeploymentInfo| total_of(d.squares@, on_square(sq, d.amount_per_square))
}

/// Deployments made on `sq` over all transactions.
pub open spec fn square_count(s: Seq<AnalyzedTransaction>, sq: u8) -> nat {
    total_of(s, over_deps(square_count_fn(sq)))
}

/// Lamports put on `sq` over all transactions.
pub open spec fn square_lamports(s: Seq<AnalyzedTransaction>, sq: u8) -> nat {
    total_of(s, over_deps(square_lamports_fn(sq)))
}

/// The squares below `n` deployed on, in order, with their deployment
/// counts and lamports.
pub open spec fn squares_listed(s: Seq<AnalyzedTransaction>, n: int) -> Seq<(u8, nat, nat)>
    decreases n,
{
    if n <= 0 {
        Seq::empty()
    } else {
        let prev = squares_listed(s, n - 1);
        let sq = (n - 1) as u8;
        if square_count(s, sq) > 0 {
            prev.push((sq, square_count(s, sq), square_lamports(s, sq)))
        } else {
            prev
        }
    }
}

pub open spec fn logged_count_fn() -> spec_fn(AnalyzedTransaction) -> nat {
    |a: AnalyzedTransaction| match a.ore_analysis {
        Some(o) => o.logged_deploy_count as nat,
        None => 0nat,
    }
}

pub open spec fn logged_lamports_fn() -> spec_fn(AnalyzedTransaction) -> nat {
    |a: AnalyzedTransaction| match a.ore_analysis {
        Some(o) => o.logged_deployed_lamports as nat,
        None => 0nat,
    }
}

/// One for a logged deployment for the round that no parsed instruction
/// accounts for.
pub open spec fn unmatched_one() -> spec_fn(LoggedDeployment) -> nat {
    |l: LoggedDeployment| if l.round_matches && !l.matched_parsed { 1nat } else { 0nat }
}

pub open spec fn unmatched_fn() -> spec_fn(AnalyzedTransaction) -> nat {
    |a: AnalyzedTransaction| total_of(logged_of(a), unmatched_one())
}

// ---------------------------------------------------------------------------
// Sets of keys
// ---------------------------------------------------------------------------

/// Some transaction before position `n` is signed by `x`.
pub open spec fn signed_before(s: Seq<AnalyzedTransaction>, n: int, x: Seq<char>) -> bool {
    exists|t: int, j: int| 0 <= t < n && 0 <= j < s[t].signers@.len() && #[trigger] s[t].signers@[j]@ == x
}

/// Some Deploy instruction parsed before position `n` has authority `x`.
pub open spec fn deployed_before(s: Seq<AnalyzedTransaction>, n: int, x: Seq<char>) -> bool {
    exists|t: int, j: int| 0 <= t < n && 0 <= j < deps_of(s[t]).len() && #[trigger] deps_of(s[t])[j].authority@ == x
}

/// Some deployment logged before position `n` names `x` as its authority
/// for the round.
pub open spec fn logged_before(s: Seq<AnalyzedTransaction>, n: int, x: Seq<char>) -> bool {
    exists|t: int, j: int| 0 <= t < n && 0 <= j < logged_of(s[t]).len() && #[trigger] logged_authority(logged_of(s[t])[j], x)
}

/// The signers of the transactions.
pub open spec fn signer_set(s: Seq<AnalyzedTransaction>) -> Set<Seq<char>> {
    Set::new(|x: Seq<char>| signed_before(s, s.len() as int, x))
}

/// The authorities of the parsed Deploy instructions.
pub open spec fn miner_set(s: Seq<AnalyzedTransaction>) -> Set<Seq<char>> {
    Set::new(|x: Seq<char>| deployed_before(s, s.len() as int, x))
}

/// The authorities of the logged deployments for the round.
pub open spec fn logged_miner_set(s: Seq<AnalyzedTransaction>) -> Set<Seq<char>> {
    Set::new(|x: Seq<char>| logged_before(s, s.len() as int, x))
}

proof fn lemma_signed_step(s: Seq<AnalyzedTransaction>, i: int, x: Seq<char>)
    requires
        0 <= i < s.len(),
    ensures
        signed_before(s, i + 1, x) <==> (signed_before(s, i, x)
            || exists|j: int| 0 <= j < s[i].signers@.len() && #[trigger] s[i].signers@[j]@ == x),
{
    if signed_before(s, i + 1, x) {
        let (t, j) = choose|t: int, j: int| 0 <= t < i + 1 && 0 <= j < s[t].signers@.len() && #[trigger] s[t].signers@[j]@ == x;
        assert(s[t].signers@[j]@ == x);
    }
    if exists|j: int| 0 <= j < s[i].signers@.len() && #[trigger] s[i].signers@[j]@ == x {
        let j = choose|j: int| 0 <= j < s[i].signers@.len() && #[trigger] s[i].signers@[j]@ == x;
        assert(s[i].signers@[j]@ == x);
    }
    if signed_before(s, i, x) {
        let (t, j) = choose|t: int, j: int| 0 <= t < i && 0 <= j < s[t].signers@.len() && #[trigger] s[t].signers@[j]@ == x;
        assert(s[t].signers@[j]@ == x);
    }
}

proof fn lemma_deployed_step(s: Seq<AnalyzedTransaction>, i: int, x: Seq<char>)
    requires
        0 <= i < s.len(),
    ensures
        deployed_before(s, i + 1, x) <==> (deployed_before(s, i, x)
            || exists|j: int| 0 <= j < deps_of(s[i]).len() && #[trigger] deps_of(s[i])[j].authority@ == x),
{
    if deployed_before(s, i + 1, x) {
        let (t, j) = choose|t: int, j: int| 0 <= t < i + 1 && 0 <= j < deps_of(s[t]).len() && #[trigger] deps_of(s[t])[j].authority@ == x;
        assert(deps_of(s[t])[j].authority@ == x);
    }
    if exists|j: int| 0 <= j < deps_of(s[i]).len() && #[trigger] deps_of(s[i])[j].authority@ == x {
        let j = choose|j: int| 0 <= j < deps_of(s[i]).len() && #[trigger] deps_of(s[i])[j].authority@ == x;
        assert(deps_of(s[i])[j].authority@ == x);
    }
    if deployed_before(s, i, x) {
        let (t, j) = choose|t: int, j: int| 0 <= t < i && 0 <= j < deps_of(s[t]).len() && #[trigger] deps_of(s[t])[j].authority@ == x;
        assert(deps_of(s[t])[j].authority@ == x);
    }
}

proof fn lemma_logged_step(s: Seq<AnalyzedTransaction>, i: int, x: Seq<char>)
    requires
        0 <= i < s.len(),
    ensures
        logged_before(s, i + 1, x) <==> (logged_before(s, i, x)
            || exists|j: int| 0 <= j < logged_of(s[i]).len() && #[trigger] logged_authority(logged_of(s[i])[j], x)),
{
    if logged_before(s, i + 1, x) {
        let (t, j) = choose|t: int, j: int| 0 <= t < i + 1 && 0 <= j < logged_of(s[t]).len() && #[trigger] logged_authority(logged_of(s[t])[j], x);
        assert(logged_authority(logged_of(s[t])[j], x));
    }
    if exists|j: int| 0 <= j < logged_of(s[i]).len() && #[trigger] logged_authority(logged_of(s[i])[j], x) {
        let j = choose|j: int| 0 <= j < logged_of(s[i]).len() && #[trigger] logged_authority(logged_of(s[i])[j], x);
        assert(logged_authority(logged_of(s[i])[j], x));
    }
    if logged_before(s, i, x) {
        let (t, j) = choose|t: int, j: int| 0 <= t < i && 0 <= j < logged_of(s[t]).len() && #[trigger] logged_authority(logged_of(s[t])[j], x);
        assert(logged_authority(logged_of(s[t])[j], x));
    }
}

// ---------------------------------------------------------------------------
// Programs
// ---------------------------------------------------------------------------

/// Per program key: the first name seen and the invocations so far.
pub type ProgramTotals = Map<Seq<char>, (Seq<char>, nat)>;

pub open spec fn program_step(m: ProgramTotals, inv: ProgramInvocation) -> ProgramTotals {
    if m.contains_key(inv.pubkey@) {
        m.insert(inv.pubkey@, (m[inv.pubkey@].0, m[inv.pubkey@].1 + inv.invocation_count as nat))
    } else {
        m.insert(inv.pubkey@, (inv.name@, inv.invocation_count as nat))
    }
}

pub open spec fn programs_fold(m: ProgramTotals, invs: Seq<ProgramInvocation>) -> ProgramTotals
    decreases invs.len(),
{
    if invs.len() == 0 {
        m
    } else {
        program_step(programs_fold(m, invs.drop_last()), invs.last())
    }
}

/// The programs of all transactions, in order.
pub open spec fn programs_of(s: Seq<AnalyzedTransaction>) -> ProgramTotals
    decreases s.len(),
{
    if s.len() == 0 {
        Map::empty()
    } else {
        programs_fold(programs_of(s.drop_last()), s.last().programs_invoked@)
    }
}

/// `m2` has every key of `m1`, each with at least its count and the same name.
pub open spec fn grows(m1: ProgramTotals, m2: ProgramTotals) -> bool {
    forall|k: Seq<char>| #[trigger] m1.contains_key(k) ==> m2.contains_key(k) && m1[k].1 <= m2[k].1 && m1[k].0 == m2[k].0
}

proof fn lemma_grows_trans(a: ProgramTotals, b: ProgramTotals, c: ProgramTotals)
    requires
        grows(a, b),
        grows(b, c),
    ensures
        grows(a, c),
{
    assert forall|k: Seq<char>| #[trigger] a.contains_key(k) implies c.contains_key(k) && a[k].1 <= c[k].1 && a[k].0 == c[k].0 by {
        assert(b.contains_key(k));
    }
}

proof fn lemma_step_grows(m: ProgramTotals, inv: ProgramInvocation)
    ensures
        grows(m, program_step(m, inv)),
{
}

proof fn lemma_fold_from(m: ProgramTotals, invs: Seq<ProgramInvocation>)
    ensures
        grows(m, programs_fold(m, invs)),
    decreases invs.len(),
{
    if invs.len() > 0 {
        lemma_fold_from(m, invs.drop_last());
        let mid = programs_fold(m, invs.drop_last());
        lemma_step_grows(mid, invs.last());
        lemma_grows_trans(m, mid, programs_fold(m, invs));
    }
}

proof fn lemma_fold_grows(m: ProgramTotals, invs: Seq<ProgramInvocation>, j: int)
    requires
        0 <= j <= invs.len(),
    ensures
        grows(programs_fold(m, invs.take(j)), programs_fold(m, invs)),
    decreases invs.len() - j,
{
    if j < invs.len() {
        lemma_fold_grows(m, invs, j + 1);
        assert(invs.take(j + 1).drop_last() =~= invs.take(j));
        assert(invs.take(j + 1).last() == invs[j]);
        let a = programs_fold(m, invs.take(j));
        lemma_step_grows(a, invs[j]);
        lemma_grows_trans(a, programs_fold(m, invs.take(j + 1)), programs_fold(m, invs));
    } else {
        assert(invs.take(j) =~= invs);
    }
}

proof fn lemma_programs_grow(s: Seq<AnalyzedTransaction>, i: int)
    requires
        0 <= i <= s.len(),
    ensures
        grows(programs_of(s.take(i)), programs_of(s)),
    decreases s.len() - i,
{
    if i < s.len() {
        lemma_programs_grow(s, i + 1);
        assert(s.take(i + 1).drop_last() =~= s.take(i));
        assert(s.take(i + 1).last() == s[i]);
        lemma_fold_from(programs_of(s.take(i)), s[i].programs_invoked@);
        lemma_grows_trans(programs_of(s.take(i)), programs_of(s.take(i + 1)), programs_of(s));
    } else {
        assert(s.take(i) =~= s);
    }
}

/// The entries mirror the totals: the same keys, each with its name and
/// count.
pub open spec fn mirrors(e: Seq<(String, (String, usize))>, m: ProgramTotals) -> bool {
    forall|k: Seq<char>| (#[trigger] lookup(e, k) is Some <==> m.contains_key(k))
        && (lookup(e, k) is Some ==> lookup(e, k).unwrap().0@ == m[k].0 && lookup(e, k).unwrap().1 == m[k].1)
}

// ---------------------------------------------------------------------------
// Collecting keys
// ---------------------------------------------------------------------------

/// Record every text of `v` in `set`.
fn add_texts(set: &mut KeyedList<()>, v: &Vec<String>)
    requires
        old(set).well_formed(),
    ensures
        final(set).well_formed(),
        forall|x: Seq<char>| #[trigger] lookup(final(set).entries_view(), x) is Some
            <==> (lookup(old(set).entries_view(), x) is Some || exists|j: int| 0 <= j < v@.len() && #[trigger] v@[j]@ == x),
{
    let mut j: usize = 0;
    while j < v.len()
        invariant
            set.well_formed(),
            j <= v@.len(),
            forall|x: Seq<char>| #[trigger] lookup(set.entries_view(), x) is Some
                <==> (lookup(old(set).entries_view(), x) is Some || exists|t: int| 0 <= t < j && #[trigger] v@[t]@ == x),
        decreases v@.len() - j,
    {
        let ghost before = set.entries_view();
        let k = v[j].clone();
        set.upsert(k, ());
        proof {
            assert forall|x: Seq<char>| #[trigger] lookup(set.entries_view(), x) is Some
                <==> (lookup(old(set).entries_view(), x) is Some || exists|t: int| 0 <= t < j + 1 && #[trigger] v@[t]@ == x) by {
                if x == v@[j as int]@ {
                } else {
                    assert(lookup(set.entries_view(), x) == lookup(before, x));
                    if exists|t: int| 0 <= t < j + 1 && #[trigger] v@[t]@ == x {
                        let t = choose|t: int| 0 <= t < j + 1 && #[trigger] v@[t]@ == x;
                        assert(t < j);
                    }
                }
            }
        }
        j = j + 1;
    }
}

/// Record the authority of every deployment of `deps` in `set`.
fn add_authorities(set: &mut KeyedList<()>, deps: &Vec<OreDeploymentInfo>)
    requires
        old(set).well_formed(),
    ensures
        final(set).well_formed(),
        forall|x: Seq<char>| #[trigger] lookup(final(set).entries_view(), x) is Some
            <==> (lookup(old(set).entries_view(), x) is Some || exists|j: int| 0 <= j < deps@.len() && #[trigger] deps@[j].authority@ == x),
{
    let mut j: usize = 0;
    while j < deps.len()
        invariant
            set.well_formed(),
            j <= deps@.len(),
            forall|x: Seq<char>| #[trigger] lookup(set.entries_view(), x) is Some
                <==> (lookup(old(set).entries_view(), x) is Some || exists|t: int| 0 <= t < j && #[trigger] deps@[t].authority@ == x),
        decreases deps@.len() - j,
    {
        let ghost before = set.entries_view();
        let k = deps[j].authority.clone();
        set.upsert(k, ());
        proof {
            assert forall|x: Seq<char>| #[trigger] lookup(set.entries_view(), x) is Some
                <==> (lookup(old(set).entries_view(), x) is Some || exists|t: int| 0 <= t < j + 1 && #[trigger] deps@[t].authority@ == x) by {
                if x == deps@[j as int].authority@ {
                } else {
                    assert(lookup(set.entries_view(), x) == lookup(before, x));
                    if exists|t: int| 0 <= t < j + 1 && #[trigger] deps@[t].authority@ == x {
                        let t = choose|t: int| 0 <= t < j + 1 && #[trigger] deps@[t].authority@ == x;
                        assert(t < j);
                    }
                }
            }
        }
        j = j + 1;
    }
}

/// Whether a logged deployment names an authority for the round, and which.
pub open spec fn logged_authority(l: LoggedDeployment, x: Seq<char>) -> bool {
    l.round_matches && l.authority is Some && l.authority.unwrap()@ == x
}

/// Record the authority of every logged deployment for the round in `set`.
fn add_logged_authorities(set: &mut KeyedList<()>, logged: &Vec<LoggedDeployment>)
    requires
        old(set).well_formed(),
    ensures
        final(set).well_formed(),
        forall|x: Seq<char>| #[trigger] lookup(final(set).entries_view(), x) is Some
            <==> (lookup(old(set).entries_view(), x) is Some || exists|j: int| 0 <= j < logged@.len() && #[trigger] logged_authority(logged@[j], x)),
{
    let mut j: usize = 0;
    while j < logged.len()
        invariant
            set.well_formed(),
            j <= logged@.len(),
            forall|x: Seq<char>| #[trigger] lookup(set.entries_view(), x) is Some
                <==> (lookup(old(set).entries_view(), x) is Some || exists|t: int| 0 <= t < j && #[trigger] logged_authority(logged@[t], x)),
        decreases logged@.len() - j,
    {
        let ghost before = set.entries_view();
        let l = &logged[j];
        if l.round_matches {
            match &l.authority {
                Some(a) => {
                    set.upsert(a.clone(), ());
                },
                None => {},
            }
        }
        proof {
            assert forall|x: Seq<char>| #[trigger] lookup(set.entries_view(), x) is Some
                <==> (lookup(old(set).entries_view(), x) is Some || exists|t: int| 0 <= t < j + 1 && #[trigger] logged_authority(logged@[t], x)) by {
                if logged_authority(logged@[j as int], x) {
                } else {
                    assert(lookup(set.entries_view(), x) == lookup(before, x));
                    if exists|t: int| 0 <= t < j + 1 && #[trigger] logged_authority(logged@[t], x) {
                        let t = choose|t: int| 0 <= t < j + 1 && #[trigger] logged_authority(logged@[t], x);
                        assert(t < j);
                    }
                }
            }
        }
        j = j + 1;
    }
}

// ---------------------------------------------------------------------------
// Per-square and per-program totals
// ---------------------------------------------------------------------------

/// Add the squares of `deps` to the per-square counts and lamports.
fn add_squares(counts: &mut Vec<usize>, lamps: &mut Vec<u64>, deps: &Vec<OreDeploymentInfo>)
    requires
        old(counts)@.len() == 256,
        old(lamps)@.len() == 256,
        forall|sq: int| 0 <= sq < 256 ==> old(counts)@[sq] + #[trigger] total_of(deps@, square_count_fn(sq as u8)) <= usize::MAX,
        forall|sq: int| 0 <= sq < 256 ==> old(lamps)@[sq] + #[trigger] total_of(deps@, square_lamports_fn(sq as u8)) <= u64::MAX,
    ensures
        final(counts)@.len() == 256,
        final(lamps)@.len() == 256,
        forall|sq: int| 0 <= sq < 256 ==> #[trigger] final(counts)@[sq] == old(counts)@[sq] + total_of(deps@, square_count_fn(sq as u8)),
        forall|sq: int| 0 <= sq < 256 ==> #[trigger] final(lamps)@[sq] == old(lamps)@[sq] + total_of(deps@, square_lamports_fn(sq as u8)),
{
    let mut j: usize = 0;
    while j < deps.len()
        invariant
            j <= deps@.len(),
            counts@.len() == 256,
            lamps@.len() == 256,
            forall|sq: int| 0 <= sq < 256 ==> old(counts)@[sq] + #[trigger] total_of(deps@, square_count_fn(sq as u8)) <= usize::MAX,
            forall|sq: int| 0 <= sq < 256 ==> old(lamps)@[sq] + #[trigger] total_of(deps@, square_lamports_fn(sq as u8)) <= u64::MAX,
            forall|sq: int| 0 <= sq < 256 ==> #[trigger] counts@[sq] == old(counts)@[sq] + total_of(deps@.take(j as int), square_count_fn(sq as u8)),
            forall|sq: int| 0 <= sq < 256 ==> #[trigger] lamps@[sq] == old(lamps)@[sq] + total_of(deps@.take(j as int), square_lamports_fn(sq as u8)),
        decreases deps@.len() - j,
    {
        let d = &deps[j];
        let ghost c0 = counts@;
        let ghost l0 = lamps@;
        let mut k: usize = 0;
        while k < d.squares.len()
            invariant
                j < deps@.len(),
                *d == deps@[j as int],
                k <= d.squares@.len(),
                counts@.len() == 256,
                lamps@.len() == 256,
                forall|sq: int| 0 <= sq < 256 ==> old(counts)@[sq] + #[trigger] total_of(deps@, square_count_fn(sq as u8)) <= usize::MAX,
                forall|sq: int| 0 <= sq < 256 ==> old(lamps)@[sq] + #[trigger] total_of(deps@, square_lamports_fn(sq as u8)) <= u64::MAX,
                forall|sq: int| 0 <= sq < 256 ==> #[trigger] c0[sq] == old(counts)@[sq] + total_of(deps@.take(j as int), square_count_fn(sq as u8)),
                forall|sq: int| 0 <= sq < 256 ==> #[trigger] l0[sq] == old(lamps)@[sq] + total_of(deps@.take(j as int), square_lamports_fn(sq as u8)),
                forall|sq: int| 0 <= sq < 256 ==> #[trigger] counts@[sq] == c0[sq] + total_of(d.squares@.take(k as int), is_square(sq as u8)),
                forall|sq: int| 0 <= sq < 256 ==> #[trigger] lamps@[sq] == l0[sq] + total_of(d.squares@.take(k as int), on_square(sq as u8, d.amount_per_square)),
            decreases d.squares@.len() - k,
        {
            let x = d.squares[k];
            let xi = x as usize;
            proof {
                let sqx = xi as int;
                assert((sqx as u8) == x);
                lemma_total_step(d.squares@, is_square(x), k as int);
                lemma_total_step(d.squares@, on_square(x, d.amount_per_square), k as int);
                lemma_total_prefix(d.squares@, is_square(x), k + 1);
                lemma_total_prefix(d.squares@, on_square(x, d.amount_per_square), k + 1);
                lemma_total_step(deps@, square_count_fn(x), j as int);
                lemma_total_step(deps@, square_lamports_fn(x), j as int);
                lemma_total_prefix(deps@, square_count_fn(x), j + 1);
                lemma_total_prefix(deps@, square_lamports_fn(x), j + 1);
                assert(square_count_fn(x)(deps@[j as int]) == total_of(d.squares@, is_square(x)));
                assert(square_lamports_fn(x)(deps@[j as int]) == total_of(d.squares@, on_square(x, d.amount_per_square)));
                assert(old(counts)@[sqx] + total_of(deps@, square_count_fn(sqx as u8)) <= usize::MAX);
                assert(old(lamps)@[sqx] + total_of(deps@, square_lamports_fn(sqx as u8)) <= u64::MAX);
                assert(c0[sqx] == old(counts)@[sqx] + total_of(deps@.take(j as int), square_count_fn(sqx as u8)));
                assert(l0[sqx] == old(lamps)@[sqx] + total_of(deps@.take(j as int), square_lamports_fn(sqx as u8)));
                assert(counts@[sqx] == c0[sqx] + total_of(d.squares@.take(k as int), is_square(sqx as u8)));
                assert(lamps@[sqx] == l0[sqx] + total_of(d.squares@.take(k as int), on_square(sqx as u8, d.amount_per_square)));
            }
            let c = counts[xi];
            counts.set(xi, c + 1);
            let l = lamps[xi];
            lamps.set(xi, l + d.amount_per_square);
            proof {
                assert forall|sq: int| 0 <= sq < 256 implies #[trigger] counts@[sq] == c0[sq] + total_of(d.squares@.take(k + 1), is_square(sq as u8)) by {
                    lemma_total_step(d.squares@, is_square(sq as u8), k as int);
                }
                assert forall|sq: int| 0 <= sq < 256 implies #[trigger] lamps@[sq] == l0[sq] + total_of(d.squares@.take(k + 1), on_square(sq as u8, d.amount_per_square)) by {
                    lemma_total_step(d.squares@, on_square(sq as u8, d.amount_per_square), k as int);
                }
            }
            k = k + 1;
        }
        proof {
            assert forall|sq: int| 0 <= sq < 256 implies #[trigger] counts@[sq] == old(counts)@[sq] + total_of(deps@.take(j + 1), square_count_fn(sq as u8)) by {
                lemma_total_step(deps@, square_count_fn(sq as u8), j as int);
                lemma_total_all(d.squares@, is_square(sq as u8));
            }
            assert forall|sq: int| 0 <= sq < 256 implies #[trigger] lamps@[sq] == old(lamps)@[sq] + total_of(deps@.take(j + 1), square_lamports_fn(sq as u8)) by {
                lemma_total_step(deps@, square_lamports_fn(sq as u8), j as int);
                lemma_total_all(d.squares@, on_square(sq as u8, d.amount_per_square));
            }
        }
        j = j + 1;
    }
    proof {
        assert forall|sq: int| 0 <= sq < 256 implies #[trigger] counts@[sq] == old(counts)@[sq] + total_of(deps@, square_count_fn(sq as u8)) by {
            lemma_total_all(deps@, square_count_fn(sq as u8));
        }
        assert forall|sq: int| 0 <= sq < 256 implies #[trigger] lamps@[sq] == old(lamps)@[sq] + total_of(deps@, square_lamports_fn(sq as u8)) by {
            lemma_total_all(deps@, square_lamports_fn(sq as u8));
        }
    }
}


/// Add the invocations of `invs` to the per-program totals.
fn add_programs(list: &mut KeyedList<(String, usize)>, invs: &Vec<ProgramInvocation>, Ghost(m0): Ghost<ProgramTotals>)
    requires
        old(list).well_formed(),
        mirrors(old(list).entries_view(), m0),
        forall|k: Seq<char>| #[trigger] programs_fold(m0, invs@).contains_key(k) ==> programs_fold(m0, invs@)[k].1 <= usize::MAX,
    ensures
        final(list).well_formed(),
        mirrors(final(list).entries_view(), programs_fold(m0, invs@)),
{
    let mut j: usize = 0;
    while j < invs.len()
        invariant
            list.well_formed(),
            j <= invs@.len(),
            mirrors(list.entries_view(), programs_fold(m0, invs@.take(j as int))),
            forall|k: Seq<char>| #[trigger] programs_fold(m0, invs@).contains_key(k) ==> programs_fold(m0, invs@)[k].1 <= usize::MAX,
        decreases invs@.len() - j,
    {
        let ghost before = list.entries_view();
        let ghost m = programs_fold(m0, invs@.take(j as int));
        let inv = &invs[j];
        proof {
            assert(invs@.take(j + 1).drop_last() =~= invs@.take(j as int));
            assert(invs@.take(j + 1).last() == invs@[j as int]);
            lemma_fold_grows(m0, invs@, j + 1);
        }
        let ghost m1 = programs_fold(m0, invs@.take(j + 1));
        assert(m1 == program_step(m, *inv));
        match list.get(inv.pubkey.as_str()) {
            Some(entry) => {
                let name = entry.0.clone();
                let count = entry.1;
                proof {
                    assert(lookup(before, inv.pubkey@) is Some);
                    assert(m.contains_key(inv.pubkey@));
                    assert(m1.contains_key(inv.pubkey@));
                    assert(programs_fold(m0, invs@).contains_key(inv.pubkey@));
                }
                list.upsert(inv.pubkey.clone(), (name, count + inv.invocation_count));
            },
            None => {
                list.upsert(inv.pubkey.clone(), (inv.name.clone(), inv.invocation_count));
            },
        }
        proof {
            assert forall|k: Seq<char>| (#[trigger] lookup(list.entries_view(), k) is Some <==> m1.contains_key(k))
                && (lookup(list.entries_view(), k) is Some ==> lookup(list.entries_view(), k).unwrap().0@ == m1[k].0
                    && lookup(list.entries_view(), k).unwrap().1 == m1[k].1) by {
                if k != inv.pubkey@ {
                    assert(lookup(list.entries_view(), k) == lookup(before, k));
                }
            }
        }
        j = j + 1;
    }
    proof {
        assert(invs@.take(invs@.len() as int) =~= invs@);
    }
}


// ---------------------------------------------------------------------------
// Per-transaction figures
// ---------------------------------------------------------------------------

proof fn lemma_running<T>(s: Seq<T>, f: spec_fn(T) -> nat, i: int)
    requires
        0 <= i < s.len(),
    ensures
        total_of(s.take(i + 1), f) == total_of(s.take(i), f) + f(s[i]),
        total_of(s.take(i + 1), f) <= total_of(s, f),
{
    lemma_total_step(s, f, i);
    lemma_total_prefix(s, f, i + 1);
}

/// Lamports, deployments for the round and deployments for another round,
/// over `deps`.
fn deploy_figures(deps: &Vec<OreDeploymentInfo>) -> (r: (u64, usize, usize))
    requires
        total_of(deps@, lamports_fn()) <= u64::MAX,
    ensures
        r.0 == total_of(deps@, lamports_fn()),
        r.1 == total_of(deps@, matching_fn()),
        r.2 == total_of(deps@, wrong_fn()),
        r.1 + r.2 == deps@.len(),
{
    let mut lamports: u64 = 0;
    let mut matching: usize = 0;
    let mut wrong: usize = 0;
    let mut j: usize = 0;
    while j < deps.len()
        invariant
            j <= deps@.len(),
            total_of(deps@, lamports_fn()) <= u64::MAX,
            lamports == total_of(deps@.take(j as int), lamports_fn()),
            matching == total_of(deps@.take(j as int), matching_fn()),
            wrong == total_of(deps@.take(j as int), wrong_fn()),
            matching + wrong == j,
        decreases deps@.len() - j,
    {
        proof {
            lemma_running(deps@, lamports_fn(), j as int);
            lemma_running(deps@, matching_fn(), j as int);
            lemma_running(deps@, wrong_fn(), j as int);
        }
        let d = &deps[j];
        lamports = lamports + d.total_lamports;
        if d.round_matches {
            matching = matching + 1;
        } else {
            wrong = wrong + 1;
        }
        j = j + 1;
    }
    proof {
        lemma_total_all(deps@, lamports_fn());
        lemma_total_all(deps@, matching_fn());
        lemma_total_all(deps@, wrong_fn());
    }
    (lamports, matching, wrong)
}

/// Logged deployments for the round that no parsed instruction accounts for.
fn count_unmatched(logged: &Vec<LoggedDeployment>) -> (r: usize)
    ensures
        r == total_of(logged@, unmatched_one()),
{
    let mut n: usize = 0;
    let mut j: usize = 0;
    while j < logged.len()
        invariant
            j <= logged@.len(),
            n == total_of(logged@.take(j as int), unmatched_one()),
            n <= j,
        decreases logged@.len() - j,
    {
        proof {
            lemma_running(logged@, unmatched_one(), j as int);
        }
        let l = &logged[j];
        if l.round_matches && !l.matched_parsed {
            n = n + 1;
        }
        j = j + 1;
    }
    proof {
        lemma_total_all(logged@, unmatched_one());
    }
    n
}

// ---------------------------------------------------------------------------
// Running totals
// ---------------------------------------------------------------------------

/// Running totals of fees, compute, outcomes, signers and programs.
struct BasicTally {
    fee: u64,
    compute: u64,
    successful: usize,
    failed: usize,
    signers: KeyedList<()>,
    programs: KeyedList<(String, usize)>,
}

/// Running totals of what the ORE instructions deployed.
struct OreTally {
    deployments: usize,
    matching: usize,
    wrong: usize,
    deployed: u64,
    miners: KeyedList<()>,
    square_counts: Vec<usize>,
    square_lamports: Vec<u64>,
    logged_count: usize,
    logged_lamports: u64,
    logged_miners: KeyedList<()>,
    unmatched: usize,
}

/// `b` holds the totals of the first `i` transactions of `s`.
spec fn basic_of(b: BasicTally, s: Seq<AnalyzedTransaction>, i: int) -> bool {
    let p = s.take(i);
    &&& 0 <= i <= s.len()
    &&& b.fee == total_of(p, fee_fn())
    &&& b.compute == total_of(p, compute_fn())
    &&& b.successful == total_of(p, success_fn())
    &&& b.failed == total_of(p, failure_fn())
    &&& b.successful + b.failed == i
    &&& b.signers.well_formed()
    &&& forall|x: Seq<char>| #[trigger] lookup(b.signers.entries_view(), x) is Some <==> signed_before(s, i, x)
    &&& b.programs.well_formed()
    &&& mirrors(b.programs.entries_view(), programs_of(p))
}

/// `t` holds the ORE totals of the first `i` transactions of `s`.
spec fn ore_of(t: OreTally, s: Seq<AnalyzedTransaction>, i: int) -> bool {
    let p = s.take(i);
    &&& 0 <= i <= s.len()
    &&& t.deployments == total_of(p, deploy_count_fn())
    &&& t.matching == total_of(p, over_deps(matching_fn()))
    &&& t.wrong == total_of(p, over_deps(wrong_fn()))
    &&& t.matching + t.wrong == t.deployments
    &&& t.deployed == total_of(p, over_deps(lamports_fn()))
    &&& t.miners.well_formed()
    &&& forall|x: Seq<char>| #[trigger] lookup(t.miners.entries_view(), x) is Some <==> deployed_before(s, i, x)
    &&& t.square_counts@.len() == 256
    &&& t.square_lamports@.len() == 256
    &&& forall|sq: int| 0 <= sq < 256 ==> #[trigger] t.square_counts@[sq] == total_of(p, over_deps(square_count_fn(sq as u8)))
    &&& forall|sq: int| 0 <= sq < 256 ==> #[trigger] t.square_lamports@[sq] == total_of(p, over_deps(square_lamports_fn(sq as u8)))
    &&& t.logged_count == total_of(p, logged_count_fn())
    &&& t.logged_lamports == total_of(p, logged_lamports_fn())
    &&& t.logged_miners.well_formed()
    &&& forall|x: Seq<char>| #[trigger] lookup(t.logged_miners.entries_view(), x) is Some <==> logged_before(s, i, x)
    &&& t.unmatched == total_of(p, unmatched_fn())
}

/// Logged minus parsed lamports, each total read as an `i64` the way a cast
/// reads it.
pub open spec fn lamport_gap(s: Seq<AnalyzedTransaction>) -> int {
    (total_of(s, logged_lamports_fn()) as u64 as i64) - (total_of(s, over_deps(lamports_fn())) as u64 as i64)
}

/// Every sum of the summary fits the integer type that holds it.
pub open spec fn summary_fits(s: Seq<AnalyzedTransaction>) -> bool {
    &&& total_of(s, fee_fn()) <= u64::MAX
    &&& total_of(s, compute_fn()) <= u64::MAX
    &&& total_of(s, deploy_count_fn()) <= usize::MAX
    &&& total_of(s, over_deps(lamports_fn())) <= u64::MAX
    &&& forall|sq: u8| #[trigger] square_count(s, sq) <= usize::MAX
    &&& forall|sq: u8| #[trigger] square_lamports(s, sq) <= u64::MAX
    &&& forall|k: Seq<char>| #[trigger] programs_of(s).contains_key(k) ==> programs_of(s)[k].1 <= usize::MAX
    &&& total_of(s, logged_count_fn()) <= usize::MAX
    &&& total_of(s, logged_lamports_fn()) <= u64::MAX
    &&& total_of(s, unmatched_fn()) <= usize::MAX
    &&& i64::MIN <= lamport_gap(s) <= i64::MAX
}

/// Add transaction `i` of `s` to the fee, compute, outcome, signer and
/// program totals.
fn absorb_basic(b: &mut BasicTally, a: &AnalyzedTransaction, Ghost(s): Ghost<Seq<AnalyzedTransaction>>, Ghost(i): Ghost<int>)
    requires
        0 <= i < s.len(),
        s.len() <= usize::MAX,
        *a == s[i],
        summary_fits(s),
        basic_of(*old(b), s, i),
    ensures
        basic_of(*final(b), s, i + 1),
{
    proof {
        lemma_running(s, fee_fn(), i);
        lemma_running(s, compute_fn(), i);
        lemma_running(s, success_fn(), i);
        lemma_running(s, failure_fn(), i);
    }
    b.fee = b.fee + a.fee;
    match a.compute_units_consumed {
        Some(c) => {
            b.compute = b.compute + c;
        },
        None => {},
    }
    if a.success {
        b.successful = b.successful + 1;
    } else {
        b.failed = b.failed + 1;
    }
    add_texts(&mut b.signers, &a.signers);
    proof {
        assert forall|x: Seq<char>| #[trigger] lookup(b.signers.entries_view(), x) is Some <==> signed_before(s, i + 1, x) by {
            lemma_signed_step(s, i, x);
        }
    }
    let ghost m0 = programs_of(s.take(i));
    proof {
        assert(s.take(i + 1).drop_last() =~= s.take(i));
        assert(s.take(i + 1).last() == s[i]);
        lemma_programs_grow(s, i + 1);
        let m1 = programs_fold(m0, a.programs_invoked@);
        assert(m1 == programs_of(s.take(i + 1)));
        assert forall|k: Seq<char>| #[trigger] m1.contains_key(k) implies m1[k].1 <= usize::MAX by {
            assert(programs_of(s).contains_key(k));
        }
    }
    add_programs(&mut b.programs, &a.programs_invoked, Ghost(m0));
}


/// Add transaction `i` of `s` to the ORE totals.
#[verifier::rlimit(40)]
fn absorb_ore(t: &mut OreTally, a: &AnalyzedTransaction, Ghost(s): Ghost<Seq<AnalyzedTransaction>>, Ghost(i): Ghost<int>)
    requires
        0 <= i < s.len(),
        *a == s[i],
        summary_fits(s),
        ore_of(*old(t), s, i),
    ensures
        ore_of(*final(t), s, i + 1),
{
    proof {
        lemma_running(s, deploy_count_fn(), i);
        lemma_running(s, over_deps(matching_fn()), i);
        lemma_running(s, over_deps(wrong_fn()), i);
        lemma_running(s, over_deps(lamports_fn()), i);
        lemma_running(s, logged_count_fn(), i);
        lemma_running(s, logged_lamports_fn(), i);
        lemma_running(s, unmatched_fn(), i);
        assert forall|sq: int| 0 <= sq < 256 implies
            total_of(s.take(i + 1), over_deps(square_count_fn(sq as u8))) == #[trigger] total_of(s.take(i), over_deps(square_count_fn(sq as u8))) + total_of(deps_of(s[i]), square_count_fn(sq as u8))
            && total_of(s.take(i + 1), over_deps(square_count_fn(sq as u8))) <= usize::MAX by {
            lemma_running(s, over_deps(square_count_fn(sq as u8)), i);
            assert(square_count(s, sq as u8) <= usize::MAX);
        }
        assert forall|sq: int| 0 <= sq < 256 implies
            total_of(s.take(i + 1), over_deps(square_lamports_fn(sq as u8))) == #[trigger] total_of(s.take(i), over_deps(square_lamports_fn(sq as u8))) + total_of(deps_of(s[i]), square_lamports_fn(sq as u8))
            && total_of(s.take(i + 1), over_deps(square_lamports_fn(sq as u8))) <= u64::MAX by {
            lemma_running(s, over_deps(square_lamports_fn(sq as u8)), i);
            assert(square_lamports(s, sq as u8) <= u64::MAX);
        }
    }
    match &a.ore_analysis {
        None => {
            proof {
                assert forall|x: Seq<char>| #[trigger] lookup(t.miners.entries_view(), x) is Some <==> deployed_before(s, i + 1, x) by {
                    lemma_deployed_step(s, i, x);
                }
                assert forall|x: Seq<char>| #[trigger] lookup(t.logged_miners.entries_view(), x) is Some <==> logged_before(s, i + 1, x) by {
                    lemma_logged_step(s, i, x);
                }
                assert forall|sq: int| 0 <= sq < 256 implies #[trigger] t.square_counts@[sq] == total_of(s.take(i + 1), over_deps(square_count_fn(sq as u8))) by {
                    assert(total_of(s.take(i), over_deps(square_count_fn(sq as u8))) == t.square_counts@[sq]);
                }
                assert forall|sq: int| 0 <= sq < 256 implies #[trigger] t.square_lamports@[sq] == total_of(s.take(i + 1), over_deps(square_lamports_fn(sq as u8))) by {
                    assert(total_of(s.take(i), over_deps(square_lamports_fn(sq as u8))) == t.square_lamports@[sq]);
                }
            }
        },
        Some(o) => {
            assert(deps_of(s[i]) == o.deployments@);
            assert(logged_of(s[i]) == o.logged_deployments@);
            let (lamports, matching, wrong) = deploy_figures(&o.deployments);
            t.deployments = t.deployments + o.deployments.len();
            t.matching = t.matching + matching;
            t.wrong = t.wrong + wrong;
            t.deployed = t.deployed + lamports;
            add_authorities(&mut t.miners, &o.deployments);
            proof {
                assert forall|x: Seq<char>| #[trigger] lookup(t.miners.entries_view(), x) is Some <==> deployed_before(s, i + 1, x) by {
                    lemma_deployed_step(s, i, x);
                }
            }
            let ghost c0 = t.square_counts@;
            let ghost l0 = t.square_lamports@;
            proof {
                assert forall|sq: int| 0 <= sq < 256 implies c0[sq] + #[trigger] total_of(o.deployments@, square_count_fn(sq as u8)) <= usize::MAX by {
                    assert(total_of(s.take(i), over_deps(square_count_fn(sq as u8))) == c0[sq]);
                }
                assert forall|sq: int| 0 <= sq < 256 implies l0[sq] + #[trigger] total_of(o.deployments@, square_lamports_fn(sq as u8)) <= u64::MAX by {
                    assert(total_of(s.take(i), over_deps(square_lamports_fn(sq as u8))) == l0[sq]);
                }
            }
            add_squares(&mut t.square_counts, &mut t.square_lamports, &o.deployments);
            proof {
                assert forall|sq: int| 0 <= sq < 256 implies #[trigger] t.square_counts@[sq] == total_of(s.take(i + 1), over_deps(square_count_fn(sq as u8))) by {
                    assert(total_of(s.take(i), over_deps(square_count_fn(sq as u8))) == c0[sq]);
                }
                assert forall|sq: int| 0 <= sq < 256 implies #[trigger] t.square_lamports@[sq] == total_of(s.take(i + 1), over_deps(square_lamports_fn(sq as u8))) by {
                    assert(total_of(s.take(i), over_deps(square_lamports_fn(sq as u8))) == l0[sq]);
                }
            }
            t.logged_count = t.logged_count + o.logged_deploy_count;
            t.logged_lamports = t.logged_lamports + o.logged_deployed_lamports;
            add_logged_authorities(&mut t.logged_miners, &o.logged_deployments);
            proof {
                assert forall|x: Seq<char>| #[trigger] lookup(t.logged_miners.entries_view(), x) is Some <==> logged_before(s, i + 1, x) by {
                    lemma_logged_step(s, i, x);
                }
            }
            let unmatched = count_unmatched(&o.logged_deployments);
            t.unmatched = t.unmatched + unmatched;
        },
    }
}


// ---------------------------------------------------------------------------
// The summary
// ---------------------------------------------------------------------------

/// Each square entry as (square, deployments, lamports).
pub open spec fn square_view(v: Seq<SquareDeploymentInfo>) -> Seq<(u8, nat, nat)> {
    v.map_values(|x: SquareDeploymentInfo| (x.square, x.deployment_count as nat, x.total_lamports as nat))
}

/// `v` lists the programs of `m`, each once, in key order, with the name
/// and invocation count that `m` holds for it.
pub open spec fn programs_listed(v: Seq<ProgramUsageSummary>, m: ProgramTotals) -> bool {
    &&& forall|t: int| #![trigger v[t]] 0 <= t < v.len() ==> m.contains_key(v[t].program@) && m[v[t].program@].0 == v[t].name@
        && m[v[t].program@].1 == v[t].invocation_count
    &&& forall|k: Seq<char>| #[trigger] m.contains_key(k) ==> exists|t: int| 0 <= t < v.len() && #[trigger] v[t].program@ == k
    &&& forall|t1: int, t2: int| 0 <= t1 < t2 < v.len() ==> key_before(#[trigger] v[t1].program@, #[trigger] v[t2].program@)
}

/// The ORE figures of `o` are those of the transactions `s`.
pub open spec fn ore_totals_of(o: OreRoundTotals, s: Seq<AnalyzedTransaction>) -> bool {
    &&& o.total_deployments == total_of(s, deploy_count_fn())
    &&& o.deployments_matching_round == total_of(s, over_deps(matching_fn()))
    &&& o.deployments_wrong_round == total_of(s, over_deps(wrong_fn()))
    &&& o.unique_miners == miner_set(s).len()
    &&& o.total_deployed_lamports == total_of(s, over_deps(lamports_fn()))
    &&& square_view(o.squares_deployed@) == squares_listed(s, 256)
    &&& o.logged_deploy_count == total_of(s, logged_count_fn())
    &&& o.logged_deployed_lamports == total_of(s, logged_lamports_fn())
    &&& o.logged_unique_miners == logged_miner_set(s).len()
    &&& o.logged_unmatched_count == total_of(s, unmatched_fn())
    &&& o.logged_vs_parsed_diff_lamports == lamport_gap(s)
}

/// The squares deployed on, in square order.
fn list_squares(counts: &Vec<usize>, lamps: &Vec<u64>, Ghost(s): Ghost<Seq<AnalyzedTransaction>>) -> (r: Vec<SquareDeploymentInfo>)
    requires
        counts@.len() == 256,
        lamps@.len() == 256,
        forall|sq: int| 0 <= sq < 256 ==> #[trigger] counts@[sq] == square_count(s, sq as u8),
        forall|sq: int| 0 <= sq < 256 ==> #[trigger] lamps@[sq] == square_lamports(s, sq as u8),
    ensures
        square_view(r@) == squares_listed(s, 256),
{
    let mut out: Vec<SquareDeploymentInfo> = Vec::new();
    let mut k: usize = 0;
    while k < 256
        invariant
            k <= 256,
            counts@.len() == 256,
            lamps@.len() == 256,
            forall|sq: int| 0 <= sq < 256 ==> #[trigger] counts@[sq] == square_count(s, sq as u8),
            forall|sq: int| 0 <= sq < 256 ==> #[trigger] lamps@[sq] == square_lamports(s, sq as u8),
            square_view(out@) == squares_listed(s, k as int),
        decreases 256 - k,
    {
        let ghost before = out@;
        let c = counts[k];
        let l = lamps[k];
        proof {
            assert(c == square_count(s, k as u8));
            assert(l == square_lamports(s, k as u8));
        }
        if c > 0 {
            out.push(SquareDeploymentInfo { square: k as u8, deployment_count: c, total_lamports: l });
            proof {
                assert(out@ == before.push(out@[out@.len() - 1]));
                assert(square_view(out@) =~= square_view(before).push((k as u8, c as nat, l as nat)));
            }
        }
        k = k + 1;
    }
    out
}

/// The entries of the per-program totals, in key order.
fn list_programs(list: &KeyedList<(String, usize)>) -> (r: Vec<ProgramUsageSummary>)
    ensures
        r@.len() == list.entries_view().len(),
        forall|t: int| #![trigger r@[t]] 0 <= t < r@.len() ==> r@[t].program@ == list.entries_view()[t].0@
            && r@[t].name@ == list.entries_view()[t].1.0@ && r@[t].invocation_count == list.entries_view()[t].1.1,
{
    let mut out: Vec<ProgramUsageSummary> = Vec::new();
    let mut t: usize = 0;
    let n = list.len();
    while t < n
        invariant
            t <= n,
            n == list.entries_view().len(),
            out@.len() == t,
            forall|u: int| #![trigger out@[u]] 0 <= u < t ==> out@[u].program@ == list.entries_view()[u].0@
                && out@[u].name@ == list.entries_view()[u].1.0@ && out@[u].invocation_count == list.entries_view()[u].1.1,
        decreases n - t,
    {
        let (key, value) = list.entry_at(t);
        out.push(ProgramUsageSummary { program: key.clone(), name: value.0.clone(), invocation_count: value.1 });
        t = t + 1;
    }
    out
}

/// Summarize a round's analyzed transactions: how many succeeded and
/// failed, the fees and compute they used, their distinct signers, the
/// programs they invoked (per program key, the first name seen and the
/// invocations), and, where a Deploy was parsed or logged, what the ORE
/// instructions deployed: counts for and against the round, distinct
/// miners, lamports in all and per square, and the logged figures beside
/// the parsed ones.
pub fn round_summary(analyses: &Vec<AnalyzedTransaction>) -> (r: RoundSummaryTotals)
    requires
        summary_fits(analyses@),
    ensures
        r.total_transactions == analyses@.len(),
        r.successful_transactions == total_of(analyses@, success_fn()),
        r.failed_transactions == total_of(analyses@, failure_fn()),
        r.successful_transactions + r.failed_transactions == r.total_transactions,
        r.total_fee_paid == total_of(analyses@, fee_fn()),
        r.total_compute_units == total_of(analyses@, compute_fn()),
        r.unique_signers == signer_set(analyses@).len(),
        signer_set(analyses@).finite(),
        programs_listed(r.programs_used@, programs_of(analyses@)),
        r.ore_summary is Some <==> (total_of(analyses@, deploy_count_fn()) > 0 || total_of(analyses@, logged_count_fn()) > 0),
        r.ore_summary matches Some(o) ==> ore_totals_of(o, analyses@)
            && o.deployments_matching_round + o.deployments_wrong_round == o.total_deployments,
{
    let ghost s = analyses@;
    let mut counts: Vec<usize> = Vec::new();
    let mut lamps: Vec<u64> = Vec::new();
    let mut k: usize = 0;
    while k < 256
        invariant
            k <= 256,
            counts@.len() == k,
            lamps@.len() == k,
            forall|q: int| 0 <= q < k ==> #[trigger] counts@[q] == 0,
            forall|q: int| 0 <= q < k ==> #[trigger] lamps@[q] == 0,
        decreases 256 - k,
    {
        counts.push(0);
        lamps.push(0);
        k = k + 1;
    }
    let ghost zero_counts = counts@;
    let ghost zero_lamps = lamps@;
    let mut basic = BasicTally {
        fee: 0,
        compute: 0,
        successful: 0,
        failed: 0,
        signers: KeyedList::new(),
        programs: KeyedList::new(),
    };
    let mut ore = OreTally {
        deployments: 0,
        matching: 0,
        wrong: 0,
        deployed: 0,
        miners: KeyedList::new(),
        square_counts: counts,
        square_lamports: lamps,
        logged_count: 0,
        logged_lamports: 0,
        logged_miners: KeyedList::new(),
        unmatched: 0,
    };
    proof {
        assert(s.take(0).len() == 0);
        assert(programs_of(s.take(0)) == Map::<Seq<char>, (Seq<char>, nat)>::empty());
        assert forall|x: Seq<char>| #[trigger] lookup(basic.signers.entries_view(), x) is Some <==> signed_before(s, 0, x) by {}
        assert forall|x: Seq<char>| #[trigger] lookup(ore.miners.entries_view(), x) is Some <==> deployed_before(s, 0, x) by {}
        assert forall|x: Seq<char>| #[trigger] lookup(ore.logged_miners.entries_view(), x) is Some <==> logged_before(s, 0, x) by {}
        assert forall|x: Seq<char>| #[trigger] lookup(basic.programs.entries_view(), x) is Some <==> programs_of(s.take(0)).contains_key(x) by {}
        assert forall|sq: int| 0 <= sq < 256 implies #[trigger] ore.square_counts@[sq] == total_of(s.take(0), over_deps(square_count_fn(sq as u8))) by {
            assert(zero_counts[sq] == 0);
        }
        assert forall|sq: int| 0 <= sq < 256 implies #[trigger] ore.square_lamports@[sq] == total_of(s.take(0), over_deps(square_lamports_fn(sq as u8))) by {
            assert(zero_lamps[sq] == 0);
        }
    }
    let mut i: usize = 0;
    while i < analyses.len()
        invariant
            i <= s.len(),
            s == analyses@,
            summary_fits(s),
            basic_of(basic, s, i as int),
            ore_of(ore, s, i as int),
        decreases s.len() - i,
    {
        absorb_basic(&mut basic, &analyses[i], Ghost(s), Ghost(i as int));
        absorb_ore(&mut ore, &analyses[i], Ghost(s), Ghost(i as int));
        i = i + 1;
    }
    proof {
        assert(s.take(s.len() as int) =~= s);
    }
    let programs_used = list_programs(&basic.programs);
    proof {
        let e = basic.programs.entries_view();
        let m = programs_of(s);
        lemma_keyed_sorted(basic.programs);
        assert forall|t: int| #![trigger programs_used@[t]] 0 <= t < programs_used@.len() implies m.contains_key(programs_used@[t].program@)
            && m[programs_used@[t].program@].0 == programs_used@[t].name@ && m[programs_used@[t].program@].1 == programs_used@[t].invocation_count by {
            lemma_lookup_at(e, t);
        }
        assert forall|kk: Seq<char>| #[trigger] m.contains_key(kk) implies exists|t: int| 0 <= t < programs_used@.len() && #[trigger] programs_used@[t].program@ == kk by {
            assert(lookup(e, kk) is Some);
            let t = choose|t: int| 0 <= t < e.len() && (#[trigger] e[t]).0@ == kk;
            assert(programs_used@[t].program@ == kk);
        }
        assert forall|t1: int, t2: int| 0 <= t1 < t2 < programs_used@.len() implies key_before(#[trigger] programs_used@[t1].program@, #[trigger] programs_used@[t2].program@) by {
            assert(key_before(e[t1].0@, e[t2].0@));
        }
        lemma_key_set_len(basic.signers);
        assert(key_set(basic.signers.entries_view()) =~= signer_set(s));
    }
    let ore_summary = if ore.deployments > 0 || ore.logged_count > 0 {
        let squares_deployed = list_squares(&ore.square_counts, &ore.square_lamports, Ghost(s));
        proof {
            lemma_key_set_len(ore.miners);
            assert(key_set(ore.miners.entries_view()) =~= miner_set(s));
            lemma_key_set_len(ore.logged_miners);
            assert(key_set(ore.logged_miners.entries_view()) =~= logged_miner_set(s));
        }
        let gap = (ore.logged_lamports as i64) - (ore.deployed as i64);
        Some(OreRoundTotals {
            total_deployments: ore.deployments,
            deployments_matching_round: ore.matching,
            deployments_wrong_round: ore.wrong,
            unique_miners: ore.miners.len(),
            total_deployed_lamports: ore.deployed,
            squares_deployed,
            logged_deploy_count: ore.logged_count,
            logged_deployed_lamports: ore.logged_lamports,
            logged_unique_miners: ore.logged_miners.len(),
            logged_unmatched_count: ore.unmatched,
            logged_vs_parsed_diff_lamports: gap,
        })
    } else {
        None
    };
    RoundSummaryTotals {
        total_transactions: analyses.len(),
        successful_transactions: basic.successful,
        failed_transactions: basic.failed,
        total_fee_paid: basic.fee,
        total_compute_units: basic.compute,
        unique_signers: basic.signers.len(),
        programs_used,
        ore_summary,
    }
}

} // verus!
