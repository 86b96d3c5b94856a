//! Reconstructing the automation settings behind a deployment: reusing a
//! stored state, or resolving the outcome of a scan of the authority's
//! automation history.

use vstd::prelude::*;

verus! {

broadcast use vstd::string::group_string_axioms;

/// The automation state behind one deployment, as stored.
#[derive(Debug)]
pub struct DeploymentAutomationStateInsert {
    pub round_id: u64,
    pub miner_pubkey: String,
    pub authority_pubkey: String,
    pub deploy_signature: String,
    pub deploy_ix_index: u8,
    pub deploy_slot: u64,
    pub automation_found: bool,
    pub automation_active: bool,
    pub automation_amount: u64,
    pub automation_mask: u64,
    pub automation_strategy: u8,
    pub automation_fee: u64,
    pub automation_executor: String,
    pub automate_signature: String,
    pub automate_ix_index: u8,
    pub automate_slot: u64,
    pub txns_searched: u32,
    pub pages_fetched: u32,
    pub fetch_duration_ms: u64,
    /// SOL balance at the time of the deployment.
    pub automation_balance: u64,
    /// True when the balance ran out before all squares were deployed.
    pub is_partial_deploy: bool,
    pub actual_squares_deployed: u8,
    pub actual_mask: u64,
    /// Squares times amount, plus the fee.
    pub total_sol_spent: u64,
}

/// A stored automation state.
#[derive(Debug)]
pub struct DeploymentAutomationStateRow {
    pub round_id: u64,
    pub miner_pubkey: String,
    pub authority_pubkey: String,
    pub deploy_signature: String,
    pub deploy_ix_index: u8,
    pub deploy_slot: u64,
    pub automation_found: bool,
    pub automation_active: bool,
    pub automation_amount: u64,
    pub automation_mask: u64,
    pub automation_strategy: u8,
    pub automation_fee: u64,
    pub automation_executor: String,
    pub automate_signature: String,
    pub automate_ix_index: u8,
    pub automate_slot: u64,
    pub txns_searched: u32,
    pub pages_fetched: u32,
    pub fetch_duration_ms: u64,
    pub automation_balance: u64,
    pub is_partial_deploy: bool,
    pub actual_squares_deployed: u8,
    pub actual_mask: u64,
    pub total_sol_spent: u64,
    pub created_at: i64,
}

/// A queued deployment whose automation state is to be found.
#[derive(Debug)]
pub struct QueuedDeploy {
    pub id: i32,
    pub round_id: i64,
    pub miner_pubkey: String,
    pub authority_pubkey: String,
    pub deploy_signature: String,
    pub deploy_ix_index: i16,
    pub deploy_slot: i64,
}

/// A deployment found in the automation history, with what it cost.
#[derive(Debug)]
pub struct CalculatedDeploy {
    pub slot: u64,
    pub signature: String,
    pub balance_before: u64,
    pub is_partial: bool,
    pub actual_squares: u8,
    pub actual_mask: u64,
    pub total_spent: u64,
}

/// The instruction that opened the automation in effect.
#[derive(Debug)]
pub struct AutomateOpen {
    pub amount: u64,
    pub mask: u64,
    pub strategy: u8,
    pub fee: u64,
    /// Base58 key of the executor.
    pub executor: String,
    pub signature: String,
    pub ix_index: u8,
    pub slot: u64,
}

/// Result of scanning an authority's automation history.
#[derive(Debug)]
pub struct AutomationScan {
    pub calculated_deploys: Vec<CalculatedDeploy>,
    pub automate_open: Option<AutomateOpen>,
    pub txns_searched: u32,
    pub pages_fetched: u32,
}

/// Outcome of processing one queued deployment.
#[derive(Debug)]
pub struct ProcessDetail {
    pub id: i32,
    pub deploy_signature: String,
    pub success: bool,
    pub automation_found: bool,
    pub automation_active: bool,
    pub txns_searched: u32,
    pub duration_ms: u64,
    /// Whether a previously stored state was the starting point.
    pub used_cache: bool,
    /// The slot of that stored state.
    pub cache_slot: Option<u64>,
    pub error: Option<String>,
}

/// Number of squares selected in a deployment mask (bits 0 to 24).
pub open spec fn squares_in_mask(mask: u64, k: int) -> int
    decreases k,
{
    if k <= 0 {
        0
    } else {
        squares_in_mask(mask, k - 1) + (if (mask >> ((k - 1) as u64)) & 1 == 1 { 1int } else { 0int })
    }
}

/// Count the squares selected in a deployment mask.
pub fn count_squares(mask: u64) -> (n: u8)
    ensures
        n == squares_in_mask(mask, 25),
{
    let mut n: u8 = 0;
    let mut i: u64 = 0;
    while i < 25
        invariant
            i <= 25,
            n == squares_in_mask(mask, i as int),
            n <= i,
        decreases 25 - i,
    {
        if (mask >> i) & 1 == 1 {
            n = n + 1;
        }
        i = i + 1;
    }
    n
}

/// The oldest slot worth scanning back to when a stored state is known:
/// just before that state's deployment.
pub fn scan_stop_slot(fallback: &Option<DeploymentAutomationStateRow>) -> (r: Option<u64>)
    ensures
        r == match fallback {
            Some(fb) => Some(if fb.deploy_slot == 0 { 0u64 } else { (fb.deploy_slot - 1) as u64 }),
            None => None,
        },
{
    match fallback {
        Some(fb) => Some(fb.deploy_slot.saturating_sub(1)),
        None => None,
    }
}

/// `r` is the state stored for `item` when `existing`, an earlier stored
/// state of the same authority, still applies: its settings, with no
/// scanning done.
pub open spec fn reuses(r: DeploymentAutomationStateInsert, item: QueuedDeploy, existing: DeploymentAutomationStateRow, duration_ms: u64) -> bool {
    &&& r.round_id == item.round_id as u64
    &&& r.miner_pubkey == item.miner_pubkey
    &&& r.authority_pubkey == item.authority_pubkey
    &&& r.deploy_signature == item.deploy_signature
    &&& r.deploy_ix_index == item.deploy_ix_index as u8
    &&& r.deploy_slot == item.deploy_slot as u64
    &&& r.automation_found
    &&& r.automation_active == existing.automation_active
    &&& r.automation_amount == existing.automation_amount
    &&& r.automation_mask == existing.automation_mask
    &&& r.automation_strategy == existing.automation_strategy
    &&& r.automation_fee == existing.automation_fee
    &&& r.automation_executor == existing.automation_executor
    &&& r.automate_signature == existing.automate_signature
    &&& r.automate_ix_index == existing.automate_ix_index
    &&& r.automate_slot == existing.automate_slot
    &&& r.txns_searched == 0
    &&& r.pages_fetched == 0
    &&& r.fetch_duration_ms == duration_ms
    &&& r.automation_balance == existing.automation_balance
    &&& r.is_partial_deploy == existing.is_partial_deploy
    &&& r.actual_squares_deployed == existing.actual_squares_deployed
    &&& r.actual_mask == existing.actual_mask
    &&& r.total_sol_spent == existing.total_sol_spent
}

/// The state stored for a queued deployment when an earlier stored state of
/// the same authority still applies: its settings, with no scanning done.
pub fn reused_state(item: &QueuedDeploy, existing: &DeploymentAutomationStateRow, duration_ms: u64) -> (r: DeploymentAutomationStateInsert)
    ensures
        reuses(r, *item, *existing, duration_ms),
{
    DeploymentAutomationStateInsert {
        round_id: item.round_id as u64,
        miner_pubkey: item.miner_pubkey.clone(),
        authority_pubkey: item.authority_pubkey.clone(),
        deploy_signature: item.deploy_signature.clone(),
        deploy_ix_index: item.deploy_ix_index as u8,
        deploy_slot: item.deploy_slot as u64,
        automation_found: true,
        automation_active: existing.automation_active,
        automation_amount: existing.automation_amount,
        automation_mask: existing.automation_mask,
        automation_strategy: existing.automation_strategy,
        automation_fee: existing.automation_fee,
        automation_executor: existing.automation_executor.clone(),
        automate_signature: existing.automate_signature.clone(),
        automate_ix_index: existing.automate_ix_index,
        automate_slot: existing.automate_slot,
        txns_searched: 0,
        pages_fetched: 0,
        fetch_duration_ms: duration_ms,
        automation_balance: existing.automation_balance,
        is_partial_deploy: existing.is_partial_deploy,
        actual_squares_deployed: existing.actual_squares_deployed,
        actual_mask: existing.actual_mask,
        total_sol_spent: existing.total_sol_spent,
    }
}

/// The first deployment of the scan at `slot` with `signature`.
pub open spec fn target_deploy(deploys: Seq<CalculatedDeploy>, slot: u64, signature: Seq<char>) -> Option<CalculatedDeploy>
    decreases deploys.len(),
{
    if deploys.len() == 0 {
        None
    } else if deploys[0].slot == slot && deploys[0].signature@ == signature {
        Some(deploys[0])
    } else {
        target_deploy(deploys.drop_first(), slot, signature)
    }
}

fn find_target_deploy(deploys: &Vec<CalculatedDeploy>, slot: u64, signature: &String) -> (r: Option<usize>)
    ensures
        r matches Some(i) ==> i < deploys@.len() && target_deploy(deploys@, slot, signature@) == Some(deploys@[i as int]),
        r is None ==> target_deploy(deploys@, slot, signature@) is None,
{
    let mut i: usize = 0;
    assert(deploys@.skip(0) =~= deploys@);
    while i < deploys.len()
        invariant
            i <= deploys@.len(),
            target_deploy(deploys@, slot, signature@) == target_deploy(deploys@.skip(i as int), slot, signature@),
        decreases deploys@.len() - i,
    {
        assert(deploys@.skip(i as int).drop_first() =~= deploys@.skip(i + 1));
        if deploys[i].slot == slot && deploys[i].signature == *signature {
            return Some(i);
        }
        i = i + 1;
    }
    None
}

/// What a scan established about the automation behind a deployment.
#[derive(Debug)]
pub struct AutomationOutcome {
    pub found: bool,
    pub active: bool,
    pub balance: u64,
    pub is_partial: bool,
    pub actual_squares: u8,
    pub actual_mask: u64,
    pub total_spent: u64,
    pub amount: u64,
    pub mask: u64,
    pub strategy: u8,
    pub fee: u64,
    pub executor: String,
    pub automate_signature: String,
    pub automate_ix_index: u8,
    pub automate_slot: u64,
}

/// SOL spent by an automation deploying `amount` on `squares` squares.
pub open spec fn spent_by(squares: u8, amount: u64, fee: u64) -> int {
    squares as int * amount as int + (if squares > 0 { fee as int } else { 0int })
}

/// The settings of an open automation are carried into `o`.
pub open spec fn carries_open(o: AutomationOutcome, open: AutomateOpen) -> bool {
    &&& o.amount == open.amount
    &&& o.mask == open.mask
    &&& o.strategy == open.strategy
    &&& o.fee == open.fee
    &&& o.executor == open.executor
    &&& o.automate_signature == open.signature
    &&& o.automate_ix_index == open.ix_index
    &&& o.automate_slot == open.slot
}

/// `o` carries no automation settings.
pub open spec fn carries_no_settings(o: AutomationOutcome) -> bool {
    &&& o.amount == 0
    &&& o.mask == 0
    &&& o.strategy == 0
    &&& o.fee == 0
    &&& o.executor@ == Seq::<char>::empty()
    &&& o.automate_signature@ == Seq::<char>::empty()
    &&& o.automate_ix_index == 0
    &&& o.automate_slot == 0
}

/// The outcome of a scan, by precedence: the deployment itself was found in
/// the history (its cost, with the open automation's settings); else the
/// open automation alone (cost from its mask, balance unknown); else the
/// stored fallback state; else nothing found.
pub open spec fn is_scan_outcome(
    o: AutomationOutcome,
    item: QueuedDeploy,
    scan: AutomationScan,
    fallback: Option<DeploymentAutomationStateRow>,
) -> bool {
    match target_deploy(scan.calculated_deploys@, item.deploy_slot as u64, item.deploy_signature@) {
        Some(calc) => {
            &&& o.found && o.active
            &&& o.balance == calc.balance_before
            &&& o.is_partial == calc.is_partial
            &&& o.actual_squares == calc.actual_squares
            &&& o.actual_mask == calc.actual_mask
            &&& o.total_spent == calc.total_spent
            &&& match scan.automate_open {
                Some(open) => carries_open(o, open),
                None => carries_no_settings(o),
            }
        },
        None => match scan.automate_open {
            Some(open) => {
                &&& o.found && o.active
                &&& o.balance == 0
                &&& !o.is_partial
                &&& o.actual_squares == squares_in_mask(open.mask, 25)
                &&& o.actual_mask == open.mask
                &&& o.total_spent == spent_by(o.actual_squares, open.amount, open.fee)
                &&& carries_open(o, open)
            },
            None => match fallback {
                Some(fb) => {
                    &&& o.found
                    &&& o.active == fb.automation_active
                    &&& o.balance == fb.automation_balance
                    &&& o.is_partial == fb.is_partial_deploy
                    &&& o.actual_squares == fb.actual_squares_deployed
                    &&& o.actual_mask == fb.actual_mask
                    &&& o.total_spent == fb.total_sol_spent
                    &&& o.amount == fb.automation_amount
                    &&& o.mask == fb.automation_mask
                    &&& o.strategy == fb.automation_strategy
                    &&& o.fee == fb.automation_fee
                    &&& o.executor == fb.automation_executor
                    &&& o.automate_signature == fb.automate_signature
                    &&& o.automate_ix_index == fb.automate_ix_index
                    &&& o.automate_slot == fb.automate_slot
                },
                None => {
                    &&& !o.found && !o.active
                    &&& o.balance == 0
                    &&& !o.is_partial
                    &&& o.actual_squares == 0
                    &&& o.actual_mask == 0
                    &&& o.total_spent == 0
                    &&& carries_no_settings(o)
                },
            },
        },
    }
}

/// The cost of the open automation alone fits in 64 bits (when it is what
/// decides the outcome).
pub open spec fn open_cost_fits(item: QueuedDeploy, scan: AutomationScan) -> bool {
    target_deploy(scan.calculated_deploys@, item.deploy_slot as u64, item.deploy_signature@) is None ==>
        (scan.automate_open matches Some(open) ==> spent_by(squares_in_mask(open.mask, 25) as u8, open.amount, open.fee) <= u64::MAX)
}

fn copy_open(o: &AutomateOpen, out: &mut AutomationOutcome)
    ensures
        carries_open(*final(out), *o),
        final(out).found == old(out).found,
        final(out).active == old(out).active,
        final(out).balance == old(out).balance,
        final(out).is_partial == old(out).is_partial,
        final(out).actual_squares == old(out).actual_squares,
        final(out).actual_mask == old(out).actual_mask,
        final(out).total_spent == old(out).total_spent,
{
    out.amount = o.amount;
    out.mask = o.mask;
    out.strategy = o.strategy;
    out.fee = o.fee;
    out.executor = o.executor.clone();
    out.automate_signature = o.signature.clone();
    out.automate_ix_index = o.ix_index;
    out.automate_slot = o.slot;
}

/// Resolve what a scan established (see `is_scan_outcome`).
pub fn resolve_scan(
    item: &QueuedDeploy,
    scan: &AutomationScan,
    fallback: &Option<DeploymentAutomationStateRow>,
) -> (o: AutomationOutcome)
    requires
        open_cost_fits(*item, *scan),
    ensures
        is_scan_outcome(o, *item, *scan, *fallback),
{
    let mut o = AutomationOutcome {
        found: false, active: false, balance: 0, is_partial: false, actual_squares: 0,
        actual_mask: 0, total_spent: 0, amount: 0, mask: 0, strategy: 0, fee: 0,
        executor: String::new(), automate_signature: String::new(), automate_ix_index: 0, automate_slot: 0,
    };
    match find_target_deploy(&scan.calculated_deploys, item.deploy_slot as u64, &item.deploy_signature) {
        Some(i) => {
            let calc = &scan.calculated_deploys[i];
            o.found = true;
            o.active = true;
            o.balance = calc.balance_before;
            o.is_partial = calc.is_partial;
            o.actual_squares = calc.actual_squares;
            o.actual_mask = calc.actual_mask;
            o.total_spent = calc.total_spent;
            match &scan.automate_open {
                Some(open) => copy_open(open, &mut o),
                None => {},
            }
        },
        None => match &scan.automate_open {
            Some(open) => {
                let squares = count_squares(open.mask);
                proof {
                    assert(squares as int * open.amount as int <= spent_by(squares, open.amount, open.fee));
                    assert(0 <= squares as int * open.amount as int) by (nonlinear_arith)
                        requires
                            0 <= squares,
                            0 <= open.amount,
                    ;
                }
                let spent = squares as u64 * open.amount + if squares > 0 { open.fee } else { 0 };
                o.found = true;
                o.active = true;
                o.actual_squares = squares;
                o.actual_mask = open.mask;
                o.total_spent = spent;
                copy_open(open, &mut o);
            },
            None => match fallback {
                Some(fb) => {
                    o.found = true;
                    o.active = fb.automation_active;
                    o.balance = fb.automation_balance;
                    o.is_partial = fb.is_partial_deploy;
                    o.actual_squares = fb.actual_squares_deployed;
                    o.actual_mask = fb.actual_mask;
                    o.total_spent = fb.total_sol_spent;
                    o.amount = fb.automation_amount;
                    o.mask = fb.automation_mask;
                    o.strategy = fb.automation_strategy;
                    o.fee = fb.automation_fee;
                    o.executor = fb.automation_executor.clone();
                    o.automate_signature = fb.automate_signature.clone();
                    o.automate_ix_index = fb.automate_ix_index;
                    o.automate_slot = fb.automate_slot;
                },
                None => {},
            },
        },
    }
    o
}

/// A stored fallback state was the starting point: one exists and the scan
/// found no open automation.
pub open spec fn used_cache_spec(scan: AutomationScan, fallback: Option<DeploymentAutomationStateRow>) -> bool {
    fallback is Some && scan.automate_open is None
}

/// `ins` is the state stored for `item` after `scan`, with `fallback` the
/// authority's latest stored state; `used_cache` tells whether that state
/// was the starting point and `cache_slot` its slot then.
pub open spec fn scans(
    ins: DeploymentAutomationStateInsert,
    used_cache: bool,
    cache_slot: Option<u64>,
    item: QueuedDeploy,
    scan: AutomationScan,
    fallback: Option<DeploymentAutomationStateRow>,
    duration_ms: u64,
) -> bool {
    &&& ins.round_id == item.round_id as u64
    &&& ins.miner_pubkey == item.miner_pubkey
    &&& ins.authority_pubkey == item.authority_pubkey
    &&& ins.deploy_signature == item.deploy_signature
    &&& ins.deploy_ix_index == item.deploy_ix_index as u8
    &&& ins.deploy_slot == item.deploy_slot as u64
    &&& ins.txns_searched == scan.txns_searched
    &&& ins.pages_fetched == scan.pages_fetched
    &&& ins.fetch_duration_ms == duration_ms
    &&& exists|o: AutomationOutcome| is_scan_outcome(o, item, scan, fallback)
        && ins.automation_found == o.found && ins.automation_active == o.active
        && ins.automation_amount == o.amount && ins.automation_mask == o.mask
        && ins.automation_strategy == o.strategy && ins.automation_fee == o.fee
        && ins.automation_executor == o.executor && ins.automate_signature == o.automate_signature
        && ins.automate_ix_index == o.automate_ix_index && ins.automate_slot == o.automate_slot
        && ins.automation_balance == o.balance && ins.is_partial_deploy == o.is_partial
        && ins.actual_squares_deployed == o.actual_squares && ins.actual_mask == o.actual_mask
        && ins.total_sol_spent == o.total_spent
    &&& used_cache == used_cache_spec(scan, fallback)
    &&& cache_slot == (if used_cache { Some(fallback.unwrap().automate_slot) } else { None::<u64> })
}

/// The state stored for a scanned deployment, whether the stored fallback
/// was the starting point, and the slot of the state used then.
pub fn scanned_state(
    item: &QueuedDeploy,
    scan: &AutomationScan,
    fallback: &Option<DeploymentAutomationStateRow>,
    duration_ms: u64,
) -> (r: (DeploymentAutomationStateInsert, bool, Option<u64>))
    requires
        open_cost_fits(*item, *scan),
    ensures
        scans(r.0, r.1, r.2, *item, *scan, *fallback, duration_ms),
{
    let o = resolve_scan(item, scan, fallback);
    let ghost og = o;
    let used_cache = fallback.is_some() && scan.automate_open.is_none();
    let cache_slot = if used_cache {
        match fallback {
            Some(fb) => Some(fb.automate_slot),
            None => None,
        }
    } else {
        None
    };
    let ins = DeploymentAutomationStateInsert {
        round_id: item.round_id as u64,
        miner_pubkey: item.miner_pubkey.clone(),
        authority_pubkey: item.authority_pubkey.clone(),
        deploy_signature: item.deploy_signature.clone(),
        deploy_ix_index: item.deploy_ix_index as u8,
        deploy_slot: item.deploy_slot as u64,
        automation_found: o.found,
        automation_active: o.active,
        automation_amount: o.amount,
        automation_mask: o.mask,
        automation_strategy: o.strategy,
        automation_fee: o.fee,
        automation_executor: o.executor,
        automate_signature: o.automate_signature,
        automate_ix_index: o.automate_ix_index,
        automate_slot: o.automate_slot,
        txns_searched: scan.txns_searched,
        pages_fetched: scan.pages_fetched,
        fetch_duration_ms: duration_ms,
        automation_balance: o.balance,
        is_partial_deploy: o.is_partial,
        actual_squares_deployed: o.actual_squares,
        actual_mask: o.actual_mask,
        total_sol_spent: o.total_spent,
    };
    assert(is_scan_outcome(og, *item, *scan, *fallback));
    (ins, used_cache, cache_slot)
}

/// The detail reported for a queued deployment that could not be processed.
pub fn failed_detail(id: i32, deploy_signature: String, error: String, duration_ms: u64) -> (d: ProcessDetail)
    ensures
        d.id == id,
        d.deploy_signature == deploy_signature,
        !d.success,
        !d.automation_found,
        !d.automation_active,
        d.txns_searched == 0,
        d.duration_ms == duration_ms,
        !d.used_cache,
        d.cache_slot is None,
        d.error == Some(error),
{
    ProcessDetail {
        id,
        deploy_signature,
        success: false,
        automation_found: false,
        automation_active: false,
        txns_searched: 0,
        duration_ms,
        used_cache: false,
        cache_slot: None,
        error: Some(error),
    }
}

/// Where the processing of a queued deployment stands.
#[derive(Debug)]
pub enum ProcessStage {
    /// Nothing has been done yet.
    Start,
    /// A stored state that the deployment can reuse is being looked up.
    SeekingReusable,
    /// The authority's latest stored state is being looked up.
    SeekingFallback,
    /// The authority's history is being scanned; `fallback` is its latest
    /// stored state.
    Scanning { fallback: Option<DeploymentAutomationStateRow> },
    /// A state is being stored; `detail` is reported once it is.
    Storing { detail: ProcessDetail },
    /// The outcome has been reported.
    Finished,
}

/// What the service learned while processing a queued deployment.
#[derive(Debug)]
pub enum ProcessEvent {
    /// The authority key was read: `error` says why it is not a valid key.
    AuthorityChecked { error: Option<String>, duration_ms: u64 },
    /// The stored state that the deployment can reuse, if one was found.
    ReusableLookedUp { found: Option<DeploymentAutomationStateRow>, duration_ms: u64 },
    /// The authority's latest stored state, if one was found.
    FallbackLookedUp { found: Option<DeploymentAutomationStateRow> },
    /// The scan of the authority's history, or why it failed.
    Scanned { result: Result<AutomationScan, String>, duration_ms: u64 },
    /// The state was stored, or `error` says why not.
    Stored { error: Option<String> },
}

/// What the service does next for a queued deployment.
#[derive(Debug)]
pub enum ProcessAction {
    LookupReusable,
    LookupFallback,
    /// Scan the authority's history back to `stop_at_slot` (all of it when
    /// absent).
    Scan { stop_at_slot: Option<u64> },
    /// Store `insert`.
    Store { insert: DeploymentAutomationStateInsert },
    /// Mark the queue entry failed with `error`; report `detail`.
    Fail { error: String, detail: ProcessDetail },
    /// Mark the queue entry completed; report `detail`.
    Complete { detail: ProcessDetail },
}

/// `event` is what the service can learn at `stage`.
pub open spec fn awaits(stage: ProcessStage, event: ProcessEvent) -> bool {
    match stage {
        ProcessStage::Start => event is AuthorityChecked,
        ProcessStage::SeekingReusable => event is ReusableLookedUp,
        ProcessStage::SeekingFallback => event is FallbackLookedUp,
        ProcessStage::Scanning { .. } => event is Scanned,
        ProcessStage::Storing { .. } => event is Stored,
        ProcessStage::Finished => false,
    }
}

/// `d` reports `item` failed with `error`, nothing found and no scan done.
pub open spec fn failed_for(d: ProcessDetail, item: QueuedDeploy, error: Seq<char>, duration_ms: u64) -> bool {
    &&& d.id == item.id
    &&& d.deploy_signature@ == item.deploy_signature@
    &&& !d.success
    &&& !d.automation_found
    &&& !d.automation_active
    &&& d.txns_searched == 0
    &&& d.duration_ms == duration_ms
    &&& !d.used_cache
    &&& d.cache_slot is None
    &&& d.error matches Some(e) && e@ == error
}

/// `failed` is `stored` reported as failed to store, with `error`; the
/// transactions searched are kept when `keep_searched`, else reported as 0.
pub open spec fn store_failed(failed: ProcessDetail, stored: ProcessDetail, error: Seq<char>, keep_searched: bool) -> bool {
    &&& failed.id == stored.id
    &&& failed.deploy_signature == stored.deploy_signature
    &&& !failed.success
    &&& failed.automation_found == stored.automation_found
    &&& failed.automation_active == stored.automation_active
    &&& failed.txns_searched == (if keep_searched { stored.txns_searched } else { 0u32 })
    &&& failed.duration_ms == stored.duration_ms
    &&& failed.used_cache == stored.used_cache
    &&& failed.cache_slot == stored.cache_slot
    &&& failed.error matches Some(e) && e@ == error
}

/// A message: `prefix` then `reason`.
fn message(prefix: &str, reason: &String) -> (m: String)
    ensures
        m@ == prefix@ + reason@,
{
    let mut m = prefix.to_owned();
    m.append(reason.as_str());
    m
}

/// Processing `item` moved from `stage`, on learning `event`, to `next`,
/// to do `action` (`keep_searched`: whether a failed store still reports
/// the transactions searched).
pub open spec fn process_moved(
    item: QueuedDeploy,
    stage: ProcessStage,
    event: ProcessEvent,
    keep_searched: bool,
    next: ProcessStage,
    action: ProcessAction,
) -> bool {
    match event {
        ProcessEvent::AuthorityChecked { error: None, .. } => next is SeekingReusable && action is LookupReusable,
        ProcessEvent::AuthorityChecked { error: Some(e), duration_ms } => {
            &&& next is Finished
            &&& action matches ProcessAction::Fail { error, detail }
            &&& error@ == "Invalid authority: "@ + e@
            &&& failed_for(detail, item, error@, duration_ms)
        },
        ProcessEvent::ReusableLookedUp { found: None, .. } => next is SeekingFallback && action is LookupFallback,
        ProcessEvent::ReusableLookedUp { found: Some(existing), duration_ms } => {
            &&& action matches ProcessAction::Store { insert }
            &&& reuses(insert, item, existing, duration_ms)
            &&& next matches ProcessStage::Storing { detail }
            &&& detail.id == item.id
            &&& detail.deploy_signature@ == item.deploy_signature@
            &&& detail.success
            &&& detail.automation_found
            &&& detail.automation_active == existing.automation_active
            &&& detail.txns_searched == 0
            &&& detail.duration_ms == duration_ms
            &&& detail.used_cache
            &&& detail.cache_slot == Some(existing.automate_slot)
            &&& detail.error is None
        },
        ProcessEvent::FallbackLookedUp { found } => {
            &&& next == (ProcessStage::Scanning { fallback: found })
            &&& action == (ProcessAction::Scan { stop_at_slot: match found {
                Some(fb) => Some(if fb.deploy_slot == 0 { 0u64 } else { (fb.deploy_slot - 1) as u64 }),
                None => None,
            } })
        },
        ProcessEvent::Scanned { result: Ok(scan), duration_ms } => {
            &&& stage matches ProcessStage::Scanning { fallback }
            &&& action matches ProcessAction::Store { insert }
            &&& next matches ProcessStage::Storing { detail }
            &&& scans(insert, detail.used_cache, detail.cache_slot, item, scan, fallback, duration_ms)
            &&& detail.id == item.id
            &&& detail.deploy_signature@ == item.deploy_signature@
            &&& detail.success
            &&& detail.automation_found == insert.automation_found
            &&& detail.automation_active == insert.automation_active
            &&& detail.txns_searched == scan.txns_searched
            &&& detail.duration_ms == duration_ms
            &&& detail.error is None
        },
        ProcessEvent::Scanned { result: Err(e), duration_ms } => {
            &&& next is Finished
            &&& action matches ProcessAction::Fail { error, detail }
            &&& error@ == "Helius error: "@ + e@
            &&& failed_for(detail, item, error@, duration_ms)
        },
        ProcessEvent::Stored { error: None } => {
            &&& stage matches ProcessStage::Storing { detail }
            &&& next is Finished
            &&& action == (ProcessAction::Complete { detail })
        },
        ProcessEvent::Stored { error: Some(e) } => {
            &&& stage matches ProcessStage::Storing { detail }
            &&& next is Finished
            &&& action matches ProcessAction::Fail { error, detail: failed }
            &&& error@ == "ClickHouse insert failed: "@ + e@
            &&& store_failed(failed, detail, error@, keep_searched)
        },
    }
}

/// One step of processing a queued deployment: from where it stands and
/// what was learned, where it stands next and what to do. A deployment
/// whose authority key is invalid fails; one with a reusable stored state
/// stores a copy of it; otherwise the authority's history is scanned back
/// to just before its latest stored state and the outcome of the scan is
/// stored; a failed scan or a failed store fails the deployment. The queue
/// processor that keeps statistics (`keep_searched`) still reports the
/// transactions searched when the store fails; the other reports none.
pub fn process_step(item: &QueuedDeploy, stage: ProcessStage, event: ProcessEvent, keep_searched: bool) -> (r: (ProcessStage, ProcessAction))
    requires
        awaits(stage, event),
        event matches ProcessEvent::Scanned { result: Ok(scan), .. } ==> open_cost_fits(*item, scan),
    ensures
        process_moved(*item, stage, event, keep_searched, r.0, r.1),
{
    match event {
        ProcessEvent::AuthorityChecked { error, duration_ms } => match error {
            None => (ProcessStage::SeekingReusable, ProcessAction::LookupReusable),
            Some(e) => {
                let m = message("Invalid authority: ", &e);
                let detail = failed_detail(item.id, item.deploy_signature.clone(), m.clone(), duration_ms);
                (ProcessStage::Finished, ProcessAction::Fail { error: m, detail })
            },
        },
        ProcessEvent::ReusableLookedUp { found, duration_ms } => match found {
            None => (ProcessStage::SeekingFallback, ProcessAction::LookupFallback),
            Some(existing) => {
                let insert = reused_state(item, &existing, duration_ms);
                let detail = ProcessDetail {
                    id: item.id,
                    deploy_signature: item.deploy_signature.clone(),
                    success: true,
                    automation_found: true,
                    automation_active: existing.automation_active,
                    txns_searched: 0,
                    duration_ms,
                    used_cache: true,
                    cache_slot: Some(existing.automate_slot),
                    error: None,
                };
                (ProcessStage::Storing { detail }, ProcessAction::Store { insert })
            },
        },
        ProcessEvent::FallbackLookedUp { found } => {
            let stop_at_slot = scan_stop_slot(&found);
            (ProcessStage::Scanning { fallback: found }, ProcessAction::Scan { stop_at_slot })
        },
        ProcessEvent::Scanned { result, duration_ms } => {
            let fallback = match stage {
                ProcessStage::Scanning { fallback } => fallback,
                _ => None,
            };
            match result {
                Ok(scan) => {
                    let (insert, used_cache, cache_slot) = scanned_state(item, &scan, &fallback, duration_ms);
                    let detail = ProcessDetail {
                        id: item.id,
                        deploy_signature: item.deploy_signature.clone(),
                        success: true,
                        automation_found: insert.automation_found,
                        automation_active: insert.automation_active,
                        txns_searched: scan.txns_searched,
                        duration_ms,
                        used_cache,
                        cache_slot,
                        error: None,
                    };
                    (ProcessStage::Storing { detail }, ProcessAction::Store { insert })
                },
                Err(e) => {
                    let m = message("Helius error: ", &e);
                    let detail = failed_detail(item.id, item.deploy_signature.clone(), m.clone(), duration_ms);
                    (ProcessStage::Finished, ProcessAction::Fail { error: m, detail })
                },
            }
        },
        ProcessEvent::Stored { error } => {
            let stored = match stage {
                ProcessStage::Storing { detail } => detail,
                _ => failed_detail(item.id, item.deploy_signature.clone(), String::new(), 0),
            };
            match error {
                None => (ProcessStage::Finished, ProcessAction::Complete { detail: stored }),
                Some(e) => {
                    let m = message("ClickHouse insert failed: ", &e);
                    let failed = ProcessDetail {
                        id: stored.id,
                        deploy_signature: stored.deploy_signature,
                        success: false,
                        automation_found: stored.automation_found,
                        automation_active: stored.automation_active,
                        txns_searched: if keep_searched { stored.txns_searched } else { 0 },
                        duration_ms: stored.duration_ms,
                        used_cache: stored.used_cache,
                        cache_slot: stored.cache_slot,
                        error: Some(m.clone()),
                    };
                    (ProcessStage::Finished, ProcessAction::Fail { error: m, detail: failed })
                },
            }
        },
    }
}

/// `d` reports on `item`, succeeds exactly when it carries no error, and
/// names a cache slot exactly when a stored state was the starting point.
pub open spec fn detail_consistent(d: ProcessDetail, item: QueuedDeploy) -> bool {
    &&& d.id == item.id
    &&& d.deploy_signature@ == item.deploy_signature@
    &&& (d.success <==> d.error is None)
    &&& (d.used_cache <==> d.cache_slot is Some)
}

/// A state being stored will be reported as a success for `item`.
pub open spec fn stage_reports(stage: ProcessStage, item: QueuedDeploy) -> bool {
    match stage {
        ProcessStage::Storing { detail } => detail_consistent(detail, item) && detail.success,
        _ => true,
    }
}

/// The queue entry of `item` is marked completed only with a successful
/// detail, and failed only with a failed detail that carries the same
/// error; either way the processing is finished in `next`.
pub open spec fn action_reports(action: ProcessAction, next: ProcessStage, item: QueuedDeploy) -> bool {
    match action {
        ProcessAction::Complete { detail } => detail_consistent(detail, item) && detail.success && next is Finished,
        ProcessAction::Fail { error, detail } => {
            &&& detail_consistent(detail, item)
            &&& !detail.success
            &&& detail.error matches Some(e) && e@ == error@
            &&& next is Finished
        },
        _ => true,
    }
}

proof fn lemma_process_step_reports(
    item: QueuedDeploy,
    stage: ProcessStage,
    event: ProcessEvent,
    keep_searched: bool,
    next: ProcessStage,
    action: ProcessAction,
)
    requires
        stage_reports(stage, item),
        process_moved(item, stage, event, keep_searched, next, action),
    ensures
        stage_reports(next, item),
        action_reports(action, next, item),
{
}

/// Over a whole processing run from the start, whatever was learned at
/// each step: every detail reported is about the item, succeeds exactly
/// when it carries no error and names a cache slot exactly when a stored
/// state was the starting point; the queue entry is marked completed only
/// on success and failed only with the reported error, and the run is
/// finished once either is done.
pub proof fn lemma_process_run(
    item: QueuedDeploy,
    stages: Seq<ProcessStage>,
    events: Seq<ProcessEvent>,
    actions: Seq<ProcessAction>,
    keep_searched: bool,
)
    requires
        stages.len() == events.len() + 1,
        actions.len() == events.len(),
        stages[0] is Start,
        forall|i: int| #![trigger events[i]] 0 <= i < events.len()
            ==> process_moved(item, stages[i], events[i], keep_searched, stages[i + 1], actions[i]),
    ensures
        forall|i: int| #![trigger actions[i]] 0 <= i < actions.len() ==> action_reports(actions[i], stages[i + 1], item),
        forall|i: int| 0 <= i < stages.len() ==> stage_reports(#[trigger] stages[i], item),
{
    assert forall|i: int| 0 <= i < stages.len() implies stage_reports(#[trigger] stages[i], item) by {
        lemma_process_prefix(item, stages, events, actions, keep_searched, i);
    }
    assert forall|i: int| #![trigger actions[i]] 0 <= i < actions.len() implies action_reports(actions[i], stages[i + 1], item) by {
        lemma_process_prefix(item, stages, events, actions, keep_searched, i);
        assert(process_moved(item, stages[i], events[i], keep_searched, stages[i + 1], actions[i]));
        lemma_process_step_reports(item, stages[i], events[i], keep_searched, stages[i + 1], actions[i]);
    }
}

proof fn lemma_process_prefix(
    item: QueuedDeploy,
    stages: Seq<ProcessStage>,
    events: Seq<ProcessEvent>,
    actions: Seq<ProcessAction>,
    keep_searched: bool,
    n: int,
)
    requires
        stages.len() == events.len() + 1,
        actions.len() == events.len(),
        stages[0] is Start,
        forall|i: int| #![trigger events[i]] 0 <= i < events.len()
            ==> process_moved(item, stages[i], events[i], keep_searched, stages[i + 1], actions[i]),
        0 <= n < stages.len(),
    ensures
        stage_reports(stages[n], item),
    decreases n,
{
    if n > 0 {
        lemma_process_prefix(item, stages, events, actions, keep_searched, n - 1);
        assert(process_moved(item, stages[n - 1], events[n - 1], keep_searched, stages[n], actions[n - 1]));
        lemma_process_step_reports(item, stages[n - 1], events[n - 1], keep_searched, stages[n], actions[n - 1]);
    }
}

/// Filter of the automation queue listing.
#[derive(Debug)]
pub struct AutomationQueueQuery {
    pub status: Option<String>,
    pub round_id: Option<u64>,
    pub authority: Option<String>,
    pub page: Option<u32>,
    pub limit: Option<u32>,
}

/// Request to queue a deployment.
#[derive(Debug)]
pub struct AddToQueueRequest {
    pub round_id: u64,
    pub miner_pubkey: String,
    pub authority_pubkey: String,
    pub deploy_signature: String,
    pub deploy_ix_index: Option<u8>,
    pub deploy_slot: u64,
    pub priority: Option<i32>,
}

/// Answer to queueing deployments.
#[derive(Debug)]
pub struct AddToQueueResponse {
    pub queued: u32,
    pub already_exists: u32,
    pub errors: Vec<String>,
}

/// Answer to processing queued deployments.
#[derive(Debug)]
pub struct ProcessResultResponse {
    pub processed: u32,
    pub success: u32,
    pub failed: u32,
    pub details: Vec<ProcessDetail>,
}

/// Counts of successes and failures among processing details.
pub open spec fn success_count(details: Seq<ProcessDetail>) -> int
    decreases details.len(),
{
    if details.len() == 0 {
        0
    } else {
        success_count(details.drop_last()) + (if details.last().success { 1int } else { 0int })
    }
}

impl ProcessResultResponse {
    /// The answer for these details: how many were processed, succeeded and
    /// failed.
    pub fn from_details(details: Vec<ProcessDetail>) -> (r: Self)
        requires
            details@.len() <= u32::MAX,
        ensures
            r.processed == details@.len(),
            r.success == success_count(details@),
            r.failed == details@.len() - success_count(details@),
            r.details == details,
    {
        let mut success: u32 = 0;
        let mut i: usize = 0;
        while i < details.len()
            invariant
                i <= details@.len(),
                details@.len() <= u32::MAX,
                success == success_count(details@.take(i as int)),
                success <= i,
            decreases details@.len() - i,
        {
            proof {
                assert(details@.take(i + 1).drop_last() =~= details@.take(i as int));
            }
            if details[i].success {
                success = success + 1;
            }
            i = i + 1;
        }
        assert(details@.take(details@.len() as int) =~= details@);
        let processed = details.len() as u32;
        ProcessResultResponse { processed, success, failed: processed - success, details }
    }
}

/// A deployment whose automation state is not known yet.
#[derive(Debug)]
pub struct DeploymentMissingState {
    pub round_id: u64,
    pub miner_pubkey: String,
    pub deploy_slot: u64,
    pub deploy_signature: String,
    pub deploy_ix_index: u8,
}

/// How many queued deployments to process.
#[derive(Debug)]
pub struct ProcessQueueParams {
    pub count: Option<u32>,
}

/// Answer to queueing a round's transactions for parsing.
#[derive(Debug)]
pub struct QueueRoundResponse {
    pub success: bool,
    pub round_id: u64,
    pub status: String,
    pub message: String,
}

/// Counts of the transaction parse queue.
#[derive(Debug)]
pub struct ParseQueueStats {
    pub pending: i64,
    pub processing: i64,
    pub completed: i64,
    pub failed: i64,
}

} // verus!
