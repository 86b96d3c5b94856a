//! Requests and answers of the admin API, with the figures it derives.

use vstd::prelude::*;
use crate::records::{DatabaseSizeRow, DetailedTableSizeRow, RateLimitEventRow, RequestLogRow, RpcErrorRow, RpcRequestRow, WsEventRow};
use crate::reconstruct::BackfillReconstructedRound;
use crate::text::str_equals;

verus! {

broadcast use vstd::string::group_string_axioms;

/// Hours looked back by default.
pub fn default_hours() -> (h: u32)
    ensures
        h == 24,
{
    24
}

/// Rows returned by default.
pub fn default_limit() -> (l: u32)
    ensures
        l == 100,
{
    100
}

/// Days looked back by default.
pub fn default_days() -> (d: u32)
    ensures
        d == 7,
{
    7
}

/// Request logs returned by default.
pub fn default_logs_limit() -> (l: u32)
    ensures
        l == 500,
{
    500
}

/// A plain message.
#[derive(Debug)]
pub struct MessageResponse {
    pub message: String,
}

/// Figures of the running service.
#[derive(Debug)]
pub struct AdminMetricsResponse {
    pub uptime_seconds: u64,
    pub current_slot: u64,
    pub miners_cached: usize,
    pub ore_holders_cached: usize,
    pub pending_round_id: u64,
    pub pending_deployments: usize,
}

/// One blacklisted address.
#[derive(Debug)]
pub struct BlacklistEntryResponse {
    pub ip_address: String,
    pub reason: String,
    pub failed_attempts: i32,
    pub blocked_at: String,
    pub expires_at: Option<String>,
    pub created_by: Option<String>,
}

/// The blacklist.
#[derive(Debug)]
pub struct BlacklistResponse {
    pub entries: Vec<BlacklistEntryResponse>,
    pub total: usize,
}

impl BlacklistResponse {
    /// The blacklist with its size.
    pub fn from_entries(entries: Vec<BlacklistEntryResponse>) -> (r: Self)
        ensures
            r.entries == entries,
            r.total == entries@.len(),
    {
        let total = entries.len();
        BlacklistResponse { entries, total }
    }
}

/// Admin login request.
#[derive(Debug)]
pub struct LoginRequest {
    pub password: String,
}

/// Request to blacklist an address (for a day unless permanent).
#[derive(Debug)]
pub struct BlacklistRequest {
    pub ip: String,
    pub reason: String,
    pub permanent: bool,
}

/// Query of RPC metrics.
#[derive(Debug)]
pub struct RpcMetricsQuery {
    pub hours: u32,
    pub limit: u32,
}

impl RpcMetricsQuery {
    /// The query with nothing given.
    pub fn defaults() -> (q: Self)
        ensures
            q.hours == 24 && q.limit == 100,
    {
        RpcMetricsQuery { hours: default_hours(), limit: default_limit() }
    }
}

/// Query of daily RPC metrics.
#[derive(Debug)]
pub struct RpcDailyQuery {
    pub days: u32,
}

impl RpcDailyQuery {
    /// The query with nothing given.
    pub fn defaults() -> (q: Self)
        ensures
            q.days == 7,
    {
        RpcDailyQuery { days: default_days() }
    }
}

/// Failed RPC requests.
#[derive(Debug)]
pub struct RpcErrorsResponse {
    pub hours: u32,
    pub limit: u32,
    pub errors: Vec<RpcErrorRow>,
}

/// Recorded RPC requests.
#[derive(Debug)]
pub struct RpcRequestsResponse {
    pub hours: u32,
    pub limit: u32,
    pub requests: Vec<RpcRequestRow>,
}

/// Websocket events.
#[derive(Debug)]
pub struct WsEventsResponse {
    pub hours: u32,
    pub events: Vec<WsEventRow>,
}

/// HTTP request logs.
#[derive(Debug)]
pub struct RequestLogsResponse {
    pub hours: u32,
    pub logs: Vec<RequestLogRow>,
}

/// Rate limit events.
#[derive(Debug)]
pub struct RateLimitEventsResponse {
    pub hours: u32,
    pub events: Vec<RateLimitEventRow>,
}

/// Query of request logs.
#[derive(Debug)]
pub struct RequestLogsQuery {
    pub hours: u32,
    pub limit: u32,
    pub ip_hash: Option<String>,
    pub endpoint: Option<String>,
    pub status_code: Option<u16>,
    pub status_gte: Option<u16>,
    pub status_lte: Option<u16>,
}

/// Request to queue an action for a range of rounds.
#[derive(Debug)]
pub struct BulkEnqueueRequest {
    pub start_round: u64,
    pub end_round: u64,
    pub action: String,
    pub skip_if_done: bool,
    pub only_in_workflow: bool,
}

/// Answer to queueing actions.
#[derive(Debug)]
pub struct BulkEnqueueResponse {
    pub queued: u64,
    pub skipped: u64,
    pub message: String,
}

/// Request to verify rounds, listed or as a range.
#[derive(Debug)]
pub struct BulkVerifyRequest {
    pub round_ids: Vec<u64>,
    pub start_round: Option<u64>,
    pub end_round: Option<u64>,
}

/// Answer to verifying rounds.
#[derive(Debug)]
pub struct BulkVerifyResponse {
    pub verified: u64,
    pub message: String,
}

/// Request to add a range of rounds to the workflow.
#[derive(Debug)]
pub struct AddRangeToBackfillRequest {
    pub start_round: u64,
    pub end_round: u64,
}

/// Answer to adding a range of rounds to the workflow.
#[derive(Debug)]
pub struct AddRangeToBackfillResponse {
    pub added: u64,
    pub already_in_workflow: u64,
    pub message: String,
}

/// How many rounds are at each step of the backfill workflow.
#[derive(Debug)]
pub struct PipelineStatsResponse {
    /// Rounds with invalid deployments that are not in the workflow.
    pub not_in_workflow: u64,
    /// In the workflow, transactions not fetched.
    pub pending_txns: u64,
    /// Transactions fetched, not rebuilt.
    pub pending_reconstruct: u64,
    /// Rebuilt and held in memory.
    pub pending_verify: u64,
    /// Always zero: finalizing happens as soon as it is asked.
    pub pending_finalize: u64,
    pub complete: u64,
}

/// The counts of the workflow: rounds waiting to be rebuilt are those whose
/// transactions were fetched, less the finalized ones and those held in
/// memory (never below zero).
pub fn pipeline_stats(
    not_in_workflow: u64,
    pending_txns: u64,
    txns_fetched_count: u64,
    finalized_count: u64,
    in_memory: u64,
) -> (r: PipelineStatsResponse)
    ensures
        r.not_in_workflow == not_in_workflow,
        r.pending_txns == pending_txns,
        r.pending_reconstruct == (if txns_fetched_count >= finalized_count + in_memory {
            (txns_fetched_count - finalized_count - in_memory) as u64
        } else {
            0u64
        }),
        r.pending_verify == in_memory,
        r.pending_finalize == 0,
        r.complete == finalized_count,
{
    let pending_reconstruct = txns_fetched_count.saturating_sub(finalized_count).saturating_sub(in_memory);
    PipelineStatsResponse {
        not_in_workflow,
        pending_txns,
        pending_reconstruct,
        pending_verify: in_memory,
        pending_finalize: 0,
        complete: finalized_count,
    }
}

/// Memory used by the process.
#[derive(Debug)]
pub struct MemoryUsageResponse {
    pub memory_bytes: u64,
    pub memory_human: String,
    pub queue_cache_items: u64,
}

/// Query of rounds with missing deployments.
#[derive(Debug)]
pub struct InvalidRoundsQuery {
    pub limit: u32,
    pub offset: u32,
}

/// Rounds with missing deployments.
#[derive(Debug)]
pub struct InvalidRoundsResponse {
    pub rounds: Vec<InvalidRound>,
    pub total: u64,
}

/// A round with missing deployments.
#[derive(Debug)]
pub struct InvalidRound {
    pub round_id: u64,
    pub deployment_count: i64,
    pub in_workflow: bool,
}

/// Rebuilt rounds held in memory.
#[derive(Debug)]
pub struct ReconstructedRoundsResponse {
    pub count: usize,
    pub rounds: Vec<ReconstructedRoundInfo>,
}

/// A rebuilt round held in memory.
#[derive(Debug)]
pub struct ReconstructedRoundInfo {
    pub round_id: u64,
    pub deployment_count: usize,
    pub transaction_count: usize,
    pub reconstructed_at: String,
}

impl ReconstructedRoundInfo {
    /// What is shown of a rebuilt round; `reconstructed_at` is its rebuild
    /// time as text.
    pub fn of(round: &BackfillReconstructedRound, reconstructed_at: String) -> (r: Self)
        ensures
            r.round_id == round.round_id,
            r.deployment_count == round.deployments@.len(),
            r.transaction_count == round.transaction_count,
            r.reconstructed_at == reconstructed_at,
    {
        ReconstructedRoundInfo {
            round_id: round.round_id,
            deployment_count: round.deployments.len(),
            transaction_count: round.transaction_count,
            reconstructed_at,
        }
    }
}

/// The integer totals of the storage report.
#[derive(Debug)]
pub struct StorageTotals {
    /// ClickHouse bytes on disk plus the PostgreSQL database size.
    pub total_bytes: u64,
    /// ClickHouse rows plus PostgreSQL live rows.
    pub total_rows: u64,
    pub clickhouse_bytes: u64,
    pub clickhouse_bytes_uncompressed: u64,
    pub clickhouse_rows: u64,
    pub postgres_bytes: i64,
    pub postgres_rows: i64,
}

/// Sum of a sequence of integers.
pub open spec fn sum_of(s: Seq<int>) -> int
    decreases s.len(),
{
    if s.len() == 0 {
        0
    } else {
        sum_of(s.drop_last()) + s.last()
    }
}

/// Bytes on disk of each ClickHouse database.
pub open spec fn database_bytes(d: Seq<DatabaseSizeRow>) -> Seq<int> {
    d.map_values(|r: DatabaseSizeRow| r.bytes_on_disk as int)
}

/// Rows of each ClickHouse database.
pub open spec fn database_rows(d: Seq<DatabaseSizeRow>) -> Seq<int> {
    d.map_values(|r: DatabaseSizeRow| r.total_rows as int)
}

/// Uncompressed bytes of each ClickHouse table.
pub open spec fn table_uncompressed(t: Seq<DetailedTableSizeRow>) -> Seq<int> {
    t.map_values(|r: DetailedTableSizeRow| r.bytes_uncompressed as int)
}

/// Integers as the sequence of their values.
pub open spec fn i64_values(v: Seq<i64>) -> Seq<int> {
    v.map_values(|x: i64| x as int)
}

proof fn lemma_sum_step(s: Seq<int>, i: int)
    requires
        0 <= i < s.len(),
    ensures
        sum_of(s.take(i + 1)) == sum_of(s.take(i)) + s[i],
{
    assert(s.take(i + 1).drop_last() =~= s.take(i));
}

proof fn lemma_sum_nonneg_prefix(s: Seq<int>, i: int)
    requires
        0 <= i <= s.len(),
        forall|k: int| 0 <= k < s.len() ==> s[k] >= 0,
    ensures
        0 <= sum_of(s.take(i)) <= sum_of(s),
    decreases s.len() - i,
{
    if i < s.len() {
        lemma_sum_nonneg_prefix(s, i + 1);
        lemma_sum_step(s, i);
    } else {
        assert(s.take(i) =~= s);
    }
    lemma_sum_nonneg(s.take(i));
}

proof fn lemma_sum_nonneg(s: Seq<int>)
    requires
        forall|k: int| 0 <= k < s.len() ==> s[k] >= 0,
    ensures
        sum_of(s) >= 0,
    decreases s.len(),
{
    if s.len() > 0 {
        lemma_sum_nonneg(s.drop_last());
    }
}

/// Sum of the rows (`rows`) or of the bytes on disk over the databases.
fn sum_databases(d: &Vec<DatabaseSizeRow>, rows: bool) -> (t: u64)
    requires
        sum_of(database_bytes(d@)) <= u64::MAX,
        sum_of(database_rows(d@)) <= u64::MAX,
    ensures
        t == (if rows { sum_of(database_rows(d@)) } else { sum_of(database_bytes(d@)) }),
{
    let ghost s = if rows { database_rows(d@) } else { database_bytes(d@) };
    let mut t: u64 = 0;
    let mut i: usize = 0;
    while i < d.len()
        invariant
            i <= d@.len(),
            s.len() == d@.len(),
            s == (if rows { database_rows(d@) } else { database_bytes(d@) }),
            sum_of(s) <= u64::MAX,
            t == sum_of(s.take(i as int)),
        decreases d@.len() - i,
    {
        proof {
            lemma_sum_step(s, i as int);
            lemma_sum_nonneg_prefix(s, i + 1);
        }
        let v = if rows { d[i].total_rows } else { d[i].bytes_on_disk };
        t = t + v;
        i = i + 1;
    }
    assert(s.take(s.len() as int) =~= s);
    t
}

/// The integer totals of the storage report: ClickHouse bytes and rows
/// summed over its databases, uncompressed bytes summed over its tables,
/// PostgreSQL rows summed over its tables, and the overall sums (the
/// PostgreSQL figures taken as unsigned).
pub fn storage_totals(
    databases: &Vec<DatabaseSizeRow>,
    tables: &Vec<DetailedTableSizeRow>,
    postgres_bytes: i64,
    postgres_table_rows: &Vec<i64>,
) -> (r: StorageTotals)
    requires
        sum_of(database_bytes(databases@)) + (postgres_bytes as u64) <= u64::MAX,
        sum_of(database_rows(databases@)) <= u64::MAX,
        sum_of(table_uncompressed(tables@)) <= u64::MAX,
        forall|i: int| 0 <= i <= postgres_table_rows@.len() ==> i64::MIN <= #[trigger] sum_of(
            i64_values(postgres_table_rows@).take(i)) <= i64::MAX,
        sum_of(database_rows(databases@)) + (sum_of(i64_values(postgres_table_rows@)) as i64 as u64) <= u64::MAX,
    ensures
        r.clickhouse_bytes == sum_of(database_bytes(databases@)),
        r.clickhouse_rows == sum_of(database_rows(databases@)),
        r.clickhouse_bytes_uncompressed == sum_of(table_uncompressed(tables@)),
        r.postgres_bytes == postgres_bytes,
        r.postgres_rows == sum_of(i64_values(postgres_table_rows@)),
        r.total_bytes == r.clickhouse_bytes + (postgres_bytes as u64),
        r.total_rows == r.clickhouse_rows + (r.postgres_rows as u64),
{
    proof {
        lemma_sum_nonneg(database_bytes(databases@));
    }
    let ch_bytes = sum_databases(databases, false);
    let ch_rows = sum_databases(databases, true);
    let ghost ts = table_uncompressed(tables@);
    let mut uncompressed: u64 = 0;
    let mut i: usize = 0;
    while i < tables.len()
        invariant
            i <= tables@.len(),
            ts == table_uncompressed(tables@),
            sum_of(ts) <= u64::MAX,
            uncompressed == sum_of(ts.take(i as int)),
        decreases tables@.len() - i,
    {
        proof {
            lemma_sum_step(ts, i as int);
            lemma_sum_nonneg_prefix(ts, i + 1);
        }
        uncompressed = uncompressed + tables[i].bytes_uncompressed;
        i = i + 1;
    }
    assert(ts.take(ts.len() as int) =~= ts);
    let ghost ps = i64_values(postgres_table_rows@);
    let mut pg_rows: i64 = 0;
    let mut j: usize = 0;
    assert(ps.take(0) =~= Seq::<int>::empty());
    while j < postgres_table_rows.len()
        invariant
            j <= postgres_table_rows@.len(),
            ps == i64_values(postgres_table_rows@),
            forall|i: int| 0 <= i <= postgres_table_rows@.len() ==> i64::MIN <= #[trigger] sum_of(ps.take(i)) <= i64::MAX,
            pg_rows == sum_of(ps.take(j as int)),
        decreases postgres_table_rows@.len() - j,
    {
        proof {
            lemma_sum_step(ps, j as int);
            assert(sum_of(ps.take(j + 1)) <= i64::MAX);
        }
        pg_rows = pg_rows + postgres_table_rows[j];
        j = j + 1;
    }
    assert(ps.take(ps.len() as int) =~= ps);
    StorageTotals {
        total_bytes: ch_bytes + postgres_bytes as u64,
        total_rows: ch_rows + pg_rows as u64,
        clickhouse_bytes: ch_bytes,
        clickhouse_bytes_uncompressed: uncompressed,
        clickhouse_rows: ch_rows,
        postgres_bytes,
        postgres_rows: pg_rows,
    }
}

/// An action of the backfill queue.
#[derive(Debug, Clone, Copy, PartialEq, Eq, Structural)]
pub enum BackfillAction {
    FetchTxns,
    Reconstruct,
    Finalize,
}

/// The action a name denotes: `fetch_txns`, `reconstruct` or `finalize`.
pub open spec fn action_named(name: Seq<char>) -> Option<BackfillAction> {
    if name == "fetch_txns"@ {
        Some(BackfillAction::FetchTxns)
    } else if name == "reconstruct"@ {
        Some(BackfillAction::Reconstruct)
    } else if name == "finalize"@ {
        Some(BackfillAction::Finalize)
    } else {
        None
    }
}

/// The action named `name`, if it is one of the queue's actions.
pub fn parse_backfill_action(name: &str) -> (r: Option<BackfillAction>)
    ensures
        r == action_named(name@),
{
    if str_equals(name, "fetch_txns") {
        Some(BackfillAction::FetchTxns)
    } else if str_equals(name, "reconstruct") {
        Some(BackfillAction::Reconstruct)
    } else if str_equals(name, "finalize") {
        Some(BackfillAction::Finalize)
    } else {
        None
    }
}

/// The error answer to a request naming no queue action.
pub fn invalid_action_message(action: &str) -> (m: String)
    ensures
        m@ == "Invalid action: "@ + action@ + ". Valid: [\"fetch_txns\", \"reconstruct\", \"finalize\"]"@,
{
    let mut m = "Invalid action: ".to_owned();
    m.append(action);
    m.append(". Valid: [\"fetch_txns\", \"reconstruct\", \"finalize\"]");
    m
}

/// The error of a queued item whose action is none of the queue's.
pub fn unknown_action_message(action: &str) -> (m: String)
    ensures
        m@ == "Unknown action: "@ + action@,
{
    let mut m = "Unknown action: ".to_owned();
    m.append(action);
    m
}

} // verus!
