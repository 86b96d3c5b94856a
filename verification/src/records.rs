//! Rows written to and read from the analytics store, with the builders
//! that fill them.

use vstd::prelude::*;

verus! {

broadcast use vstd::string::group_string_axioms;

/// Request log entry for an HTTP request.
#[derive(Debug)]
pub struct RequestLog {
    pub endpoint: String,
    pub method: String,
    pub status_code: u16,
    pub duration_ms: u32,
    pub ip_hash: String,
    pub user_agent: String,
}

/// A finalized round, from live tracking or from the external rounds API.
#[derive(Debug)]
pub struct RoundInsert {
    pub round_id: u64,
    pub expires_at: u64,
    pub start_slot: u64,
    pub end_slot: u64,
    pub slot_hash: [u8; 32],
    pub winning_square: u8,
    pub rent_payer: String,
    pub top_miner: String,
    pub top_miner_reward: u64,
    pub total_deployed: u64,
    pub total_vaulted: u64,
    pub total_winnings: u64,
    pub motherlode: u64,
    pub motherlode_hit: u8,
    pub total_deployments: u32,
    pub unique_miners: u32,
    /// `live` or `backfill`.
    pub source: String,
}

/// Slots in roughly 24 hours at 400 ms per slot.
pub const SLOTS_PER_DAY: u64 = 216000;

/// One ORE in atomic units: the top-miner reward assumed for backfilled rounds.
pub const ONE_ORE: u64 = 100_000_000_000;

/// The source label of rounds that no source column names.
pub fn default_source() -> (s: String)
    ensures
        s@ == "live"@,
{
    "live".to_owned()
}

impl RoundInsert {
    /// A round from the external rounds API, with defaults for what that API
    /// does not carry: zero slot hash, no rent payer, a top-miner reward of
    /// one ORE, an expiry a day of slots after the end slot.
    pub fn from_backfill(
        round_id: u64,
        start_slot: u64,
        end_slot: u64,
        winning_square: u8,
        top_miner: String,
        total_deployed: u64,
        total_vaulted: u64,
        total_winnings: u64,
        motherlode: u64,
        unique_miners: u32,
        _timestamp_secs: u64,
    ) -> (r: Self)
        ensures
            r.round_id == round_id,
            r.expires_at == (if end_slot + SLOTS_PER_DAY > u64::MAX { u64::MAX } else {
                (end_slot + SLOTS_PER_DAY) as u64
            }),
            r.start_slot == start_slot,
            r.end_slot == end_slot,
            r.slot_hash@ == Seq::new(32, |i: int| 0u8),
            r.winning_square == winning_square,
            r.rent_payer@ == Seq::<char>::empty(),
            r.top_miner == top_miner,
            r.top_miner_reward == ONE_ORE,
            r.total_deployed == total_deployed,
            r.total_vaulted == total_vaulted,
            r.total_winnings == total_winnings,
            r.motherlode == motherlode,
            r.motherlode_hit == (if motherlode > 0 { 1u8 } else { 0u8 }),
            r.total_deployments == 0,
            r.unique_miners == unique_miners,
            r.source@ == "backfill"@,
    {
        let expires_at = end_slot.saturating_add(SLOTS_PER_DAY);
        let r = RoundInsert {
            round_id,
            expires_at,
            start_slot,
            end_slot,
            slot_hash: [0u8; 32],
            winning_square,
            rent_payer: String::new(),
            top_miner,
            top_miner_reward: ONE_ORE,
            total_deployed,
            total_vaulted,
            total_winnings,
            motherlode,
            motherlode_hit: if motherlode > 0 { 1 } else { 0 },
            total_deployments: 0,
            unique_miners,
            source: "backfill".to_owned(),
        };
        assert(r.slot_hash@ =~= Seq::new(32, |i: int| 0u8));
        r
    }
}

/// One miner's stake on one square of a round.
#[derive(Debug)]
pub struct DeploymentInsert {
    pub round_id: u64,
    pub miner_pubkey: String,
    pub square_id: u8,
    pub amount: u64,
    /// Zero when the slot is unknown.
    pub deployed_slot: u64,
    pub ore_earned: u64,
    pub sol_earned: u64,
    pub is_winner: u8,
    pub is_top_miner: u8,
}

/// A stored round.
#[derive(Debug)]
pub struct RoundRow {
    pub round_id: u64,
    pub start_slot: u64,
    pub end_slot: u64,
    pub winning_square: u8,
    pub top_miner: String,
    pub top_miner_reward: u64,
    pub total_deployed: u64,
    pub total_vaulted: u64,
    pub total_winnings: u64,
    pub motherlode: u64,
    pub motherlode_hit: u8,
    pub total_deployments: u32,
    pub unique_miners: u32,
    pub source: String,
    /// Milliseconds since the epoch.
    pub created_at: i64,
}

/// A stored deployment.
#[derive(Debug)]
pub struct DeploymentRow {
    pub round_id: u64,
    pub miner_pubkey: String,
    pub square_id: u8,
    pub amount: u64,
    pub deployed_slot: u64,
    pub sol_earned: u64,
    pub ore_earned: u64,
    pub is_winner: u8,
    pub is_top_miner: u8,
}

/// Treasury state at the end of a round.
#[derive(Debug)]
pub struct TreasurySnapshot {
    pub balance: u64,
    pub motherlode: u64,
    pub total_staked: u64,
    pub total_unclaimed: u64,
    pub total_refined: u64,
    pub round_id: u64,
}

/// A miner's balances at the end of a round.
#[derive(Debug)]
pub struct MinerSnapshot {
    pub round_id: u64,
    pub miner_pubkey: String,
    pub unclaimed_ore: u64,
    pub refined_ore: u64,
    pub lifetime_sol: u64,
    pub lifetime_ore: u64,
}

/// ORE mint supply at the end of a round.
#[derive(Debug)]
pub struct MintSnapshot {
    pub round_id: u64,
    pub supply: u64,
    pub decimals: u8,
    /// Change since the previous snapshot (zero for the first one).
    pub supply_change: i64,
}

/// Rate limit event for admin monitoring.
#[derive(Debug)]
pub struct RateLimitEvent {
    pub ip_hash: String,
    pub endpoint: String,
    pub requests_in_window: u32,
    pub window_seconds: u16,
}

/// A raw transaction kept for historical rebuilds.
#[derive(Debug)]
pub struct RawTransaction {
    pub signature: String,
    pub slot: u64,
    pub block_time: i64,
    pub round_id: u64,
    pub tx_type: String,
    pub raw_json: String,
    pub signer: String,
    pub authority: String,
}

/// Automation state snapshot.
#[derive(Debug)]
pub struct AutomationStateInsert {
    pub authority: String,
    pub round_id: u64,
    pub active: u8,
    pub executor: String,
    pub amount: u64,
    pub fee: u64,
    pub strategy: u8,
    pub mask: u64,
    pub last_updated_slot: u64,
}

/// A failed RPC request.
#[derive(Debug)]
pub struct RpcErrorRow {
    pub timestamp: i64,
    pub program: String,
    pub provider: String,
    pub method: String,
    pub target_type: String,
    pub target_address: String,
    pub status: String,
    pub error_code: String,
    pub error_message: String,
    pub duration_ms: u32,
}

/// A recorded RPC request.
#[derive(Debug)]
pub struct RpcRequestRow {
    pub timestamp: i64,
    pub program: String,
    pub provider: String,
    pub method: String,
    pub target_type: String,
    pub target_address: String,
    pub is_batch: u8,
    pub batch_size: u16,
    pub status: String,
    pub error_code: String,
    pub error_message: String,
    pub result_count: u32,
    pub filters_json: String,
    pub duration_ms: u32,
    pub request_size: u32,
    pub response_size: u32,
}

/// A websocket connection event.
#[derive(Debug)]
pub struct WsEventInsert {
    pub program: String,
    pub provider: String,
    pub subscription_type: String,
    pub subscription_key: String,
    pub event: String,
    pub error_message: String,
    pub disconnect_reason: String,
    pub uptime_seconds: u32,
    pub messages_received: u64,
    pub reconnect_count: u16,
}

/// A websocket throughput sample.
#[derive(Debug)]
pub struct WsThroughputInsert {
    pub program: String,
    pub provider: String,
    pub subscription_type: String,
    pub messages_received: u32,
    pub bytes_received: u64,
    pub avg_process_time_us: u32,
}

/// A stored websocket event.
#[derive(Debug)]
pub struct WsEventRow {
    pub timestamp: i64,
    pub program: String,
    pub provider: String,
    pub subscription_type: String,
    pub subscription_key: String,
    pub event: String,
    pub error_message: String,
    pub disconnect_reason: String,
    pub uptime_seconds: u32,
    pub messages_received: u64,
    pub reconnect_count: u16,
}

/// A stored HTTP request log.
#[derive(Debug)]
pub struct RequestLogRow {
    pub timestamp: i64,
    pub endpoint: String,
    pub method: String,
    pub status_code: u16,
    pub duration_ms: u32,
    pub ip_hash: String,
    pub user_agent: String,
}

/// A stored rate limit event.
#[derive(Debug)]
pub struct RateLimitEventRow {
    pub timestamp: i64,
    pub ip_hash: String,
    pub endpoint: String,
    pub requests_in_window: u32,
    pub window_seconds: u16,
}

/// Storage used by one database.
#[derive(Debug)]
pub struct DatabaseSizeRow {
    pub database: String,
    pub bytes_on_disk: u64,
    pub total_rows: u64,
    pub table_count: u64,
}

/// Storage used by one table.
#[derive(Debug)]
pub struct TableSizeRow {
    pub table: String,
    pub bytes_on_disk: u64,
    pub total_rows: u64,
    pub parts_count: u64,
}

/// Storage used by one table, in detail.
#[derive(Debug)]
pub struct DetailedTableSizeRow {
    pub database: String,
    pub table: String,
    pub bytes_on_disk: u64,
    pub bytes_uncompressed: u64,
    pub total_rows: u64,
    pub parts_count: u64,
    pub last_modified: u32,
}

/// The engine and keys of one table.
#[derive(Debug)]
pub struct TableEngineRow {
    pub database: String,
    pub table: String,
    pub engine: String,
    pub partition_key: String,
    pub sorting_key: String,
    pub primary_key: String,
}

/// A stored round with its creation time.
#[derive(Debug)]
pub struct RoundRowWithTimestamp {
    pub round_id: u64,
    pub start_slot: u64,
    pub end_slot: u64,
    pub winning_square: u8,
    pub top_miner: String,
    pub total_deployed: u64,
    pub total_winnings: u64,
    pub unique_miners: u32,
    pub motherlode: u64,
    pub motherlode_hit: u8,
    pub created_at: i64,
}

/// Aggregated results of one miner.
#[derive(Debug)]
pub struct MinerStatsRow {
    pub miner_pubkey: String,
    pub total_deployed: u64,
    pub total_sol_earned: u64,
    pub total_ore_earned: u64,
    pub net_sol_change: i64,
    pub rounds_played: u64,
    pub rounds_won: u64,
}

/// One leaderboard entry.
#[derive(Debug)]
pub struct LeaderboardRow {
    pub miner_pubkey: String,
    pub value: i64,
    pub rounds_played: u64,
}

/// A stored treasury snapshot.
#[derive(Debug)]
pub struct TreasurySnapshotRow {
    pub round_id: u64,
    pub balance: u64,
    pub motherlode: u64,
    pub total_staked: u64,
    pub total_unclaimed: u64,
    pub total_refined: u64,
    pub created_at: i64,
}

} // verus!
