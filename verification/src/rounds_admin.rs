//! The admin views of stored rounds: validation of a round's deployments
//! against its total, pagination, and the requests and answers of the
//! backfill workflow.

use vstd::prelude::*;
use crate::records::RoundRow;

verus! {

broadcast use vstd::string::group_string_axioms;

/// Whether a stored round's deployments add up.
#[derive(Debug)]
pub struct RoundDataStatus {
    pub round_id: u64,
    pub round_exists: bool,
    pub deployment_count: u64,
    pub deployments_sum: u64,
    pub total_deployed: u64,
    pub is_valid: bool,
    /// Round total minus the sum of its deployments.
    pub discrepancy: i64,
}

/// A stored round with the figures of its deployments.
#[derive(Debug)]
pub struct RoundWithData {
    pub round_id: u64,
    pub start_slot: u64,
    pub end_slot: u64,
    pub winning_square: u8,
    pub top_miner: String,
    pub total_deployed: u64,
    pub total_winnings: u64,
    pub unique_miners: u32,
    pub motherlode: u64,
    pub deployment_count: u64,
    pub source: String,
    /// Sum of the stored deployment amounts.
    pub deployments_sum: u64,
    /// Whether the deployments add up to the round total.
    pub is_valid: bool,
    /// Round total minus the sum of its deployments.
    pub discrepancy: i64,
}

/// A page of stored rounds with their deployment figures.
#[derive(Debug)]
pub struct RoundsWithDataResponse {
    pub rounds: Vec<RoundWithData>,
    pub total: u32,
    pub has_more: bool,
    pub next_cursor: Option<u64>,
    pub page: Option<u32>,
}

/// Query of the stored rounds view.
#[derive(Debug)]
pub struct RoundsWithDataQuery {
    pub limit: Option<u32>,
    pub page: Option<u32>,
    pub before: Option<u64>,
    pub round_id_gte: Option<u64>,
    pub round_id_lte: Option<u64>,
    /// `all`, `missing_deployments` or `invalid_deployments`.
    pub filter_mode: Option<String>,
}

/// A page of round ids missing from storage.
#[derive(Debug)]
pub struct MissingRoundsResponse {
    pub missing_round_ids: Vec<u64>,
    pub total: u32,
    pub has_more: bool,
    pub next_cursor: Option<u64>,
    pub page: Option<u32>,
    pub min_stored_round: u64,
    pub max_stored_round: u64,
}

/// Counts for each filter of the stored rounds view.
#[derive(Debug)]
pub struct RoundStatsResponse {
    pub total_rounds: u64,
    pub missing_deployments_count: u64,
    pub invalid_deployments_count: u64,
    pub missing_rounds_count: u64,
    pub min_stored_round: u64,
    pub max_stored_round: u64,
}

/// An error answer.
#[derive(Debug)]
pub struct ErrorResponse {
    pub error: String,
}

/// Answer to starting a rounds backfill.
#[derive(Debug)]
pub struct BackfillStartResponse {
    pub message: String,
    pub stop_at_round: u64,
    pub max_pages: u32,
}

/// Answer of a rounds backfill.
#[derive(Debug)]
pub struct BackfillRoundsResponse {
    pub rounds_fetched: u32,
    pub rounds_skipped: u32,
    pub rounds_missing_deployments: u32,
    pub stopped_at_round: Option<u64>,
}

/// Query of a rounds backfill.
#[derive(Debug)]
pub struct BackfillRoundsQuery {
    pub stop_at_round: Option<u64>,
    pub max_pages: Option<u32>,
}

/// Progress of one round through the backfill workflow.
#[derive(Debug)]
pub struct RoundStatus {
    pub round_id: i64,
    pub meta_fetched: bool,
    pub transactions_fetched: bool,
    pub reconstructed: bool,
    pub verified: bool,
    pub finalized: bool,
    pub transaction_count: i32,
    pub deployment_count: i32,
    pub verification_notes: String,
}

/// Rounds still in the workflow.
#[derive(Debug)]
pub struct PendingRoundsResponse {
    pub pending: Vec<RoundStatus>,
    pub total: u32,
}

/// Answer to fetching a round's transactions.
#[derive(Debug)]
pub struct FetchTxnsResponse {
    pub round_id: u64,
    pub transactions_fetched: u32,
    pub status: String,
}

/// Answer to rebuilding a round.
#[derive(Debug)]
pub struct ReconstructResponse {
    pub round_id: u64,
    pub deployments_reconstructed: u32,
    pub status: String,
}

/// Request to mark a round verified.
#[derive(Debug)]
pub struct VerifyRequest {
    pub notes: Option<String>,
}

/// Answer to marking a round verified.
#[derive(Debug)]
pub struct VerifyResponse {
    pub round_id: u64,
    pub verified: bool,
    pub message: String,
}

/// Answer to finalizing a rebuilt round.
#[derive(Debug)]
pub struct FinalizeResponse {
    pub round_id: u64,
    pub deployments_stored: u32,
    pub message: String,
}

/// Answer to deleting a round's data.
#[derive(Debug)]
pub struct DeleteResponse {
    pub round_id: u64,
    pub round_deleted: bool,
    pub deployments_deleted: bool,
    pub message: String,
}

/// What to delete of a round.
#[derive(Debug)]
pub struct DeleteQuery {
    pub delete_round: Option<bool>,
    pub delete_deployments: Option<bool>,
}

/// Request to delete several rounds.
#[derive(Debug)]
pub struct BulkDeleteRequest {
    pub round_ids: Vec<u64>,
    pub delete_rounds: bool,
    pub delete_deployments: bool,
}

/// Answer to deleting several rounds.
#[derive(Debug)]
pub struct BulkDeleteResponse {
    pub deleted_count: u32,
    pub failed_count: u32,
    pub message: String,
}

/// Request to add rounds to the workflow.
#[derive(Debug)]
pub struct AddToBackfillRequest {
    pub round_ids: Vec<u64>,
}

/// Answer to adding rounds to the workflow.
#[derive(Debug)]
pub struct AddToBackfillResponse {
    pub added: u32,
    pub already_pending: u32,
    pub message: String,
}

/// Answer to rebuilding a round's deployments.
#[derive(Debug)]
pub struct BackfillDeploymentsResponse {
    pub round_id: u64,
    pub transactions_fetched: u32,
    pub deployments_found: u32,
    pub deployments_stored: u32,
    pub status: String,
    pub error: Option<String>,
}

/// Answer to resetting a round's transaction status.
#[derive(Debug)]
pub struct ResetTxnsResponse {
    pub round_id: u64,
    pub message: String,
}

/// Rounds per page of the stored rounds view: 50 by default, at most 200.
pub fn rounds_page_limit(limit: Option<u32>) -> (l: u32)
    ensures
        l == match limit {
            None => 50u32,
            Some(v) => if v < 200 { v } else { 200u32 },
        },
{
    match limit {
        None => 50,
        Some(v) => if v < 200 { v } else { 200 },
    }
}

/// The offset of 1-based page `page` (page 0 counts as page 1).
pub open spec fn page_offset_spec(page: u32, limit: u32) -> int {
    ((if page < 1 { 1 } else { page }) - 1) * limit
}

/// The row offset of a 1-based page.
pub fn page_offset(page: u32, limit: u32) -> (o: u32)
    requires
        page_offset_spec(page, limit) <= u32::MAX,
    ensures
        o == page_offset_spec(page, limit),
{
    let p = if page < 1 { 1 } else { page };
    (p - 1) * limit
}

/// How the stored rounds view pages: by cursor when `before` is given, by
/// offset when a page is, from the latest round otherwise.
pub fn rounds_pagination(before: Option<u64>, page: Option<u32>, limit: u32) -> (r: (Option<u64>, Option<u32>))
    requires
        page matches Some(p) ==> page_offset_spec(p, limit) <= u32::MAX,
    ensures
        before is Some ==> r == (before, None::<u32>),
        before is None ==> r == (None::<u64>, match page {
            Some(p) => Some(page_offset_spec(p, limit) as u32),
            None => None,
        }),
{
    match before {
        Some(b) => (Some(b), None),
        None => match page {
            Some(p) => (None, Some(page_offset(p, limit))),
            None => (None, None),
        },
    }
}

/// Round total minus the sum of its deployments (as the signed values they
/// are stored as).
pub open spec fn discrepancy_of(total_deployed: u64, deployments_sum: u64) -> int {
    (total_deployed as i64) as int - (deployments_sum as i64) as int
}

/// The deployments of a round are valid when there are some and they add
/// up to the round total.
pub open spec fn deployments_valid(deployment_count: u64, discrepancy: int) -> bool {
    deployment_count > 0 && discrepancy == 0
}

fn discrepancy(total_deployed: u64, deployments_sum: u64) -> (d: i64)
    requires
        i64::MIN <= discrepancy_of(total_deployed, deployments_sum) <= i64::MAX,
    ensures
        d == discrepancy_of(total_deployed, deployments_sum),
{
    total_deployed as i64 - deployments_sum as i64
}

/// Status of one round's data: it is valid when it exists, has deployments
/// and they add up to its total.
pub fn round_data_status(
    round_id: u64,
    round_exists: bool,
    deployment_count: u64,
    deployments_sum: u64,
    total_deployed: u64,
) -> (r: RoundDataStatus)
    requires
        i64::MIN <= discrepancy_of(total_deployed, deployments_sum) <= i64::MAX,
    ensures
        r == (RoundDataStatus {
            round_id,
            round_exists,
            deployment_count,
            deployments_sum,
            total_deployed,
            is_valid: round_exists && deployments_valid(deployment_count, discrepancy_of(total_deployed, deployments_sum)),
            discrepancy: discrepancy_of(total_deployed, deployments_sum) as i64,
        }),
{
    let d = discrepancy(total_deployed, deployments_sum);
    RoundDataStatus {
        round_id,
        round_exists,
        deployment_count,
        deployments_sum,
        total_deployed,
        is_valid: round_exists && deployment_count > 0 && d == 0,
        discrepancy: d,
    }
}

/// A stored round with its deployment figures and their validity.
pub fn round_with_data(row: RoundRow, deployment_count: u64, deployments_sum: u64) -> (r: RoundWithData)
    requires
        i64::MIN <= discrepancy_of(row.total_deployed, deployments_sum) <= i64::MAX,
    ensures
        r == (RoundWithData {
            round_id: row.round_id,
            start_slot: row.start_slot,
            end_slot: row.end_slot,
            winning_square: row.winning_square,
            top_miner: row.top_miner,
            total_deployed: row.total_deployed,
            total_winnings: row.total_winnings,
            unique_miners: row.unique_miners,
            motherlode: row.motherlode,
            deployment_count,
            source: row.source,
            deployments_sum,
            is_valid: deployments_sum == row.total_deployed,
            discrepancy: discrepancy_of(row.total_deployed, deployments_sum) as i64,
        }),
{
    let d = discrepancy(row.total_deployed, deployments_sum);
    let valid = deployments_sum == row.total_deployed;
    RoundWithData {
        round_id: row.round_id,
        start_slot: row.start_slot,
        end_slot: row.end_slot,
        winning_square: row.winning_square,
        top_miner: row.top_miner,
        total_deployed: row.total_deployed,
        total_winnings: row.total_winnings,
        unique_miners: row.unique_miners,
        motherlode: row.motherlode,
        deployment_count,
        source: row.source,
        deployments_sum,
        is_valid: valid,
        discrepancy: d,
    }
}

/// A stored round known to have no deployments: its whole total is the
/// discrepancy, and it is valid only when that total is zero.
pub fn round_missing_deployments(row: RoundRow) -> (r: RoundWithData)
    ensures
        r == (RoundWithData {
            round_id: row.round_id,
            start_slot: row.start_slot,
            end_slot: row.end_slot,
            winning_square: row.winning_square,
            top_miner: row.top_miner,
            total_deployed: row.total_deployed,
            total_winnings: row.total_winnings,
            unique_miners: row.unique_miners,
            motherlode: row.motherlode,
            deployment_count: 0,
            source: row.source,
            deployments_sum: 0,
            is_valid: row.total_deployed == 0,
            discrepancy: row.total_deployed as i64,
        }),
{
    let total = row.total_deployed as i64;
    let valid = row.total_deployed == 0;
    RoundWithData {
        round_id: row.round_id,
        start_slot: row.start_slot,
        end_slot: row.end_slot,
        winning_square: row.winning_square,
        top_miner: row.top_miner,
        total_deployed: row.total_deployed,
        total_winnings: row.total_winnings,
        unique_miners: row.unique_miners,
        motherlode: row.motherlode,
        deployment_count: 0,
        source: row.source,
        deployments_sum: 0,
        is_valid: valid,
        discrepancy: total,
    }
}

/// A page of the stored rounds view: the cursor for the next page is the
/// last round id of this one when more rounds follow.
pub fn rounds_with_data_response(rounds: Vec<RoundWithData>, has_more: bool, page: Option<u32>) -> (r: RoundsWithDataResponse)
    ensures
        r.rounds == rounds,
        r.total == rounds@.len() as u32,
        r.has_more == has_more,
        r.next_cursor == (if has_more && rounds@.len() > 0 { Some(rounds@.last().round_id) } else { None::<u64> }),
        r.page == page,
{
    let n = rounds.len();
    let next_cursor = if has_more && n > 0 {
        Some(rounds[n - 1].round_id)
    } else {
        None
    };
    RoundsWithDataResponse { total: n as u32, rounds, has_more, next_cursor, page }
}

} // verus!
