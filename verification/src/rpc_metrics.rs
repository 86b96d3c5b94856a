//! Metrics of RPC requests: the record of one request, built up from what
//! was asked and how it ended, and the policy decisions around retries.

use vstd::prelude::*;
use crate::chain::{le_u64_at, u64_from_le_bytes};
use crate::text::chars_of;

verus! {

broadcast use vstd::string::group_string_axioms;

/// What an RPC request is about, for its metrics record.
#[derive(Debug)]
pub struct RpcContext {
    pub method: String,
    pub target_type: String,
    pub target_address: String,
    pub is_batch: bool,
    pub batch_size: u16,
}

/// Status of a transaction signature.
#[derive(Debug)]
pub struct SignatureStatus {
    pub slot: Option<u64>,
    pub confirmations: Option<usize>,
    pub err: Option<String>,
    /// `processed`, `confirmed` or `finalized`.
    pub confirmation_status: Option<String>,
}

/// A fetched transaction.
#[derive(Debug)]
pub struct TransactionResult {
    pub signature: String,
    pub slot: u64,
    pub block_time: Option<i64>,
    pub raw_json: String,
}

/// Metrics record of one RPC request.
#[derive(Debug)]
pub struct RpcRequestInsert {
    pub program: String,
    pub provider: String,
    pub api_key_id: String,
    pub method: String,
    /// `board`, `round`, `treasury`, `miner`, `token`, `slot`, `balance`, `program`, ...
    pub target_type: String,
    pub target_address: String,
    pub is_batch: u8,
    pub batch_size: u16,
    pub is_paginated: u8,
    pub page_number: u16,
    pub cursor: String,
    /// `pending`, `success`, `error`, `timeout`, `rate_limited` or `not_found`.
    pub status: String,
    pub error_code: String,
    pub error_message: String,
    pub result_count: u32,
    pub filters_json: String,
    pub duration_ms: u32,
    pub request_size: u32,
    pub response_size: u32,
    pub rate_limit_remaining: i32,
    pub rate_limit_reset: i32,
}

/// The value of a rate limit field that the provider did not report.
pub fn default_rate_limit() -> (v: i32)
    ensures
        v == -1,
{
    -1
}

/// The request side of a record: what was asked.
pub open spec fn request_part(r: RpcRequestInsert) -> (Seq<char>, Seq<char>, Seq<char>, Seq<char>, Seq<char>, Seq<char>, u8, u16, u8, u16, Seq<char>, Seq<char>, u32, i32, i32) {
    (r.program@, r.provider@, r.api_key_id@, r.method@, r.target_type@, r.target_address@, r.is_batch,
        r.batch_size, r.is_paginated, r.page_number, r.cursor@, r.filters_json@, r.request_size,
        r.rate_limit_remaining, r.rate_limit_reset)
}

/// The outcome side of a record: how the request ended.
pub open spec fn outcome_part(r: RpcRequestInsert) -> (Seq<char>, Seq<char>, Seq<char>, u32, u32, u32) {
    (r.status@, r.error_code@, r.error_message@, r.result_count, r.duration_ms, r.response_size)
}

impl RpcRequestInsert {
    /// A pending record of a single, unpaginated request.
    pub fn new(program: &str, provider: &str, api_key_id: &str, method: &str, target_type: &str) -> (r: Self)
        ensures
            request_part(r) == (program@, provider@, api_key_id@, method@, target_type@, Seq::<char>::empty(),
                0u8, 1u16, 0u8, 0u16, Seq::<char>::empty(), Seq::<char>::empty(), 0u32, -1i32, -1i32),
            outcome_part(r) == ("pending"@, Seq::<char>::empty(), Seq::<char>::empty(), 0u32, 0u32, 0u32),
    {
        RpcRequestInsert {
            program: program.to_owned(),
            provider: provider.to_owned(),
            api_key_id: api_key_id.to_owned(),
            method: method.to_owned(),
            target_type: target_type.to_owned(),
            target_address: String::new(),
            is_batch: 0,
            batch_size: 1,
            is_paginated: 0,
            page_number: 0,
            cursor: String::new(),
            status: "pending".to_owned(),
            error_code: String::new(),
            error_message: String::new(),
            result_count: 0,
            filters_json: String::new(),
            duration_ms: 0,
            request_size: 0,
            response_size: 0,
            rate_limit_remaining: -1,
            rate_limit_reset: default_rate_limit(),
        }
    }

    /// Set the address being queried.
    pub fn with_target(self, address: &str) -> (r: Self)
        ensures
            request_part(r) == (request_part(self).0, request_part(self).1, request_part(self).2, request_part(self).3,
                request_part(self).4, address@, request_part(self).6, request_part(self).7, request_part(self).8,
                request_part(self).9, request_part(self).10, request_part(self).11, request_part(self).12,
                request_part(self).13, request_part(self).14),
            outcome_part(r) == outcome_part(self),
    {
        let mut r = self;
        r.target_address = address.to_owned();
        r
    }

    /// Set the batch size; a request of more than one item is a batch.
    pub fn with_batch(self, size: u16) -> (r: Self)
        ensures
            r.is_batch == (if size > 1 { 1u8 } else { 0u8 }),
            r.batch_size == size,
            request_part(r) == (request_part(self).0, request_part(self).1, request_part(self).2, request_part(self).3,
                request_part(self).4, request_part(self).5, r.is_batch, size, request_part(self).8,
                request_part(self).9, request_part(self).10, request_part(self).11, request_part(self).12,
                request_part(self).13, request_part(self).14),
            outcome_part(r) == outcome_part(self),
    {
        let mut r = self;
        r.is_batch = if size > 1 { 1 } else { 0 };
        r.batch_size = size;
        r
    }

    /// Mark as paginated, at `page` with `cursor`.
    pub fn with_pagination(self, page: u16, cursor: &str) -> (r: Self)
        ensures
            request_part(r) == (request_part(self).0, request_part(self).1, request_part(self).2, request_part(self).3,
                request_part(self).4, request_part(self).5, request_part(self).6, request_part(self).7, 1u8,
                page, cursor@, request_part(self).11, request_part(self).12,
                request_part(self).13, request_part(self).14),
            outcome_part(r) == outcome_part(self),
    {
        let mut r = self;
        r.is_paginated = 1;
        r.page_number = page;
        r.cursor = cursor.to_owned();
        r
    }

    /// Set the filter configuration (JSON text).
    pub fn with_filters(self, filters_json: &str) -> (r: Self)
        ensures
            request_part(r) == (request_part(self).0, request_part(self).1, request_part(self).2, request_part(self).3,
                request_part(self).4, request_part(self).5, request_part(self).6, request_part(self).7,
                request_part(self).8, request_part(self).9, request_part(self).10, filters_json@,
                request_part(self).12, request_part(self).13, request_part(self).14),
            outcome_part(r) == outcome_part(self),
    {
        let mut r = self;
        r.filters_json = filters_json.to_owned();
        r
    }

    /// The request succeeded.
    pub fn success(self, duration_ms: u32, result_count: u32, response_size: u32) -> (r: Self)
        ensures
            request_part(r) == request_part(self),
            outcome_part(r) == ("success"@, outcome_part(self).1, outcome_part(self).2, result_count, duration_ms, response_size),
    {
        let mut r = self;
        r.status = "success".to_owned();
        r.duration_ms = duration_ms;
        r.result_count = result_count;
        r.response_size = response_size;
        r
    }

    /// The request failed with `code` and `message`.
    pub fn error(self, duration_ms: u32, code: &str, message: &str) -> (r: Self)
        ensures
            request_part(r) == request_part(self),
            outcome_part(r) == ("error"@, code@, message@, outcome_part(self).3, duration_ms, outcome_part(self).5),
    {
        let mut r = self;
        r.status = "error".to_owned();
        r.duration_ms = duration_ms;
        r.error_code = code.to_owned();
        r.error_message = message.to_owned();
        r
    }

    /// The request timed out.
    pub fn timeout(self, duration_ms: u32) -> (r: Self)
        ensures
            request_part(r) == request_part(self),
            outcome_part(r) == ("timeout"@, outcome_part(self).1, outcome_part(self).2, outcome_part(self).3, duration_ms, outcome_part(self).5),
    {
        let mut r = self;
        r.status = "timeout".to_owned();
        r.duration_ms = duration_ms;
        r
    }

    /// The provider rate-limited the request.
    pub fn rate_limited(self, duration_ms: u32) -> (r: Self)
        ensures
            request_part(r) == request_part(self),
            outcome_part(r) == ("rate_limited"@, outcome_part(self).1, outcome_part(self).2, outcome_part(self).3, duration_ms, outcome_part(self).5),
    {
        let mut r = self;
        r.status = "rate_limited".to_owned();
        r.duration_ms = duration_ms;
        r
    }

    /// The requested account was not found.
    pub fn not_found(self, duration_ms: u32) -> (r: Self)
        ensures
            request_part(r) == request_part(self),
            outcome_part(r) == ("not_found"@, outcome_part(self).1, outcome_part(self).2, outcome_part(self).3, duration_ms, outcome_part(self).5),
    {
        let mut r = self;
        r.status = "not_found".to_owned();
        r.duration_ms = duration_ms;
        r
    }
}

/// Recording an outcome never changes what the record says was asked, and
/// describing the request never changes its outcome: the two sides are
/// independent.
pub proof fn lemma_outcome_keeps_request(r: RpcRequestInsert, s: RpcRequestInsert, t: RpcRequestInsert)
    requires
        request_part(s) == request_part(r),
        request_part(t) == request_part(s),
    ensures
        request_part(t) == request_part(r),
{
}

// ---------------------------------------------------------------------------
// Retry policy
// ---------------------------------------------------------------------------

/// Attempts per request, across providers.
pub const MAX_RETRIES: usize = 10;

/// Pause between failed attempts, in milliseconds.
pub const RETRY_DELAY_MS: u64 = 500;

/// Minimum interval between requests to Flux, in milliseconds (about 30 per second).
pub const FLUX_MIN_INTERVAL_MS: u64 = 33;

/// Minimum interval between requests to Helius, in milliseconds (about 25 per second).
pub const HELIUS_MIN_INTERVAL_MS: u64 = 40;

/// Minimum interval between requests to Triton, in milliseconds (about 50 per second).
pub const TRITON_MIN_INTERVAL_MS: u64 = 20;

/// A complete miner snapshot holds at least this many miners.
pub const MIN_SNAPSHOT_MINERS: usize = 10_000;

/// Most signatures returned per page.
pub const SIGNATURES_PAGE_LIMIT: usize = 1000;

/// The provider used for attempt `attempt`: providers take turns.
pub fn provider_index(attempt: usize, provider_count: usize) -> (i: usize)
    requires
        provider_count > 0,
    ensures
        i == attempt % provider_count,
        i < provider_count,
{
    attempt % provider_count
}

/// How long to wait before the next request to a provider so that at least
/// `min_interval_ms` separates two requests.
pub fn rate_limit_wait_ms(elapsed_ms: u64, min_interval_ms: u64) -> (w: u64)
    ensures
        elapsed_ms < min_interval_ms ==> w == min_interval_ms - elapsed_ms,
        elapsed_ms >= min_interval_ms ==> w == 0,
        elapsed_ms + w >= min_interval_ms,
{
    if elapsed_ms < min_interval_ms {
        min_interval_ms - elapsed_ms
    } else {
        0
    }
}

/// Whether to pause before trying again after attempt `attempt` failed: not
/// after the last attempt.
pub fn pause_after_attempt(attempt: usize) -> (b: bool)
    ensures
        b == (attempt + 1 < MAX_RETRIES),
{
    attempt < MAX_RETRIES - 1
}

/// Whether a miner snapshot is complete enough to use.
pub fn snapshot_complete(miner_count: usize) -> (b: bool)
    ensures
        b == (miner_count >= MIN_SNAPSHOT_MINERS),
{
    miner_count >= MIN_SNAPSHOT_MINERS
}

/// Whether a page of signatures was the last one (a short page).
pub fn last_signatures_page(page_len: usize) -> (b: bool)
    ensures
        b == (page_len < SIGNATURES_PAGE_LIMIT),
{
    page_len < SIGNATURES_PAGE_LIMIT
}

/// An RPC URL with a scheme: as given when it starts with `http`, with
/// `https://` in front otherwise.
pub open spec fn normalized_url(url: Seq<char>) -> Seq<char> {
    if url.len() >= 4 && url.subrange(0, 4) == "http"@ {
        url
    } else {
        "https://"@ + url
    }
}

/// Give an RPC URL a scheme when it has none.
pub fn normalize_rpc_url(url: &str) -> (r: String)
    ensures
        r@ == normalized_url(url@),
{
    let u = chars_of(url);
    let p = chars_of("http");
    proof {
        reveal_strlit("http");
    }
    let mut starts = u.len() >= 4;
    let mut i: usize = 0;
    while i < 4 && starts
        invariant
            i <= 4,
            p@ == "http"@,
            p@.len() == 4,
            starts ==> u@.len() >= 4 && forall|t: int| 0 <= t < i ==> u@[t] == p@[t],
            !starts ==> !(u@.len() >= 4 && u@.subrange(0, 4) == "http"@),
        decreases 4 - i,
    {
        if u[i] != p[i] {
            starts = false;
            proof {
                assert(u@.subrange(0, 4)[i as int] != p@[i as int]);
            }
        }
        i = i + 1;
    }
    if starts {
        assert(u@.subrange(0, 4) =~= "http"@);
        url.to_owned()
    } else {
        let mut r = "https://".to_owned();
        r.append(url);
        r
    }
}

// ---------------------------------------------------------------------------
// Token mint accounts
// ---------------------------------------------------------------------------

/// Why a mint account could not be read.
#[derive(Debug)]
pub enum MintSupplyError {
    /// Shorter than the 44 bytes that reach the supply field.
    TooShort(usize),
}

/// The supply of a token mint account: the little-endian `u64` at bytes 36
/// to 44; an error when the account is shorter.
pub fn parse_mint_supply(data: &[u8]) -> (r: Result<u64, MintSupplyError>)
    ensures
        data@.len() < 44 ==> (r matches Err(MintSupplyError::TooShort(n)) && n == data@.len()),
        data@.len() >= 44 ==> r == Ok::<u64, MintSupplyError>(le_u64_at(data@, 36)),
{
    if data.len() < 44 {
        return Err(MintSupplyError::TooShort(data.len()));
    }
    let bytes: [u8; 8] = [data[36], data[37], data[38], data[39], data[40], data[41], data[42], data[43]];
    let v = u64_from_le_bytes(bytes);
    proof {
        assert(bytes@ =~= data@.subrange(36, 44));
    }
    Ok(v)
}

} // verus!
