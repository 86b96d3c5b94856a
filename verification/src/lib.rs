//! Verified core of the ORE statistics service: reward accounting, round
//! reconstruction, RPC bookkeeping, caches and the data model they share.

pub mod text;
pub mod rpc_naming;
pub mod chain;
pub mod records;
pub mod rewards;
pub mod finalize;
pub mod reconstruct;
pub mod keyed;
pub mod evore_cache;
pub mod automation;
pub mod rpc_metrics;
pub mod live;
pub mod refined;
pub mod auth;
pub mod charts;
pub mod rounds_admin;
pub mod admin;
pub mod backfill_queue;
pub mod storage;
pub mod transactions;
pub mod account_data;
pub mod round_summary;
