//! Time series for the charts: query windows and the rows served, with day
//! numbers turned into timestamps.

use vstd::prelude::*;
use crate::text::{parse_u64, parsed_u64, str_equals};

verus! {

broadcast use vstd::string::group_string_axioms;

/// Seconds per day.
pub const SECONDS_PER_DAY: u32 = 86400;

/// Query of an hourly series.
#[derive(Debug)]
pub struct HourlyQuery {
    pub hours: Option<u32>,
}

/// Query of a daily series.
#[derive(Debug)]
pub struct DailyQuery {
    pub days: Option<u32>,
}

/// Query of a per-round series: rounds from `start` to `end` (`live` or
/// absent for the latest), at most `limit`.
#[derive(Debug)]
pub struct DirectQuery {
    pub start: Option<u64>,
    pub end: Option<String>,
    pub limit: Option<u32>,
}

impl DirectQuery {
    /// The last round asked for: none for `live` or when absent, the number
    /// given otherwise (none when it is not a number).
    pub fn end_round(&self) -> (r: Option<u64>)
        ensures
            r == match self.end {
                None => None,
                Some(s) => if s@ == "live"@ { None } else { parsed_u64(s@) },
            },
    {
        match &self.end {
            None => None,
            Some(s) => {
                if str_equals(s.as_str(), "live") {
                    None
                } else {
                    parse_u64(s.as_str())
                }
            },
        }
    }
}

/// Hours of an hourly series: 24 by default, at most 720.
pub fn hourly_window(hours: Option<u32>) -> (h: u32)
    ensures
        h == match hours {
            None => 24u32,
            Some(v) => if v < 720 { v } else { 720u32 },
        },
{
    match hours {
        None => 24,
        Some(v) => if v < 720 { v } else { 720 },
    }
}

/// Days of a daily series: 30 by default, at most 365.
pub fn daily_window(days: Option<u32>) -> (d: u32)
    ensures
        d == match days {
            None => 30u32,
            Some(v) => if v < 365 { v } else { 365u32 },
        },
{
    match days {
        None => 30,
        Some(v) => if v < 365 { v } else { 365 },
    }
}

/// Rounds of a per-round series: 1000 by default, at most 5000.
pub fn direct_limit(limit: Option<u32>) -> (l: u32)
    ensures
        l == match limit {
            None => 1000u32,
            Some(v) => if v < 5000 { v } else { 5000u32 },
        },
{
    match limit {
        None => 1000,
        Some(v) => if v < 5000 { v } else { 5000 },
    }
}

/// The timestamp (seconds) of the start of day `day` since the epoch.
pub fn day_timestamp(day: u16) -> (t: u32)
    requires
        day * SECONDS_PER_DAY <= u32::MAX,
    ensures
        t == day * SECONDS_PER_DAY,
{
    (day as u32) * SECONDS_PER_DAY
}

/// Rounds in one hour.
#[derive(Debug)]
pub struct RoundsHourlyResponse {
    pub hour: u32,
    pub rounds_count: u32,
    pub total_deployments: u64,
    pub unique_miners: u64,
    pub total_deployed: u64,
    pub total_vaulted: u64,
    pub total_winnings: u64,
    pub motherlode_hits: u32,
    pub total_motherlode: u64,
}

/// Rounds in one day, stored by day number.
#[derive(Debug)]
pub struct RoundsDailyRow {
    pub day: u16,
    pub rounds_count: u32,
    pub total_deployments: u64,
    pub unique_miners: u64,
    pub total_deployed: u64,
    pub total_vaulted: u64,
    pub total_winnings: u64,
    pub motherlode_hits: u32,
    pub total_motherlode: u64,
}

/// Rounds in one day, served with the day's timestamp.
#[derive(Debug)]
pub struct RoundsDailyResponse {
    pub day: u32,
    pub rounds_count: u32,
    pub total_deployments: u64,
    pub unique_miners: u64,
    pub total_deployed: u64,
    pub total_vaulted: u64,
    pub total_winnings: u64,
    pub motherlode_hits: u32,
    pub total_motherlode: u64,
}

impl RoundsDailyResponse {
    /// The served form of a stored day.
    pub fn from_row(row: RoundsDailyRow) -> (r: Self)
        requires
            row.day * SECONDS_PER_DAY <= u32::MAX,
        ensures
            r == (RoundsDailyResponse {
                day: (row.day * SECONDS_PER_DAY) as u32,
                rounds_count: row.rounds_count,
                total_deployments: row.total_deployments,
                unique_miners: row.unique_miners,
                total_deployed: row.total_deployed,
                total_vaulted: row.total_vaulted,
                total_winnings: row.total_winnings,
                motherlode_hits: row.motherlode_hits,
                total_motherlode: row.total_motherlode,
            }),
    {
        RoundsDailyResponse {
            day: day_timestamp(row.day),
            rounds_count: row.rounds_count,
            total_deployments: row.total_deployments,
            unique_miners: row.unique_miners,
            total_deployed: row.total_deployed,
            total_vaulted: row.total_vaulted,
            total_winnings: row.total_winnings,
            motherlode_hits: row.motherlode_hits,
            total_motherlode: row.total_motherlode,
        }
    }
}

/// Treasury in one hour.
#[derive(Debug)]
pub struct TreasuryHourlyResponse {
    pub hour: u32,
    pub balance: u64,
    pub motherlode: u64,
    pub total_staked: u64,
    pub total_unclaimed: u64,
    pub total_refined: u64,
}

/// Mint supply in one hour.
#[derive(Debug)]
pub struct MintHourlyResponse {
    pub hour: u32,
    pub supply: u64,
    pub supply_change_total: i64,
    pub round_count: u32,
}

/// Mint supply in one day, stored by day number.
#[derive(Debug)]
pub struct MintDailyRow {
    pub day: u16,
    pub supply: u64,
    pub supply_start: u64,
    pub supply_change_total: i64,
    pub round_count: u32,
}

/// Mint supply in one day.
#[derive(Debug)]
pub struct MintDailyResponse {
    pub day: u32,
    pub supply: u64,
    pub supply_start: u64,
    pub supply_change_total: i64,
    pub round_count: u32,
}

impl MintDailyResponse {
    /// The served form of a stored day.
    pub fn from_row(row: MintDailyRow) -> (r: Self)
        requires
            row.day * SECONDS_PER_DAY <= u32::MAX,
        ensures
            r == (MintDailyResponse {
                day: (row.day * SECONDS_PER_DAY) as u32,
                supply: row.supply,
                supply_start: row.supply_start,
                supply_change_total: row.supply_change_total,
                round_count: row.round_count,
            }),
    {
        MintDailyResponse {
            day: day_timestamp(row.day),
            supply: row.supply,
            supply_start: row.supply_start,
            supply_change_total: row.supply_change_total,
            round_count: row.round_count,
        }
    }
}

/// Inflation in one hour.
#[derive(Debug)]
pub struct InflationHourlyResponse {
    pub hour: u32,
    pub supply_end: u64,
    pub supply_change_total: i64,
    pub unclaimed_end: u64,
    pub unclaimed_change_total: i64,
    pub circulating_end: u64,
    pub market_inflation_total: i64,
    pub rounds_count: u32,
}

/// Inflation in one day, stored by day number.
#[derive(Debug)]
pub struct InflationDailyRow {
    pub day: u16,
    pub supply_start: u64,
    pub supply_end: u64,
    pub supply_change_total: i64,
    pub circulating_start: u64,
    pub circulating_end: u64,
    pub market_inflation_total: i64,
    pub rounds_count: u32,
}

/// Inflation in one day.
#[derive(Debug)]
pub struct InflationDailyResponse {
    pub day: u32,
    pub supply_start: u64,
    pub supply_end: u64,
    pub supply_change_total: i64,
    pub circulating_start: u64,
    pub circulating_end: u64,
    pub market_inflation_total: i64,
    pub rounds_count: u32,
}

impl InflationDailyResponse {
    /// The served form of a stored day.
    pub fn from_row(row: InflationDailyRow) -> (r: Self)
        requires
            row.day * SECONDS_PER_DAY <= u32::MAX,
        ensures
            r == (InflationDailyResponse {
                day: (row.day * SECONDS_PER_DAY) as u32,
                supply_start: row.supply_start,
                supply_end: row.supply_end,
                supply_change_total: row.supply_change_total,
                circulating_start: row.circulating_start,
                circulating_end: row.circulating_end,
                market_inflation_total: row.market_inflation_total,
                rounds_count: row.rounds_count,
            }),
    {
        InflationDailyResponse {
            day: day_timestamp(row.day),
            supply_start: row.supply_start,
            supply_end: row.supply_end,
            supply_change_total: row.supply_change_total,
            circulating_start: row.circulating_start,
            circulating_end: row.circulating_end,
            market_inflation_total: row.market_inflation_total,
            rounds_count: row.rounds_count,
        }
    }
}

/// Cost of mining one ORE in one day, stored by day number.
#[derive(Debug)]
pub struct CostPerOreDailyRow {
    pub day: u16,
    pub rounds_count: u32,
    pub total_vaulted: u64,
    pub ore_minted_total: u64,
    pub cost_per_ore_lamports: u64,
}

/// Cost of mining one ORE in one day.
#[derive(Debug)]
pub struct CostPerOreDailyResponse {
    pub day: u32,
    pub rounds_count: u32,
    pub total_vaulted: u64,
    pub ore_minted_total: u64,
    pub cost_per_ore_lamports: u64,
}

impl CostPerOreDailyResponse {
    /// The served form of a stored day.
    pub fn from_row(row: CostPerOreDailyRow) -> (r: Self)
        requires
            row.day * SECONDS_PER_DAY <= u32::MAX,
        ensures
            r == (CostPerOreDailyResponse {
                day: (row.day * SECONDS_PER_DAY) as u32,
                rounds_count: row.rounds_count,
                total_vaulted: row.total_vaulted,
                ore_minted_total: row.ore_minted_total,
                cost_per_ore_lamports: row.cost_per_ore_lamports,
            }),
    {
        CostPerOreDailyResponse {
            day: day_timestamp(row.day),
            rounds_count: row.rounds_count,
            total_vaulted: row.total_vaulted,
            ore_minted_total: row.ore_minted_total,
            cost_per_ore_lamports: row.cost_per_ore_lamports,
        }
    }
}

/// Miner activity in one day, stored by day number.
#[derive(Debug)]
pub struct MinerActivityDailyRow {
    pub day: u16,
    pub active_miners: u64,
    pub total_deployments: u64,
    pub total_deployed: u64,
    pub total_won: u64,
}

/// Miner activity in one day.
#[derive(Debug)]
pub struct MinerActivityDailyResponse {
    pub day: u32,
    pub active_miners: u64,
    pub total_deployments: u64,
    pub total_deployed: u64,
    pub total_won: u64,
}

impl MinerActivityDailyResponse {
    /// The served form of a stored day.
    pub fn from_row(row: MinerActivityDailyRow) -> (r: Self)
        requires
            row.day * SECONDS_PER_DAY <= u32::MAX,
        ensures
            r == (MinerActivityDailyResponse {
                day: (row.day * SECONDS_PER_DAY) as u32,
                active_miners: row.active_miners,
                total_deployments: row.total_deployments,
                total_deployed: row.total_deployed,
                total_won: row.total_won,
            }),
    {
        MinerActivityDailyResponse {
            day: day_timestamp(row.day),
            active_miners: row.active_miners,
            total_deployments: row.total_deployments,
            total_deployed: row.total_deployed,
            total_won: row.total_won,
        }
    }
}

/// One round of the per-round series, as stored.
#[derive(Debug)]
pub struct RoundDirectRow {
    pub round_id: u64,
    pub created_at: i64,
    pub total_deployments: u32,
    pub unique_miners: u32,
    pub total_deployed: u64,
    pub total_vaulted: u64,
    pub total_winnings: u64,
    pub motherlode_hit: u8,
    pub motherlode: u64,
}

/// One round of the per-round series.
#[derive(Debug)]
pub struct RoundDirectResponse {
    pub round_id: u64,
    /// Milliseconds since the epoch.
    pub created_at: i64,
    pub total_deployments: u32,
    pub unique_miners: u32,
    pub total_deployed: u64,
    pub total_vaulted: u64,
    pub total_winnings: u64,
    pub motherlode_hit: bool,
    pub motherlode: u64,
}

impl RoundDirectResponse {
    /// The served form of a stored round.
    pub fn from_row(row: RoundDirectRow) -> (r: Self)
        ensures
            r == (RoundDirectResponse {
                round_id: row.round_id,
                created_at: row.created_at,
                total_deployments: row.total_deployments,
                unique_miners: row.unique_miners,
                total_deployed: row.total_deployed,
                total_vaulted: row.total_vaulted,
                total_winnings: row.total_winnings,
                motherlode_hit: row.motherlode_hit != 0,
                motherlode: row.motherlode,
            }),
    {
        RoundDirectResponse {
            round_id: row.round_id,
            created_at: row.created_at,
            total_deployments: row.total_deployments,
            unique_miners: row.unique_miners,
            total_deployed: row.total_deployed,
            total_vaulted: row.total_vaulted,
            total_winnings: row.total_winnings,
            motherlode_hit: row.motherlode_hit != 0,
            motherlode: row.motherlode,
        }
    }
}

/// Treasury at the end of one round.
#[derive(Debug)]
pub struct TreasuryDirectResponse {
    pub round_id: u64,
    pub created_at: i64,
    pub balance: u64,
    pub motherlode: u64,
    pub total_staked: u64,
    pub total_unclaimed: u64,
    pub total_refined: u64,
}

/// Mint supply at the end of one round.
#[derive(Debug)]
pub struct MintDirectResponse {
    pub round_id: u64,
    pub created_at: i64,
    pub supply: u64,
    pub supply_change: i64,
}

/// Inflation at the end of one round.
#[derive(Debug)]
pub struct InflationDirectResponse {
    pub round_id: u64,
    pub created_at: i64,
    pub supply: u64,
    pub supply_change: i64,
    pub unclaimed: u64,
    pub circulating: u64,
    pub market_inflation: i64,
}

/// Cost of mining in one round.
#[derive(Debug)]
pub struct CostPerOreDirectResponse {
    pub round_id: u64,
    pub created_at: i64,
    pub total_vaulted: u64,
    /// One ORE base plus the motherlode.
    pub ore_minted: u64,
    pub cost_per_ore_lamports: u64,
}

/// Metadata of a per-round series.
#[derive(Debug)]
pub struct DirectMetadata {
    pub latest_round_id: u64,
}

/// A per-round series with its metadata.
#[derive(Debug)]
pub struct DirectResponse<T> {
    pub meta: DirectMetadata,
    pub data: Vec<T>,
}

} // verus!
