use vstd::prelude::*;

use crate::market::Exchange;

verus! {

/// Seconds in a day.
pub const SECONDS_PER_DAY: u32 = 86_400;

/// Funding rate, in units of `ONE`, from which Binance settles hourly (3%).
pub const HOURLY_FUNDING_FROM: i64 = 3_000_000;

/// Hours between two funding settlements of an exchange at a funding rate:
/// hourly on Hyperliquid, hourly on Binance while the rate's magnitude is at
/// least 3%, every eight hours otherwise.
pub open spec fn settlement_hours(e: Exchange, funding: i64) -> int {
    if e == Exchange::Hyperliquid {
        1
    } else if e == Exchange::Binance && (funding >= HOURLY_FUNDING_FROM || funding
        <= -HOURLY_FUNDING_FROM) {
        1
    } else {
        8
    }
}

/// Seconds from `secs_of_day` to the next settlement boundary, which falls on
/// whole multiples of the window counted from midnight UTC.
pub open spec fn payout_spec(e: Exchange, funding: i64, secs_of_day: int) -> int {
    let w = settlement_hours(e, funding) * 3600;
    w - secs_of_day % w
}

/// Seconds until the next funding settlement, given the seconds elapsed since
/// midnight UTC.
pub fn seconds_to_payout_at(exchange: Exchange, funding_rate: i64, secs_of_day: u32) -> (r: u64)
    requires
        secs_of_day < SECONDS_PER_DAY,
    ensures
        r == payout_spec(exchange, funding_rate, secs_of_day as int),
        1 <= r <= settlement_hours(exchange, funding_rate) * 3600,
{
    let hours: u64 = if exchange == Exchange::Hyperliquid {
        1
    } else if exchange == Exchange::Binance && (funding_rate >= HOURLY_FUNDING_FROM || funding_rate
        <= -HOURLY_FUNDING_FROM) {
        1
    } else {
        8
    };
    let w = hours * 3600;
    w - (secs_of_day as u64) % w
}

} // verus!
