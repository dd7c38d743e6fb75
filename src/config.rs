use vstd::prelude::*;

use crate::series::{MAX_BASIS, MAX_SERIES_LEN};
use crate::stats::MAX_NOTIONAL;

verus! {

/// The tunable constants of the decision engine. Rates, fees and ratios are in
/// units of `ONE`.
#[derive(Clone, Copy, Debug)]
pub struct EngineConfig {
    /// Round-trip fee subtracted from the basis.
    pub fee: i64,
    /// Net profit from which a route is `Acceptable`.
    pub acceptable_from: i64,
    /// Net profit from which a route is a `GreatEntry`.
    pub great_entry_from: i64,
    /// Net profit from which a route is a `Sniper` entry.
    pub sniper_from: i64,
    /// Net profit that opens a position when a payout is near.
    pub urgent_profit: i64,
    /// Seconds to payout under which the urgent entry applies.
    pub urgent_payout_secs: u64,
    /// Consecutive favorable ticks needed before an entry.
    pub min_streak: u32,
    /// How long the imbalance must stay favorable, in milliseconds.
    pub sentinel_cooldown_ms: u64,
    /// The short leg's imbalance must stay under this.
    pub short_obi_max: i64,
    /// The long leg's imbalance must stay over this.
    pub long_obi_min: i64,
    /// Fraction of the entry basis whose capture closes the position.
    pub take_profit_ratio: i64,
    /// Widening of the basis past the entry that closes the position.
    pub stop_loss: i64,
    /// Seconds to payout under which any gain closes the position.
    pub exit_payout_secs: u64,
    /// Samples kept per route.
    pub history_capacity: usize,
    /// Notional each leg is priced for, in price units times quantity units.
    pub trade_notional: u128,
}

impl EngineConfig {
    /// The configuration is usable: thresholds ordered, bounds respected.
    pub open spec fn wf(&self) -> bool {
        &&& self.acceptable_from <= self.great_entry_from <= self.sniper_from
        &&& -MAX_BASIS <= self.fee <= MAX_BASIS
        &&& -MAX_BASIS <= self.stop_loss <= MAX_BASIS
        &&& 0 <= self.take_profit_ratio <= MAX_BASIS
        &&& 1 <= self.history_capacity <= MAX_SERIES_LEN
        &&& self.trade_notional <= MAX_NOTIONAL
    }

    /// The default configuration: fee 0.105%, tiers at 0.02%, 0.05% and
    /// 0.15%, urgent entry over 0.03% within 600 s of payout, a streak of 5,
    /// a 500 ms sentinel, imbalance gates at 0.6 and -0.6, exit on 80% of
    /// the entry basis captured, on 0.10% of widening, or on any gain within
    /// 30 s of payout; 120 samples; 1000 units of notional at eight decimals
    /// for price and quantity.
    pub fn standard() -> (r: EngineConfig)
        ensures
            r.wf(),
            r == (EngineConfig {
                fee: 105_000,
                acceptable_from: 20_000,
                great_entry_from: 50_000,
                sniper_from: 150_000,
                urgent_profit: 30_000,
                urgent_payout_secs: 600,
                min_streak: 5,
                sentinel_cooldown_ms: 500,
                short_obi_max: 60_000_000,
                long_obi_min: -60_000_000i64,
                take_profit_ratio: 80_000_000,
                stop_loss: 100_000,
                exit_payout_secs: 30,
                history_capacity: 120,
                trade_notional: 10_000_000_000_000_000_000,
            }),
    {
        EngineConfig {
            fee: 105_000,
            acceptable_from: 20_000,
            great_entry_from: 50_000,
            sniper_from: 150_000,
            urgent_profit: 30_000,
            urgent_payout_secs: 600,
            min_streak: 5,
            sentinel_cooldown_ms: 500,
            short_obi_max: 60_000_000,
            long_obi_min: -60_000_000,
            take_profit_ratio: 80_000_000,
            stop_loss: 100_000,
            exit_payout_secs: 30,
            history_capacity: 120,
            trade_notional: 10_000_000_000_000_000_000,
        }
    }
}

} // verus!
