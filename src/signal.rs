use vstd::prelude::*;

use crate::config::EngineConfig;

verus! {

/// Profitability bucket of a route.
#[derive(Clone, Copy, Debug, PartialEq, Eq, Structural)]
pub enum TradeTier {
    Noise,
    Acceptable,
    GreatEntry,
    Sniper,
}

/// The tier of a net profit under the configuration's thresholds.
pub open spec fn tier_of(net_profit: int, cfg: EngineConfig) -> TradeTier {
    if net_profit < cfg.acceptable_from {
        TradeTier::Noise
    } else if net_profit < cfg.great_entry_from {
        TradeTier::Acceptable
    } else if net_profit < cfg.sniper_from {
        TradeTier::GreatEntry
    } else {
        TradeTier::Sniper
    }
}

/// Buckets a net profit into a tier.
pub fn get_trade_tier(net_profit: i64, cfg: &EngineConfig) -> (r: TradeTier)
    ensures
        r == tier_of(net_profit as int, *cfg),
{
    if net_profit < cfg.acceptable_from {
        TradeTier::Noise
    } else if net_profit < cfg.great_entry_from {
        TradeTier::Acceptable
    } else if net_profit < cfg.sniper_from {
        TradeTier::GreatEntry
    } else {
        TradeTier::Sniper
    }
}

/// Debounce filter: a favorable condition must hold without a break for the
/// cooldown before it counts as stable.
#[derive(Clone, Copy, Debug, PartialEq, Eq, Structural)]
pub struct TradeSentinel {
    /// When the current favorable run began, in milliseconds.
    pub first_favorable_ms: Option<u64>,
    pub cooldown_ms: u64,
}

/// Milliseconds from `start` to `now`, 0 when `now` is earlier.
pub open spec fn elapsed_ms(start: u64, now: u64) -> int {
    if now >= start {
        now - start
    } else {
        0
    }
}

/// The sentinel after one observation, and whether it reports stable.
pub open spec fn sentinel_step(s: TradeSentinel, favorable: bool, now_ms: u64) -> (TradeSentinel, bool) {
    if !favorable {
        (TradeSentinel { first_favorable_ms: None, ..s }, false)
    } else {
        match s.first_favorable_ms {
            Some(start) => (s, elapsed_ms(start, now_ms) >= s.cooldown_ms),
            None => (TradeSentinel { first_favorable_ms: Some(now_ms), ..s }, false),
        }
    }
}

impl TradeSentinel {
    /// A sentinel with no favorable run yet.
    pub fn new(cooldown_ms: u64) -> (r: TradeSentinel)
        ensures
            r.first_favorable_ms is None,
            r.cooldown_ms == cooldown_ms,
    {
        TradeSentinel { first_favorable_ms: None, cooldown_ms }
    }

    /// Records one observation at `now_ms`; true once the favorable run has
    /// lasted the cooldown. An unfavorable observation restarts the run.
    pub fn check_obi_stability(&mut self, is_favorable: bool, now_ms: u64) -> (r: bool)
        ensures
            (*final(self), r) == sentinel_step(*old(self), is_favorable, now_ms),
    {
        if !is_favorable {
            self.first_favorable_ms = None;
            return false;
        }
        match self.first_favorable_ms {
            Some(start) => {
                let elapsed = if now_ms >= start { now_ms - start } else { 0 };
                elapsed >= self.cooldown_ms
            },
            None => {
                self.first_favorable_ms = Some(now_ms);
                false
            },
        }
    }
}

} // verus!
