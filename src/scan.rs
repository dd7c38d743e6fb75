use vstd::prelude::*;

use crate::book::{MAX_UNITS, ONE};
use crate::config::EngineConfig;
use crate::engine::{observation_ok, run_spec, Engine, RouteKey, RouteObservation, TradeCommand};
use crate::market::{Exchange, MarketState, MarketStore, N_EXCHANGES, state_ok};
use crate::payout::{payout_spec, seconds_to_payout_at, SECONDS_PER_DAY};
use crate::series::MAX_BASIS;
use crate::stats::{div_toward_zero, obi_spec, vwap, vwap_spec, weighted_obi};

verus! {

/// Unordered exchange pairs evaluated per symbol.
pub const PAIRS_PER_SYMBOL: usize = 3;

/// The exchanges of the `p`-th pair, in evaluation order.
pub open spec fn pair_spec(p: int) -> (Exchange, Exchange) {
    if p == 0 {
        (Exchange::Binance, Exchange::Hyperliquid)
    } else if p == 1 {
        (Exchange::Binance, Exchange::Bybit)
    } else {
        (Exchange::Hyperliquid, Exchange::Bybit)
    }
}

fn pair_of(p: usize) -> (r: (Exchange, Exchange))
    ensures
        r == pair_spec(p as int),
{
    if p == 0 {
        (Exchange::Binance, Exchange::Hyperliquid)
    } else if p == 1 {
        (Exchange::Binance, Exchange::Bybit)
    } else {
        (Exchange::Hyperliquid, Exchange::Bybit)
    }
}

/// The route seen on two snapshots of one symbol: the leg with the higher
/// fill price for its bids is short, the other long; the basis is
/// `(short bid - long ask) / long ask`. None when a fill price leaves the
/// level range, the long ask is 0, or the basis leaves `MAX_BASIS`.
pub open spec fn observation_of(
    sa: MarketState,
    sb: MarketState,
    symbol: usize,
    a: Exchange,
    b: Exchange,
    cfg: EngineConfig,
    secs_of_day: int,
) -> Option<RouteObservation> {
    let t = cfg.trade_notional as int;
    let a_bid = vwap_spec(sa.bids@, t);
    let a_ask = vwap_spec(sa.asks@, t);
    let b_bid = vwap_spec(sb.bids@, t);
    let b_ask = vwap_spec(sb.asks@, t);
    let a_short = a_bid > b_bid;
    let short_bid = if a_short { a_bid } else { b_bid };
    let long_ask = if a_short { b_ask } else { a_ask };
    let ss = if a_short { sa } else { sb };
    let ls = if a_short { sb } else { sa };
    let basis = div_toward_zero((short_bid - long_ask) * ONE, long_ask);
    let ta = payout_spec(a, sa.funding, secs_of_day);
    let tb = payout_spec(b, sb.funding, secs_of_day);
    if short_bid > MAX_UNITS || long_ask > MAX_UNITS || long_ask == 0 || basis < -MAX_BASIS || basis
        > MAX_BASIS {
        None
    } else {
        Some(
            RouteObservation {
                route: RouteKey {
                    symbol,
                    short: if a_short { a } else { b },
                    long: if a_short { b } else { a },
                },
                basis: basis as i64,
                short_obi: obi_spec(ss.bids@, ss.asks@) as i64,
                long_obi: obi_spec(ls.bids@, ls.asks@) as i64,
                ttl: (if ta < tb { ta } else { tb }) as u64,
            },
        )
    }
}

/// The observation of the `k`-th (symbol, pair) of the store, symbol-major.
pub open spec fn observation_at(store: MarketStore, cfg: EngineConfig, secs_of_day: int, k: int) -> Option<
    RouteObservation,
> {
    let sym = k / PAIRS_PER_SYMBOL as int;
    let (a, b) = pair_spec(k % PAIRS_PER_SYMBOL as int);
    match (store.entry(a, sym), store.entry(b, sym)) {
        (Some(sa), Some(sb)) => observation_of(sa, sb, sym as usize, a, b, cfg, secs_of_day),
        _ => None,
    }
}

/// The observations of the first `k` (symbol, pair) positions, absent ones left out.
pub open spec fn observations_upto(store: MarketStore, cfg: EngineConfig, secs_of_day: int, k: int) -> Seq<
    RouteObservation,
>
    decreases k,
{
    if k <= 0 {
        Seq::empty()
    } else {
        let prev = observations_upto(store, cfg, secs_of_day, k - 1);
        match observation_at(store, cfg, secs_of_day, k - 1) {
            Some(o) => prev.push(o),
            None => prev,
        }
    }
}

/// All observations of one tick, symbol-major then pair order.
pub open spec fn observations_spec(store: MarketStore, cfg: EngineConfig, secs_of_day: int) -> Seq<
    RouteObservation,
> {
    observations_upto(store, cfg, secs_of_day, store.symbols@.len() * PAIRS_PER_SYMBOL)
}

/// Evaluates one pair of snapshots of a symbol.
pub fn observe_pair(
    sa: &MarketState,
    sb: &MarketState,
    symbol: usize,
    a: Exchange,
    b: Exchange,
    cfg: &EngineConfig,
    secs_of_day: u32,
) -> (r: Option<RouteObservation>)
    requires
        state_ok(*sa),
        state_ok(*sb),
        cfg.wf(),
        secs_of_day < SECONDS_PER_DAY,
    ensures
        r == observation_of(*sa, *sb, symbol, a, b, *cfg, secs_of_day as int),
{
    let t = cfg.trade_notional;
    let a_bid = vwap(sa.bids.as_slice(), t);
    let a_ask = vwap(sa.asks.as_slice(), t);
    let b_bid = vwap(sb.bids.as_slice(), t);
    let b_ask = vwap(sb.asks.as_slice(), t);
    let a_short = a_bid > b_bid;
    let short_bid = if a_short { a_bid } else { b_bid };
    let long_ask = if a_short { b_ask } else { a_ask };
    if short_bid > MAX_UNITS as u128 || long_ask > MAX_UNITS as u128 || long_ask == 0 {
        return None;
    }
    let sb_i = short_bid as i128;
    let la_i = long_ask as i128;
    let diff = sb_i - la_i;
    assert(-100_000_000_000_000_000_000_000 <= diff * (ONE as i128) <= 100_000_000_000_000_000_000_000)
        by (nonlinear_arith)
        requires
            -1_000_000_000_000_000 <= diff <= 1_000_000_000_000_000,
    ;
    let scaled = diff * (ONE as i128);
    let basis = if scaled >= 0 {
        scaled / la_i
    } else {
        -((-scaled) / la_i)
    };
    if basis < -(MAX_BASIS as i128) || basis > MAX_BASIS as i128 {
        return None;
    }
    let (ss, ls) = if a_short {
        (sa, sb)
    } else {
        (sb, sa)
    };
    let short_obi = weighted_obi(ss.bids.as_slice(), ss.asks.as_slice());
    let long_obi = weighted_obi(ls.bids.as_slice(), ls.asks.as_slice());
    let ta = seconds_to_payout_at(a, sa.funding, secs_of_day);
    let tb = seconds_to_payout_at(b, sb.funding, secs_of_day);
    Some(
        RouteObservation {
            route: RouteKey {
                symbol,
                short: if a_short { a } else { b },
                long: if a_short { b } else { a },
            },
            basis: basis as i64,
            short_obi,
            long_obi,
            ttl: if ta < tb { ta } else { tb },
        },
    )
}

/// The observations of one tick over the whole store.
pub fn collect_observations(store: &MarketStore, cfg: &EngineConfig, secs_of_day: u32) -> (r: Vec<RouteObservation>)
    requires
        store.wf(),
        cfg.wf(),
        secs_of_day < SECONDS_PER_DAY,
    ensures
        r@ == observations_spec(*store, *cfg, secs_of_day as int),
        forall|i: int| 0 <= i < r@.len() ==> observation_ok(#[trigger] r@[i], store.symbols@.len() as int),
{
    let n = store.symbols.len();
    let total_slots = store.slots.len();
    assert(total_slots == N_EXCHANGES * n);
    let total = n * PAIRS_PER_SYMBOL;
    let mut out: Vec<RouteObservation> = Vec::new();
    let mut k: usize = 0;
    while k < total
        invariant
            store.wf(),
            cfg.wf(),
            secs_of_day < SECONDS_PER_DAY,
            n == store.symbols@.len(),
            total == n * PAIRS_PER_SYMBOL,
            k <= total,
            out@ == observations_upto(*store, *cfg, secs_of_day as int, k as int),
            forall|i: int| 0 <= i < out@.len() ==> observation_ok(#[trigger] out@[i], n as int),
        decreases total - k,
    {
        let sym = k / PAIRS_PER_SYMBOL;
        let (a, b) = pair_of(k % PAIRS_PER_SYMBOL);
        assert(sym < n) by (nonlinear_arith)
            requires
                k < n * 3,
                sym == k / 3,
        ;
        let ia = a.index() * n + sym;
        let ib = b.index() * n + sym;
        assert(ia < N_EXCHANGES * n && ib < N_EXCHANGES * n) by (nonlinear_arith)
            requires
                ia == crate::market::exchange_index(a) * n + sym,
                ib == crate::market::exchange_index(b) * n + sym,
                0 <= crate::market::exchange_index(a) < 3,
                0 <= crate::market::exchange_index(b) < 3,
                sym < n,
        ;
        let ghost prev = out@;
        match (&store.slots[ia], &store.slots[ib]) {
            (Some(sa), Some(sb)) => {
                assert(state_ok(store.slots@[ia as int]->Some_0));
                assert(state_ok(store.slots@[ib as int]->Some_0));
                match observe_pair(sa, sb, sym, a, b, cfg, secs_of_day) {
                    Some(o) => {
                        out.push(o);
                    },
                    None => {},
                }
            },
            _ => {},
        }
        proof {
            assert(observation_at(*store, *cfg, secs_of_day as int, k as int) == match (
                store.slots@[ia as int],
                store.slots@[ib as int],
            ) {
                (Some(sa), Some(sb)) => observation_of(sa, sb, sym, a, b, *cfg, secs_of_day as int),
                _ => None,
            });
        }
        k += 1;
    }
    out
}

impl Engine {
    /// One decision tick over the store, with the payout countdown taken at
    /// `secs_of_day` seconds past midnight UTC and the sentinel clock at
    /// `now_ms`; returns the commands emitted, in order.
    pub fn tick(&mut self, store: &MarketStore, now_ms: u64, secs_of_day: u32) -> (r: Vec<TradeCommand>)
        requires
            old(self).wf(),
            store.wf(),
            store.symbols@.len() == old(self).n_symbols,
            secs_of_day < SECONDS_PER_DAY,
        ensures
            final(self).wf(),
            final(self).cfg == old(self).cfg,
            final(self).n_symbols == old(self).n_symbols,
            (final(self).view(), r@) == run_spec(
                old(self).view(),
                observations_spec(*store, old(self).cfg, secs_of_day as int),
                now_ms,
                old(self).cfg,
            ),
    {
        let cfg = self.cfg;
        let obs = collect_observations(store, &cfg, secs_of_day);
        self.step(obs.as_slice(), now_ms)
    }
}

} // verus!
