use vstd::prelude::*;

use crate::book::ONE;
use crate::config::EngineConfig;
use crate::history::{keep_last, BasisHistory};
use crate::market::{exchange_index, Exchange};
use crate::series::{
    lemma_slope_sign, regression_slope, slope_num, slope_spec, MAX_BASIS,
    MIN_SLOPE_POINTS,
};
use crate::signal::{get_trade_tier, sentinel_step, tier_of, TradeSentinel, TradeTier};

verus! {

/// Routes per symbol: one per ordered pair of distinct exchanges.
pub const ROUTES_PER_SYMBOL: usize = 6;

/// One arbitrage direction for one symbol: sell on `short`, buy on `long`.
#[derive(Clone, Copy, Debug, PartialEq, Eq, Structural)]
pub struct RouteKey {
    /// Index of the symbol in the watchlist.
    pub symbol: usize,
    pub short: Exchange,
    pub long: Exchange,
}

/// The route names a watched symbol and two distinct exchanges.
pub open spec fn route_ok(k: RouteKey, n_symbols: int) -> bool {
    k.symbol < n_symbols && k.short != k.long
}

/// Slot of a route among the `ROUTES_PER_SYMBOL * n` routes of an engine.
pub open spec fn route_slot(k: RouteKey) -> int {
    let s = exchange_index(k.short);
    let l = exchange_index(k.long);
    k.symbol * ROUTES_PER_SYMBOL + s * 2 + if l > s {
        l - 1
    } else {
        l
    }
}

/// Slot of a route.
pub fn route_slot_of(k: &RouteKey, n_symbols: usize) -> (r: usize)
    requires
        route_ok(*k, n_symbols as int),
        n_symbols * ROUTES_PER_SYMBOL <= usize::MAX,
    ensures
        r == route_slot(*k),
        r < n_symbols * ROUTES_PER_SYMBOL,
{
    let s = k.short.index();
    let l = k.long.index();
    let within: usize = s * 2 + if l > s {
        l - 1
    } else {
        l
    };
    assert(k.symbol * ROUTES_PER_SYMBOL + within < n_symbols * ROUTES_PER_SYMBOL) by (nonlinear_arith)
        requires
            k.symbol < n_symbols,
            within < ROUTES_PER_SYMBOL,
    ;
    k.symbol * ROUTES_PER_SYMBOL + within
}

/// What one decision tick saw of one route.
#[derive(Clone, Copy, Debug, PartialEq, Eq, Structural)]
pub struct RouteObservation {
    pub route: RouteKey,
    /// `(short bid - long ask) / long ask`, in units of `ONE`.
    pub basis: i64,
    /// Imbalance of the short leg's book, in units of `ONE`.
    pub short_obi: i64,
    /// Imbalance of the long leg's book, in units of `ONE`.
    pub long_obi: i64,
    /// Seconds to the nearer funding settlement of the two legs.
    pub ttl: u64,
}

/// The observation names a valid route and a basis within range.
pub open spec fn observation_ok(o: RouteObservation, n_symbols: int) -> bool {
    route_ok(o.route, n_symbols) && -MAX_BASIS <= o.basis <= MAX_BASIS
}

/// Whether a command opens or closes the position.
#[derive(Clone, Copy, Debug, PartialEq, Eq, Structural)]
pub enum CommandKind {
    Open,
    Close,
}

/// An instruction for the execution side, with the basis and tier seen when
/// it was decided.
#[derive(Clone, Copy, Debug, PartialEq, Eq, Structural)]
pub struct TradeCommand {
    pub kind: CommandKind,
    pub route: RouteKey,
    pub basis: i64,
    pub tier: TradeTier,
}

/// The single position of the process.
#[derive(Clone, Copy, Debug, PartialEq, Eq, Structural)]
pub enum Position {
    Flat,
    Open { route: RouteKey, entry_basis: i64 },
}

/// What the route's state yields for the decision on this tick.
#[derive(Clone, Copy, Debug, PartialEq, Eq, Structural)]
pub struct RouteSignal {
    pub tier: TradeTier,
    /// Basis less the fee, in units of `ONE`.
    pub net_profit: i64,
    pub streak: u32,
    pub stable: bool,
}

/// The mathematical state of one route.
pub struct RouteView {
    pub history: Seq<i64>,
    pub streak: u32,
    pub sentinel: TradeSentinel,
}

/// The mathematical state of the engine: its routes by slot, and the position.
pub struct EngineView {
    pub routes: Seq<RouteView>,
    pub position: Position,
}

/// The streak after a tick: one more when the tier is above noise and the
/// slope is rising (held at the largest `u32`), else back to 0.
pub open spec fn next_streak(streak: u32, tier: TradeTier, slope: int) -> u32 {
    if tier != TradeTier::Noise && slope > 0 {
        if streak < u32::MAX {
            (streak + 1) as u32
        } else {
            streak
        }
    } else {
        0
    }
}

/// The imbalance is favorable: the short leg is not bid-heavy and the long
/// leg is not ask-heavy.
pub open spec fn favorable(o: RouteObservation, cfg: EngineConfig) -> bool {
    o.short_obi < cfg.short_obi_max && o.long_obi > cfg.long_obi_min
}

/// One tick of a route: push the basis, recompute the slope, the streak and
/// the sentinel.
pub open spec fn route_step(rv: RouteView, o: RouteObservation, now_ms: u64, cfg: EngineConfig) -> (
    RouteView,
    RouteSignal,
) {
    let history = keep_last(rv.history.push(o.basis), cfg.history_capacity as nat);
    let net = o.basis - cfg.fee;
    let tier = tier_of(net, cfg);
    let streak = next_streak(rv.streak, tier, slope_spec(history));
    let (sentinel, stable) = sentinel_step(rv.sentinel, favorable(o, cfg), now_ms);
    (
        RouteView { history, streak, sentinel },
        RouteSignal { tier, net_profit: net as i64, streak, stable },
    )
}

/// The streak grows exactly when the tier is above noise and the history
/// (with the new basis) holds at least `MIN_SLOPE_POINTS` values whose
/// least-squares slope is positive; otherwise it returns to 0.
pub proof fn lemma_streak_rule(rv: RouteView, o: RouteObservation, now_ms: u64, cfg: EngineConfig)
    ensures
        ({
            let h = keep_last(rv.history.push(o.basis), cfg.history_capacity as nat);
            let tier = tier_of(o.basis - cfg.fee, cfg);
            let rising = h.len() >= MIN_SLOPE_POINTS && slope_num(h) > 0;
            route_step(rv, o, now_ms, cfg).1.streak == if tier != TradeTier::Noise && rising {
                if rv.streak < u32::MAX {
                    (rv.streak + 1) as u32
                } else {
                    rv.streak
                }
            } else {
                0
            }
        }),
{
    let h = keep_last(rv.history.push(o.basis), cfg.history_capacity as nat);
    lemma_slope_sign(h);
}

/// Entry gate: a great or sniper tier, or a near payout with enough profit;
/// and a long enough streak, and a stable sentinel.
pub open spec fn entry_ok(o: RouteObservation, sig: RouteSignal, cfg: EngineConfig) -> bool {
    &&& (sig.tier == TradeTier::GreatEntry || sig.tier == TradeTier::Sniper || (o.ttl
        < cfg.urgent_payout_secs && sig.net_profit > cfg.urgent_profit))
    &&& sig.streak >= cfg.min_streak
    &&& sig.stable
}

/// `(entry - current) / entry > ratio / ONE`, decided exactly.
pub open spec fn captured(entry: int, current: int, ratio: int) -> bool {
    if entry > 0 {
        (entry - current) * ONE > ratio * entry
    } else if entry < 0 {
        (entry - current) * ONE < ratio * entry
    } else {
        false
    }
}

/// Exit gate: enough of the entry basis captured, or the basis widened past
/// the stop, or any gain with the payout near.
pub open spec fn exit_ok(entry: int, current: int, ttl: u64, cfg: EngineConfig) -> bool {
    ||| captured(entry, current, cfg.take_profit_ratio as int)
    ||| current > entry + cfg.stop_loss
    ||| (ttl < cfg.exit_payout_secs && entry - current > 0)
}

/// The position after a route's tick, and the command it emits if any.
/// Entries are considered only while flat and exits only on the open route.
/// There is no re-entry cooldown: a route that closed may open again on a
/// later observation as soon as the entry gate holds.
pub open spec fn position_step(
    pos: Position,
    o: RouteObservation,
    sig: RouteSignal,
    cfg: EngineConfig,
) -> (Position, Option<TradeCommand>) {
    match pos {
        Position::Flat => if entry_ok(o, sig, cfg) {
            (
                Position::Open { route: o.route, entry_basis: o.basis },
                Some(
                    TradeCommand { kind: CommandKind::Open, route: o.route, basis: o.basis, tier: sig.tier },
                ),
            )
        } else {
            (pos, None)
        },
        Position::Open { route, entry_basis } => if route == o.route && exit_ok(
            entry_basis as int,
            o.basis as int,
            o.ttl,
            cfg,
        ) {
            (
                Position::Flat,
                Some(
                    TradeCommand { kind: CommandKind::Close, route: o.route, basis: o.basis, tier: sig.tier },
                ),
            )
        } else {
            (pos, None)
        },
    }
}

/// One observation processed by the engine.
pub open spec fn observe_spec(ev: EngineView, o: RouteObservation, now_ms: u64, cfg: EngineConfig) -> (
    EngineView,
    Option<TradeCommand>,
) {
    let slot = route_slot(o.route);
    let (rv, sig) = route_step(ev.routes[slot], o, now_ms, cfg);
    let (position, cmd) = position_step(ev.position, o, sig, cfg);
    (EngineView { routes: ev.routes.update(slot, rv), position }, cmd)
}

/// From flat, an observation whose route passes the entry gate on this tick
/// emits exactly one open command for that route, carrying the observed
/// basis and tier, and the position becomes open at that basis.
pub proof fn lemma_entry_opens(ev: EngineView, o: RouteObservation, now_ms: u64, cfg: EngineConfig)
    requires
        ev.position == Position::Flat,
        entry_ok(o, route_step(ev.routes[route_slot(o.route)], o, now_ms, cfg).1, cfg),
    ensures
        observe_spec(ev, o, now_ms, cfg).1 == Some(
            TradeCommand {
                kind: CommandKind::Open,
                route: o.route,
                basis: o.basis,
                tier: tier_of(o.basis - cfg.fee, cfg),
            },
        ),
        observe_spec(ev, o, now_ms, cfg).0.position == (Position::Open {
            route: o.route,
            entry_basis: o.basis,
        }),
{
}

/// While open, an observation of the open route that passes the exit gate
/// emits exactly one close command for it, and the position becomes flat;
/// an observation of any other route leaves the position and emits nothing.
pub proof fn lemma_exit_closes(
    ev: EngineView,
    o: RouteObservation,
    now_ms: u64,
    cfg: EngineConfig,
    route: RouteKey,
    entry: i64,
)
    requires
        ev.position == (Position::Open { route, entry_basis: entry }),
    ensures
        route == o.route && exit_ok(entry as int, o.basis as int, o.ttl, cfg) ==> observe_spec(
            ev,
            o,
            now_ms,
            cfg,
        ).1 == Some(
            TradeCommand {
                kind: CommandKind::Close,
                route: o.route,
                basis: o.basis,
                tier: tier_of(o.basis - cfg.fee, cfg),
            },
        ) && observe_spec(ev, o, now_ms, cfg).0.position == Position::Flat,
        route != o.route ==> observe_spec(ev, o, now_ms, cfg).1 is None && observe_spec(
            ev,
            o,
            now_ms,
            cfg,
        ).0.position == ev.position,
{
}

/// The commands of an optional one.
pub open spec fn opt_seq(c: Option<TradeCommand>) -> Seq<TradeCommand> {
    match c {
        Some(x) => seq![x],
        None => Seq::empty(),
    }
}

/// Observations processed in order.
pub open spec fn run_spec(ev: EngineView, obs: Seq<RouteObservation>, now_ms: u64, cfg: EngineConfig) -> (
    EngineView,
    Seq<TradeCommand>,
)
    decreases obs.len(),
{
    if obs.len() == 0 {
        (ev, Seq::empty())
    } else {
        let (ev1, cmds) = run_spec(ev, obs.drop_last(), now_ms, cfg);
        let (ev2, c) = observe_spec(ev1, obs.last(), now_ms, cfg);
        (ev2, cmds + opt_seq(c))
    }
}

/// Per-route state: history of the basis, streak, sentinel.
pub struct RouteState {
    pub history: BasisHistory,
    pub streak: u32,
    pub sentinel: TradeSentinel,
}

impl RouteState {
    pub open spec fn view(&self) -> RouteView {
        RouteView { history: self.history@, streak: self.streak, sentinel: self.sentinel }
    }

    /// A fresh route.
    pub fn new(cfg: &EngineConfig) -> (r: RouteState)
        requires
            cfg.wf(),
        ensures
            r.history.wf(),
            r.history.cap() == cfg.history_capacity,
            r.view() == (RouteView {
                history: Seq::empty(),
                streak: 0,
                sentinel: TradeSentinel { first_favorable_ms: None, cooldown_ms: cfg.sentinel_cooldown_ms },
            }),
    {
        RouteState {
            history: BasisHistory::new(cfg.history_capacity),
            streak: 0,
            sentinel: TradeSentinel::new(cfg.sentinel_cooldown_ms),
        }
    }

    /// Processes one observation of this route.
    pub fn update(&mut self, o: &RouteObservation, now_ms: u64, cfg: &EngineConfig) -> (r: RouteSignal)
        requires
            old(self).history.wf(),
            old(self).history.cap() == cfg.history_capacity,
            cfg.wf(),
            -MAX_BASIS <= o.basis <= MAX_BASIS,
        ensures
            final(self).history.wf(),
            final(self).history.cap() == cfg.history_capacity,
            (final(self).view(), r) == route_step(old(self).view(), *o, now_ms, *cfg),
    {
        self.history.push(o.basis);
        let slope = regression_slope(self.history.values());
        let net = o.basis - cfg.fee;
        let tier = get_trade_tier(net, cfg);
        let streak = if tier != TradeTier::Noise && slope > 0 {
            if self.streak < u32::MAX {
                self.streak + 1
            } else {
                self.streak
            }
        } else {
            0
        };
        self.streak = streak;
        let fav = o.short_obi < cfg.short_obi_max && o.long_obi > cfg.long_obi_min;
        let stable = self.sentinel.check_obi_stability(fav, now_ms);
        RouteSignal { tier, net_profit: net, streak, stable }
    }
}

/// Exact test of `captured`.
fn captured_exec(entry: i64, current: i64, ratio: i64) -> (r: bool)
    requires
        -MAX_BASIS <= entry <= MAX_BASIS,
        -MAX_BASIS <= current <= MAX_BASIS,
        0 <= ratio <= MAX_BASIS,
    ensures
        r == captured(entry as int, current as int, ratio as int),
{
    let gain = (entry as i128) - (current as i128);
    assert(-200_000_000_000_000_000_000 <= gain * (ONE as i128) <= 200_000_000_000_000_000_000)
        by (nonlinear_arith)
        requires
            -2_000_000_000_000 <= gain <= 2_000_000_000_000,
    ;
    assert(-1_000_000_000_000_000_000_000_000 <= (ratio as i128) * (entry as i128)
        <= 1_000_000_000_000_000_000_000_000) by (nonlinear_arith)
        requires
            0 <= ratio <= 1_000_000_000_000,
            -1_000_000_000_000 <= entry <= 1_000_000_000_000,
    ;
    let lhs = gain * (ONE as i128);
    let rhs = (ratio as i128) * (entry as i128);
    if entry > 0 {
        lhs > rhs
    } else if entry < 0 {
        lhs < rhs
    } else {
        false
    }
}

/// The decision engine: per-route state and the single position.
pub struct Engine {
    pub cfg: EngineConfig,
    pub n_symbols: usize,
    pub routes: Vec<RouteState>,
    pub position: Position,
}

impl Engine {
    pub open spec fn view(&self) -> EngineView {
        EngineView {
            routes: Seq::new(self.routes@.len(), |i: int| self.routes@[i].view()),
            position: self.position,
        }
    }

    /// One route per slot, each history of the configured capacity.
    pub open spec fn wf(&self) -> bool {
        &&& self.cfg.wf()
        &&& self.routes@.len() == self.n_symbols * ROUTES_PER_SYMBOL
        &&& forall|i: int|
            0 <= i < self.routes@.len() ==> (#[trigger] self.routes@[i]).history.wf()
                && self.routes@[i].history.cap() == self.cfg.history_capacity
        &&& match self.position {
            Position::Open { route, entry_basis } => route_ok(route, self.n_symbols as int)
                && -MAX_BASIS <= entry_basis <= MAX_BASIS,
            Position::Flat => true,
        }
    }

    /// An engine for `n_symbols` watched symbols, flat, with fresh routes.
    pub fn new(cfg: EngineConfig, n_symbols: usize) -> (r: Engine)
        requires
            cfg.wf(),
            n_symbols * ROUTES_PER_SYMBOL <= usize::MAX,
        ensures
            r.wf(),
            r.cfg == cfg,
            r.n_symbols == n_symbols,
            r.position == Position::Flat,
            forall|i: int|
                0 <= i < r.view().routes.len() ==> (#[trigger] r.view().routes[i]).history.len() == 0
                    && r.view().routes[i].streak == 0 && r.view().routes[i].sentinel == (TradeSentinel {
                    first_favorable_ms: None,
                    cooldown_ms: cfg.sentinel_cooldown_ms,
                }),
    {
        let total = n_symbols * ROUTES_PER_SYMBOL;
        let mut routes: Vec<RouteState> = Vec::new();
        let mut i: usize = 0;
        while i < total
            invariant
                cfg.wf(),
                i <= total,
                routes@.len() == i,
                forall|j: int|
                    0 <= j < i ==> (#[trigger] routes@[j]).history.wf() && routes@[j].history.cap()
                        == cfg.history_capacity && routes@[j].history@.len() == 0
                        && routes@[j].streak == 0 && routes@[j].sentinel == (TradeSentinel {
                        first_favorable_ms: None,
                        cooldown_ms: cfg.sentinel_cooldown_ms,
                    }),
            decreases total - i,
        {
            routes.push(RouteState::new(&cfg));
            i += 1;
        }
        Engine { cfg, n_symbols, routes, position: Position::Flat }
    }

    /// Processes one observation: updates its route and, through the entry or
    /// exit gate, the position; returns the command emitted, if any.
    pub fn observe(&mut self, o: &RouteObservation, now_ms: u64) -> (r: Option<TradeCommand>)
        requires
            old(self).wf(),
            observation_ok(*o, old(self).n_symbols as int),
        ensures
            final(self).wf(),
            final(self).cfg == old(self).cfg,
            final(self).n_symbols == old(self).n_symbols,
            (final(self).view(), r) == observe_spec(old(self).view(), *o, now_ms, old(self).cfg),
    {
        let cfg = self.cfg;
        let total = self.routes.len();
        assert(total == self.n_symbols * ROUTES_PER_SYMBOL);
        let slot = route_slot_of(&o.route, self.n_symbols);
        let ghost old_routes = self.routes@;
        let ghost old_view = self.view();
        assert(self.routes@[slot as int].history.wf());
        let sig = self.routes[slot].update(o, now_ms, &cfg);
        proof {
            assert(self.routes@ == old_routes.update(slot as int, self.routes@[slot as int]));
            assert(self.view().routes =~= old_view.routes.update(
                slot as int,
                self.routes@[slot as int].view(),
            ));
            assert forall|i: int| 0 <= i < self.routes@.len() implies (#[trigger] self.routes@[i]).history.wf()
                && self.routes@[i].history.cap() == self.cfg.history_capacity by {
                if i != slot {
                    assert(self.routes@[i] == old_routes[i]);
                }
            }
        }
        let cmd = match self.position {
            Position::Flat => {
                let entry = (sig.tier == TradeTier::GreatEntry || sig.tier == TradeTier::Sniper || (o.ttl
                    < cfg.urgent_payout_secs && sig.net_profit > cfg.urgent_profit))
                    && sig.streak >= cfg.min_streak && sig.stable;
                if entry {
                    self.position = Position::Open { route: o.route, entry_basis: o.basis };
                    Some(TradeCommand { kind: CommandKind::Open, route: o.route, basis: o.basis, tier: sig.tier })
                } else {
                    None
                }
            },
            Position::Open { route, entry_basis } => {
                if route == o.route {
                    let stop = (o.basis as i128) > (entry_basis as i128) + (cfg.stop_loss as i128);
                    let near = o.ttl < cfg.exit_payout_secs && (entry_basis as i128) - (o.basis as i128) > 0;
                    let exit = captured_exec(entry_basis, o.basis, cfg.take_profit_ratio) || stop
                        || near;
                    if exit {
                        self.position = Position::Flat;
                        Some(TradeCommand { kind: CommandKind::Close, route: o.route, basis: o.basis, tier: sig.tier })
                    } else {
                        None
                    }
                } else {
                    None
                }
            },
        };
        cmd
    }
}

/// Whether the position is open after `cmds`, starting open or not.
pub open spec fn open_after(start_open: bool, cmds: Seq<TradeCommand>) -> bool {
    if cmds.len() == 0 {
        start_open
    } else {
        cmds.last().kind == CommandKind::Open
    }
}

/// Each command finds the position in the state it needs: an open only
/// while flat, a close only while open.
pub open spec fn alternating(start_open: bool, cmds: Seq<TradeCommand>) -> bool
    decreases cmds.len(),
{
    if cmds.len() == 0 {
        true
    } else {
        let before = open_after(start_open, cmds.drop_last());
        alternating(start_open, cmds.drop_last()) && (cmds.last().kind == CommandKind::Open
            <==> !before)
    }
}

/// At most one position is ever open: over any run of observations the
/// commands alternate between open and close, starting from the engine's
/// position, and the position after the run is open exactly when the last
/// command opened it (or, with no command, when it was open before).
pub proof fn lemma_single_position(
    ev: EngineView,
    obs: Seq<RouteObservation>,
    now_ms: u64,
    cfg: EngineConfig,
)
    ensures
        alternating(ev.position is Open, run_spec(ev, obs, now_ms, cfg).1),
        run_spec(ev, obs, now_ms, cfg).0.position is Open == open_after(
            ev.position is Open,
            run_spec(ev, obs, now_ms, cfg).1,
        ),
    decreases obs.len(),
{
    if obs.len() > 0 {
        lemma_single_position(ev, obs.drop_last(), now_ms, cfg);
        let (ev1, cmds) = run_spec(ev, obs.drop_last(), now_ms, cfg);
        let (ev2, c) = observe_spec(ev1, obs.last(), now_ms, cfg);
        let all = cmds + opt_seq(c);
        match c {
            Some(x) => {
                assert(all.drop_last() =~= cmds);
                assert(all.last() == x);
            },
            None => {
                assert(all =~= cmds);
            },
        }
    }
}

impl Engine {
    /// Processes the observations of one tick in order and returns the
    /// commands emitted, in order.
    pub fn step(&mut self, obs: &[RouteObservation], now_ms: u64) -> (r: Vec<TradeCommand>)
        requires
            old(self).wf(),
            forall|i: int| 0 <= i < obs@.len() ==> observation_ok(#[trigger] obs@[i], old(self).n_symbols as int),
        ensures
            final(self).wf(),
            final(self).cfg == old(self).cfg,
            final(self).n_symbols == old(self).n_symbols,
            (final(self).view(), r@) == run_spec(old(self).view(), obs@, now_ms, old(self).cfg),
    {
        let ghost ev0 = self.view();
        let ghost cfg0 = self.cfg;
        let ghost n0 = self.n_symbols;
        let mut cmds: Vec<TradeCommand> = Vec::new();
        let mut i: usize = 0;
        while i < obs.len()
            invariant
                self.wf(),
                self.cfg == cfg0,
                self.n_symbols == n0,
                i <= obs@.len(),
                forall|j: int| 0 <= j < obs@.len() ==> observation_ok(#[trigger] obs@[j], n0 as int),
                (self.view(), cmds@) == run_spec(ev0, obs@.subrange(0, i as int), now_ms, cfg0),
            decreases obs@.len() - i,
        {
            let ghost before = cmds@;
            assert(observation_ok(obs@[i as int], n0 as int));
            let c = self.observe(&obs[i], now_ms);
            match c {
                Some(x) => {
                    cmds.push(x);
                },
                None => {},
            }
            proof {
                let next = obs@.subrange(0, i as int + 1);
                assert(next.drop_last() =~= obs@.subrange(0, i as int));
                assert(next.last() == obs@[i as int]);
                assert(cmds@ =~= before + opt_seq(c));
            }
            i += 1;
        }
        assert(obs@.subrange(0, obs@.len() as int) =~= obs@);
        cmds
    }
}

} // verus!
