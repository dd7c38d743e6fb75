use arb_engine::config::EngineConfig;
use arb_engine::engine::{CommandKind, Engine, Position, RouteKey, TradeCommand};
use arb_engine::market::{Exchange, MarketStore};
use arb_engine::signal::TradeTier;
use arb_engine::wire::parse_tick;

fn feed(store: &mut MarketStore, line: &str) {
    let st = parse_tick(line.as_bytes()).expect("well-formed tick");
    assert!(store.upsert(st));
}

fn route_x() -> RouteKey {
    RouteKey { symbol: 0, short: Exchange::Binance, long: Exchange::Hyperliquid }
}

#[test]
fn end_to_end_open_then_close() {
    let cfg = EngineConfig::standard();
    let mut store = MarketStore::new(vec![b"X".to_vec()]);
    let mut engine = Engine::new(cfg, 1);
    feed(&mut store, "hyperliquid:X:99,100|100,100:0.0");
    let mut opened = Vec::new();
    for i in 0..14u64 {
        feed(&mut store, &format!("binance:X:101.{:02},100|102.5,100:0.0", i));
        let cmds = engine.tick(&store, 200 * i, 1_000);
        opened.extend(cmds);
    }
    // basis (101.13 - 100) / 100 = 1.13%
    assert_eq!(
        opened,
        vec![TradeCommand { kind: CommandKind::Open, route: route_x(), basis: 1_130_000, tier: TradeTier::Sniper }]
    );
    assert_eq!(engine.position, Position::Open { route: route_x(), entry_basis: 1_130_000 });

    feed(&mut store, "binance:X:100.1,100|102.5,100:0.0");
    let cmds = engine.tick(&store, 3_000, 1_000);
    assert_eq!(cmds.len(), 1);
    assert_eq!(cmds[0].kind, CommandKind::Close);
    assert_eq!(cmds[0].route, route_x());
    assert_eq!(cmds[0].basis, 100_000);
    assert_eq!(engine.position, Position::Flat);
}

#[test]
fn first_basis_of_example_books() {
    let cfg = EngineConfig::standard();
    let mut store = MarketStore::new(vec![b"X".to_vec()]);
    let mut engine = Engine::new(cfg, 1);
    feed(&mut store, "binance:X:101,100|102,100:0.0");
    feed(&mut store, "hyperliquid:X:99,100|100,100:0.0");
    let cmds = engine.tick(&store, 0, 1_000);
    assert!(cmds.is_empty());
    // slot 0: Binance short, Hyperliquid long
    let slot = 0;
    assert_eq!(engine.routes[slot].history.values(), &[1_000_000]);
}

#[test]
fn only_one_position_is_ever_open() {
    let cfg = EngineConfig::standard();
    let mut store = MarketStore::new(vec![b"X".to_vec(), b"Y".to_vec()]);
    let mut engine = Engine::new(cfg, 2);
    feed(&mut store, "hyperliquid:X:99,100|100,100:0.0");
    feed(&mut store, "hyperliquid:Y:99,100|100,100:0.0");
    let mut all = Vec::new();
    for i in 0..20u64 {
        feed(&mut store, &format!("binance:X:101.{:02},100|102.5,100:0.0", i));
        feed(&mut store, &format!("binance:Y:101.{:02},100|102.5,100:0.0", i));
        all.extend(engine.tick(&store, 200 * i, 1_000));
    }
    let opens: Vec<_> = all.iter().filter(|c| c.kind == CommandKind::Open).collect();
    assert_eq!(opens.len(), 1);
    assert_eq!(opens[0].route.symbol, 0);
    assert!(matches!(engine.position, Position::Open { .. }));
}

#[test]
fn unstable_imbalance_blocks_entry() {
    let cfg = EngineConfig::standard();
    let mut store = MarketStore::new(vec![b"X".to_vec()]);
    let mut engine = Engine::new(cfg, 1);
    // the short leg's book is all bids: imbalance 1, above 0.6
    feed(&mut store, "hyperliquid:X:99,100|100,100:0.0");
    let mut all = Vec::new();
    for i in 0..20u64 {
        feed(&mut store, &format!("binance:X:101.{:02},100|:0.0", i));
        all.extend(engine.tick(&store, 200 * i, 1_000));
    }
    assert!(all.is_empty());
    assert_eq!(engine.position, Position::Flat);
}

#[test]
fn reingesting_same_tick_changes_nothing() {
    let mut store = MarketStore::new(vec![b"BTC".to_vec()]);
    let line = "bybit:BTC:50000,2|50001,3:0.0001";
    feed(&mut store, line);
    let once = format!("{:?}", store.slots);
    feed(&mut store, line);
    assert_eq!(format!("{:?}", store.slots), once);
    let st = store.slots[2].as_ref().unwrap();
    assert_eq!(st.bids.len(), 1);
    assert_eq!(st.funding, 10_000);
}

#[test]
fn unwatched_or_unusable_snapshots_are_not_stored() {
    let mut store = MarketStore::new(vec![b"BTC".to_vec()]);
    let st = parse_tick(b"binance:DOGE:1,1|2,1:0.0").unwrap();
    assert!(!store.upsert(st));
    assert!(store.slots.iter().all(|s| s.is_none()));
}

#[test]
fn offline_feed_yields_no_route() {
    let cfg = EngineConfig::standard();
    let mut store = MarketStore::new(vec![b"X".to_vec()]);
    let mut engine = Engine::new(cfg, 1);
    feed(&mut store, "binance:X:101,100|102,100:0.0");
    assert!(engine.tick(&store, 0, 0).is_empty());
    assert!(engine.routes.iter().all(|r| r.history.len() == 0));
}

#[test]
fn stop_loss_closes() {
    let cfg = EngineConfig::standard();
    let mut store = MarketStore::new(vec![b"X".to_vec()]);
    let mut engine = Engine::new(cfg, 1);
    feed(&mut store, "hyperliquid:X:99,100|100,100:0.0");
    for i in 0..14u64 {
        feed(&mut store, &format!("binance:X:101.{:02},100|102.5,100:0.0", i));
        engine.tick(&store, 200 * i, 1_000);
    }
    assert!(matches!(engine.position, Position::Open { .. }));
    // 1.13% -> 1.24%: wider than entry by more than 0.10%
    feed(&mut store, "binance:X:101.24,100|102.5,100:0.0");
    let cmds = engine.tick(&store, 3_000, 1_000);
    assert_eq!(cmds.len(), 1);
    assert_eq!(cmds[0].kind, CommandKind::Close);
}

#[test]
fn disordered_levels_are_not_stored() {
    let mut store = MarketStore::new(vec![b"BTC".to_vec()]);
    let rising_bids = parse_tick(b"binance:BTC:100,1,101,1|102,1:0.0").unwrap();
    assert!(!store.upsert(rising_bids));
    let falling_asks = parse_tick(b"binance:BTC:100,1|103,1,102,1:0.0").unwrap();
    assert!(!store.upsert(falling_asks));
    assert!(store.slots.iter().all(|s| s.is_none()));
    let good = parse_tick(b"binance:BTC:101,1,100,1|102,1,103,1:0.0").unwrap();
    assert!(store.upsert(good));
    assert!(store.slots[0].is_some());
}

#[test]
fn streak_grows_on_slow_rise() {
    let cfg = EngineConfig::standard();
    let mut store = MarketStore::new(vec![b"X".to_vec()]);
    let mut engine = Engine::new(cfg, 1);
    feed(&mut store, "hyperliquid:X:99,100|100,100:0.0");
    for i in 0..9u64 {
        feed(&mut store, "binance:X:101,100|102.5,100:0.0");
        engine.tick(&store, 200 * i, 1_000);
    }
    assert_eq!(engine.routes[0].streak, 0);
    // the basis rises by one unit of 1e-8 on the tenth tick only
    feed(&mut store, "binance:X:101.000001,100|102.5,100:0.0");
    engine.tick(&store, 1_800, 1_000);
    assert_eq!(engine.routes[0].history.values()[9], 1_000_001);
    assert_eq!(engine.routes[0].streak, 1);
}

#[test]
fn repeated_watchlist_symbol_uses_first_slot() {
    let mut store = MarketStore::new(vec![b"BTC".to_vec(), b"BTC".to_vec()]);
    feed(&mut store, "binance:BTC:101,1|102,1:0.0");
    assert!(store.slots[0].is_some());
    assert!(store.slots[1].is_none());
}
