use arb_engine::book::Level;
use arb_engine::market::Exchange;
use arb_engine::wire::{parse_decimal, parse_exchange, parse_levels, parse_tick, split_bytes};

#[test]
fn decimals_are_fixed_point() {
    assert_eq!(parse_decimal(b"101.5"), Some(10_150_000_000));
    assert_eq!(parse_decimal(b"0.0"), Some(0));
    assert_eq!(parse_decimal(b"7"), Some(700_000_000));
    assert_eq!(parse_decimal(b"-0.0001"), Some(-10_000));
    assert_eq!(parse_decimal(b"1.123456789"), Some(112_345_678));
    assert_eq!(parse_decimal(b"0.00000001"), Some(1));
}

#[test]
fn malformed_decimals_are_rejected() {
    assert_eq!(parse_decimal(b""), None);
    assert_eq!(parse_decimal(b"-"), None);
    assert_eq!(parse_decimal(b"1."), None);
    assert_eq!(parse_decimal(b".5"), None);
    assert_eq!(parse_decimal(b"1.2.3"), None);
    assert_eq!(parse_decimal(b"abc"), None);
    assert_eq!(parse_decimal(b"12a"), None);
    assert_eq!(parse_decimal(b"123456789"), None);
    assert_eq!(parse_decimal(b"10000001"), None);
}

#[test]
fn split_keeps_empty_pieces() {
    let parts = split_bytes(b"a::b:", b':');
    assert_eq!(parts, vec![b"a".to_vec(), vec![], b"b".to_vec(), vec![]]);
    assert_eq!(split_bytes(b"", b':'), vec![Vec::<u8>::new()]);
}

#[test]
fn exchange_names() {
    assert_eq!(parse_exchange(b"binance"), Some(Exchange::Binance));
    assert_eq!(parse_exchange(b"hyperliquid"), Some(Exchange::Hyperliquid));
    assert_eq!(parse_exchange(b"bybit"), Some(Exchange::Bybit));
    assert_eq!(parse_exchange(b"Binance"), None);
    assert_eq!(parse_exchange(b"okx"), None);
}

#[test]
fn depth_lists() {
    let levels = parse_levels(b"101.5,2,101,0.5").unwrap();
    assert_eq!(
        levels,
        vec![
            Level { price: 10_150_000_000, quantity: 200_000_000 },
            Level { price: 10_100_000_000, quantity: 50_000_000 },
        ]
    );
    assert_eq!(parse_levels(b""), Some(vec![]));
    assert_eq!(parse_levels(b"101.5,2,101"), None);
    assert_eq!(parse_levels(b"0,2"), None);
    assert_eq!(parse_levels(b"1,-2"), None);
    assert_eq!(parse_levels(b"1,x"), None);
}

#[test]
fn tick_record_parses() {
    let st = parse_tick(b"binance:BTC:101,1.5|102,2:-0.0001").unwrap();
    assert_eq!(st.exchange, Exchange::Binance);
    assert_eq!(st.symbol, b"BTC".to_vec());
    assert_eq!(st.bids, vec![Level { price: 10_100_000_000, quantity: 150_000_000 }]);
    assert_eq!(st.asks, vec![Level { price: 10_200_000_000, quantity: 200_000_000 }]);
    assert_eq!(st.funding, -10_000);
}

#[test]
fn malformed_ticks_are_dropped() {
    assert!(parse_tick(b"binance:BTC:101,1|102,2").is_none());
    assert!(parse_tick(b"binance:BTC:101,1|102,2:0.0:extra").is_none());
    assert!(parse_tick(b"kraken:BTC:101,1|102,2:0.0").is_none());
    assert!(parse_tick(b"binance:BTC:101,1;102,2:0.0").is_none());
    assert!(parse_tick(b"binance:BTC:101,1,5|102,2:0.0").is_none());
    assert!(parse_tick(b"binance:BTC:101,1|102,2:x").is_none());
    assert!(parse_tick(b"bybit:ETH:|3000,1:0.0").is_some());
}

use arb_engine::command::{format_command, render_fixed_bytes};
use arb_engine::engine::{CommandKind, RouteKey, TradeCommand};
use arb_engine::signal::TradeTier;

#[test]
fn fixed_point_rendering() {
    assert_eq!(render_fixed_bytes(1_130_000), b"0.01130000".to_vec());
    assert_eq!(render_fixed_bytes(-10_000), b"-0.00010000".to_vec());
    assert_eq!(render_fixed_bytes(12_345_000_000), b"123.45000000".to_vec());
    assert_eq!(render_fixed_bytes(0), b"0.00000000".to_vec());
}

#[test]
fn command_records() {
    let route = RouteKey { symbol: 0, short: Exchange::Binance, long: Exchange::Hyperliquid };
    let open = TradeCommand { kind: CommandKind::Open, route, basis: 1_000_000, tier: TradeTier::Sniper };
    assert_eq!(
        String::from_utf8(format_command(&open, b"X")).unwrap(),
        "CMD:OPEN|SYMBOL:X|S:binance|L:hyperliquid|BASIS:0.01000000|T:Sniper"
    );
    let close = TradeCommand {
        kind: CommandKind::Close,
        route: RouteKey { symbol: 0, short: Exchange::Bybit, long: Exchange::Binance },
        basis: 50_000,
        tier: TradeTier::GreatEntry,
    };
    assert_eq!(
        String::from_utf8(format_command(&close, b"ETH")).unwrap(),
        "CMD:CLOSE|SYM:ETH|S:bybit|L:binance"
    );
}
