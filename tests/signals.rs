use arb_engine::config::EngineConfig;
use arb_engine::market::Exchange;
use arb_engine::payout::seconds_to_payout_at;
use arb_engine::signal::{get_trade_tier, TradeSentinel, TradeTier};

#[test]
fn tiers_follow_thresholds() {
    let cfg = EngineConfig::standard();
    assert_eq!(get_trade_tier(-1, &cfg), TradeTier::Noise);
    assert_eq!(get_trade_tier(19_999, &cfg), TradeTier::Noise);
    assert_eq!(get_trade_tier(20_000, &cfg), TradeTier::Acceptable);
    assert_eq!(get_trade_tier(49_999, &cfg), TradeTier::Acceptable);
    assert_eq!(get_trade_tier(50_000, &cfg), TradeTier::GreatEntry);
    assert_eq!(get_trade_tier(149_999, &cfg), TradeTier::GreatEntry);
    assert_eq!(get_trade_tier(150_000, &cfg), TradeTier::Sniper);
}

#[test]
fn sentinel_needs_unbroken_cooldown() {
    let mut s = TradeSentinel::new(500);
    assert!(!s.check_obi_stability(true, 1_000));
    assert!(!s.check_obi_stability(true, 1_499));
    assert!(s.check_obi_stability(true, 1_500));
    assert!(!s.check_obi_stability(false, 1_600));
    assert_eq!(s.first_favorable_ms, None);
    assert!(!s.check_obi_stability(true, 1_700));
    assert!(!s.check_obi_stability(true, 2_100));
    assert!(s.check_obi_stability(true, 2_200));
}

#[test]
fn payout_windows() {
    assert_eq!(seconds_to_payout_at(Exchange::Hyperliquid, 0, 3_599), 1);
    assert_eq!(seconds_to_payout_at(Exchange::Hyperliquid, 0, 7_200), 3_600);
    assert_eq!(seconds_to_payout_at(Exchange::Binance, 1_000_000, 0), 28_800);
    assert_eq!(seconds_to_payout_at(Exchange::Binance, 3_000_000, 100), 3_500);
    assert_eq!(seconds_to_payout_at(Exchange::Binance, -3_000_000, 100), 3_500);
    assert_eq!(seconds_to_payout_at(Exchange::Bybit, 50_000_000, 28_800), 28_800);
    assert_eq!(seconds_to_payout_at(Exchange::Bybit, 0, 86_399), 1);
}
