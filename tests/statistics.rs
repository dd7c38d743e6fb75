use arb_engine::book::{Level, ONE};
use arb_engine::history::BasisHistory;
use arb_engine::series::{isqrt, regression_slope, std_dev};
use arb_engine::stats::{vwap, weighted_obi};

fn lv(price: u64, quantity: u64) -> Level {
    Level { price, quantity }
}

#[test]
fn vwap_single_level_is_its_price() {
    let levels = vec![lv(250, 40)];
    assert_eq!(vwap(&levels, 10_000), 250);
    assert_eq!(vwap(&levels, 3_333), 250);
    assert_eq!(vwap(&levels, 1), 250);
    assert_eq!(vwap(&levels, 0), 250);
}

#[test]
fn vwap_insufficient_depth_is_deepest_price() {
    let levels = vec![lv(100, 10), lv(110, 10)];
    assert_eq!(vwap(&levels, 5_000), 110);
}

#[test]
fn vwap_empty_side_is_zero() {
    assert_eq!(vwap(&[], 1_000), 0);
}

#[test]
fn vwap_partial_fill_interpolates() {
    // 1000 from the first level, 500 of 1100 from the second:
    // 1500 / (10 + 500 / 110) = 103.125, rounded down
    let levels = vec![lv(100, 10), lv(110, 10)];
    assert_eq!(vwap(&levels, 1_500), 103);
}

#[test]
fn obi_empty_book_is_zero() {
    assert_eq!(weighted_obi(&[], &[]), 0);
}

#[test]
fn obi_symmetric_is_zero() {
    let bids = vec![lv(10, 3), lv(9, 4)];
    let asks = vec![lv(11, 3), lv(12, 4)];
    assert_eq!(weighted_obi(&bids, &asks), 0);
}

#[test]
fn obi_one_sided_books() {
    let side = vec![lv(10, 3), lv(9, 4)];
    assert_eq!(weighted_obi(&side, &[]), ONE as i64);
    assert_eq!(weighted_obi(&[], &side), -(ONE as i64));
}

#[test]
fn obi_weights_by_depth() {
    // bids: 10 * 5 = 50; asks: 30 * 5 = 150; (50 - 150) / 200 = -0.5
    assert_eq!(weighted_obi(&[lv(1, 10)], &[lv(1, 30)]), -50_000_000);
    // the sixth level is ignored
    let bids = vec![lv(6, 1), lv(5, 1), lv(4, 1), lv(3, 1), lv(2, 1), lv(1, 1000)];
    let asks = vec![lv(7, 1), lv(8, 1), lv(9, 1), lv(10, 1), lv(11, 1)];
    assert_eq!(weighted_obi(&bids, &asks), 0);
}

#[test]
fn slope_constant_series_is_zero() {
    let data = vec![42i64; 15];
    assert_eq!(regression_slope(&data), 0);
}

#[test]
fn slope_arithmetic_series_is_its_step() {
    let up: Vec<i64> = (0..12).map(|i| 7 + 3 * i).collect();
    assert_eq!(regression_slope(&up), 3);
    let down: Vec<i64> = (0..20).map(|i| 100 - 2 * i).collect();
    assert_eq!(regression_slope(&down), -2);
}

#[test]
fn slope_short_series_is_zero() {
    let data: Vec<i64> = (0..9).map(|i| 5 * i).collect();
    assert_eq!(regression_slope(&data), 0);
}

#[test]
fn std_dev_degenerate_cases_are_zero() {
    assert_eq!(std_dev(&[]), 0);
    assert_eq!(std_dev(&[17]), 0);
    assert_eq!(std_dev(&vec![-5i64; 30]), 0);
}

#[test]
fn std_dev_population_value() {
    assert_eq!(std_dev(&[2, 4, 4, 4, 5, 5, 7, 9]), 2);
}

#[test]
fn isqrt_rounds_down() {
    assert_eq!(isqrt(0), 0);
    assert_eq!(isqrt(15), 3);
    assert_eq!(isqrt(16), 4);
    assert_eq!(isqrt(1_000_000_000_000_000_000_000_000), 1_000_000_000_000);
}

#[test]
fn history_keeps_most_recent_capacity() {
    let mut h = BasisHistory::new(3);
    for v in [1i64, 2, 3, 4] {
        h.push(v);
    }
    assert_eq!(h.values(), &[2, 3, 4]);
    assert_eq!(h.len(), 3);
    h.push(5);
    assert_eq!(h.values(), &[3, 4, 5]);
}

#[test]
fn slope_small_rise_is_positive() {
    // exact slope 45/825 of a unit per step
    let mut data = vec![0i64; 9];
    data.push(1);
    assert_eq!(regression_slope(&data), 1);
    let mut fall = vec![0i64; 9];
    fall.push(-1);
    assert_eq!(regression_slope(&fall), -1);
    // exact slopes are not changed by the rounding
    let up: Vec<i64> = (0..10).map(|i| 5 * i).collect();
    assert_eq!(regression_slope(&up), 5);
}
