use vstd::prelude::*;

use vstd::arithmetic::div_mod::lemma_div_multiples_vanish;

use crate::book::{level_ok, side_ok, Level, MAX_UNITS, ONE};

verus! {

/// Largest target notional accepted by `vwap`, in price units times quantity units.
pub const MAX_NOTIONAL: u128 = 10_000_000_000_000_000_000_000;

/// Number of top levels that the order-book imbalance looks at.
pub const OBI_DEPTH: usize = 5;

/// The fill walk from level `i`, having already taken notional `usd` and
/// quantity `qty`: the level whose notional reaches `target` is taken in part,
/// and the result is `target` over the total quantity, rounded down. When the
/// book runs out first, the deepest price is the result.
pub open spec fn vwap_from(levels: Seq<Level>, i: int, usd: int, qty: int, target: int) -> int
    decreases levels.len() - i,
{
    if i >= levels.len() {
        levels.last().price as int
    } else {
        let p = levels[i].price as int;
        let q = levels[i].quantity as int;
        if usd + p * q >= target {
            let den = qty * p + (target - usd);
            if den == 0 {
                p
            } else {
                (target * p) / den
            }
        } else {
            vwap_from(levels, i + 1, usd + p * q, qty + q, target)
        }
    }
}

/// Volume-weighted average price for filling `target` notional against the
/// levels in order; 0 for an empty side.
pub open spec fn vwap_spec(levels: Seq<Level>, target: int) -> int {
    if levels.len() == 0 {
        0
    } else {
        vwap_from(levels, 0, 0, 0, target)
    }
}

/// Total notional of the levels from `i` on.
pub open spec fn notional_from(levels: Seq<Level>, i: int) -> int
    decreases levels.len() - i,
{
    if i >= levels.len() {
        0
    } else {
        levels[i].price as int * levels[i].quantity as int + notional_from(levels, i + 1)
    }
}

/// Price of filling `target_notional` against one side of a book, walking
/// its levels best first and taking the crossing level in part.
pub fn vwap(levels: &[Level], target_notional: u128) -> (r: u128)
    requires
        side_ok(levels@),
        target_notional <= MAX_NOTIONAL,
    ensures
        r == vwap_spec(levels@, target_notional as int),
{
    if levels.len() == 0 {
        return 0;
    }
    let mut usd: u128 = 0;
    let mut qty: u128 = 0;
    let mut i: usize = 0;
    while i < levels.len()
        invariant
            side_ok(levels@),
            levels@.len() > 0,
            target_notional <= MAX_NOTIONAL,
            i <= levels@.len(),
            usd < target_notional || i == 0,
            usd == 0 || usd < target_notional,
            qty <= usd,
            vwap_spec(levels@, target_notional as int) == vwap_from(
                levels@,
                i as int,
                usd as int,
                qty as int,
                target_notional as int,
            ),
        decreases levels@.len() - i,
    {
        let lv = levels[i];
        assert(level_ok(levels@[i as int]));
        let p = lv.price as u128;
        let q = lv.quantity as u128;
        assert(p * q <= 1_000_000_000_000_000_000_000_000_000_000) by (nonlinear_arith)
            requires
                p <= 1_000_000_000_000_000,
                q <= 1_000_000_000_000_000,
        ;
        let level_value = p * q;
        if usd + level_value >= target_notional {
            let needed = target_notional - usd;
            assert(qty * p <= MAX_NOTIONAL * (MAX_UNITS as u128)) by (nonlinear_arith)
                requires
                    qty <= MAX_NOTIONAL,
                    p <= MAX_UNITS,
            ;
            assert(target_notional * p <= MAX_NOTIONAL * (MAX_UNITS as u128)) by (nonlinear_arith)
                requires
                    target_notional <= MAX_NOTIONAL,
                    p <= MAX_UNITS,
            ;
            let den = qty * p + needed;
            if den == 0 {
                return p;
            }
            return (target_notional * p) / den;
        }
        assert(q <= p * q) by (nonlinear_arith)
            requires
                1 <= p,
        ;
        usd = usd + level_value;
        qty = qty + q;
        i += 1;
    }
    levels[levels.len() - 1].price as u128
}

/// Depth-weighted volume of the first `OBI_DEPTH` levels from `i` on: level
/// `i` weighs `OBI_DEPTH - i`.
pub open spec fn weighted_volume_from(levels: Seq<Level>, i: int) -> int
    decreases OBI_DEPTH - i,
{
    if i >= OBI_DEPTH || i >= levels.len() || i < 0 {
        0
    } else {
        levels[i].quantity as int * (OBI_DEPTH - i) + weighted_volume_from(levels, i + 1)
    }
}

/// Depth-weighted volume of a side.
pub open spec fn weighted_volume(levels: Seq<Level>) -> int {
    weighted_volume_from(levels, 0)
}

/// A quotient rounded toward zero.
pub open spec fn div_toward_zero(a: int, b: int) -> int {
    if a >= 0 {
        a / b
    } else {
        -((-a) / b)
    }
}

/// `(bid volume - ask volume) / (bid volume + ask volume)` in units of `ONE`,
/// rounded toward zero; 0 when both volumes are 0.
pub open spec fn obi_spec(bids: Seq<Level>, asks: Seq<Level>) -> int {
    let b = weighted_volume(bids);
    let a = weighted_volume(asks);
    if b + a == 0 {
        0
    } else {
        div_toward_zero((b - a) * ONE, b + a)
    }
}

proof fn lemma_weighted_volume_bounds(levels: Seq<Level>, i: int)
    requires
        side_ok(levels),
        0 <= i,
    ensures
        0 <= weighted_volume_from(levels, i),
        i < OBI_DEPTH ==> weighted_volume_from(levels, i) <= 25 * MAX_UNITS - i * 5 * MAX_UNITS,
        i >= OBI_DEPTH ==> weighted_volume_from(levels, i) == 0,
    decreases OBI_DEPTH - i,
{
    if i < OBI_DEPTH && i < levels.len() {
        lemma_weighted_volume_bounds(levels, i + 1);
        assert(level_ok(levels[i]));
        let q = levels[i].quantity as int;
        assert(0 <= q * (OBI_DEPTH - i) <= 5 * MAX_UNITS) by (nonlinear_arith)
            requires
                0 <= q <= MAX_UNITS,
                0 <= i < OBI_DEPTH,
        ;
    }
}

/// Weighted volume of one side, over its first `OBI_DEPTH` levels.
fn side_weighted_volume(levels: &[Level]) -> (r: u128)
    requires
        side_ok(levels@),
    ensures
        r == weighted_volume(levels@),
        r <= 25 * MAX_UNITS,
{
    let mut sum: u128 = 0;
    let mut i: usize = 0;
    let n: usize = if levels.len() < OBI_DEPTH { levels.len() } else { OBI_DEPTH };
    while i < n
        invariant
            side_ok(levels@),
            n <= OBI_DEPTH,
            n <= levels@.len(),
            n == levels@.len() || n == OBI_DEPTH,
            i <= n,
            sum + weighted_volume_from(levels@, i as int) == weighted_volume(levels@),
            sum <= 25 * MAX_UNITS,
        decreases n - i,
    {
        proof {
            lemma_weighted_volume_bounds(levels@, 0);
            lemma_weighted_volume_bounds(levels@, i as int + 1);
        }
        assert(level_ok(levels@[i as int]));
        let w = (OBI_DEPTH - i) as u128;
        let q = levels[i].quantity as u128;
        assert(q * w <= MAX_UNITS * 5) by (nonlinear_arith)
            requires
                q <= MAX_UNITS,
                w <= 5,
        ;
        sum = sum + q * w;
        i += 1;
    }
    proof {
        lemma_weighted_volume_bounds(levels@, 0);
    }
    sum
}

/// Order-book imbalance over the top `OBI_DEPTH` levels, in units of `ONE`.
pub fn weighted_obi(bids: &[Level], asks: &[Level]) -> (r: i64)
    requires
        side_ok(bids@),
        side_ok(asks@),
    ensures
        r == obi_spec(bids@, asks@),
        -(ONE as int) <= r <= ONE,
{
    let b = side_weighted_volume(bids);
    let a = side_weighted_volume(asks);
    if b + a == 0 {
        return 0;
    }
    if b >= a {
        let d = b - a;
        assert(d * (ONE as u128) <= 10_000_000_000_000_000_000_000_000) by (nonlinear_arith)
            requires
                d <= b + a,
                b + a <= 50_000_000_000_000_000,
                ONE == 100_000_000,
        ;
        let r = (d * (ONE as u128)) / (b + a);
        assert(r <= ONE) by (nonlinear_arith)
            requires
                r == (d * (ONE as u128)) / (b + a),
                d <= b + a,
                b + a > 0,
        ;
        r as i64
    } else {
        let d = a - b;
        assert(d * (ONE as u128) <= 10_000_000_000_000_000_000_000_000) by (nonlinear_arith)
            requires
                d <= b + a,
                b + a <= 50_000_000_000_000_000,
                ONE == 100_000_000,
        ;
        let r = (d * (ONE as u128)) / (b + a);
        assert(r <= ONE) by (nonlinear_arith)
            requires
                r == (d * (ONE as u128)) / (b + a),
                d <= b + a,
                b + a > 0,
        ;
        -(r as i64)
    }
}

} // verus!

verus! {

/// Filling at most the notional of a single level costs exactly that
/// level's price.
pub proof fn lemma_vwap_single_level(l: Level, target: int)
    requires
        level_ok(l),
        0 <= target <= l.price as int * l.quantity as int,
    ensures
        vwap_spec(seq![l], target) == l.price,
{
    let s = seq![l];
    let p = l.price as int;
    assert(s[0] == l);
    assert(vwap_from(s, 0, 0, 0, target) == if target == 0 { p } else { (target * p) / target }) by {
        assert(0 * p == 0);
    }
    if target != 0 {
        lemma_div_multiples_vanish(p, target);
        assert(target * p == p * target) by (nonlinear_arith);
    }
}

proof fn lemma_notional_nonneg(levels: Seq<Level>, i: int)
    ensures
        notional_from(levels, i) >= 0,
    decreases levels.len() - i,
{
    if i < levels.len() {
        lemma_notional_nonneg(levels, i + 1);
        let p = levels[i].price as int;
        let q = levels[i].quantity as int;
        assert(p * q >= 0) by (nonlinear_arith)
            requires
                p >= 0,
                q >= 0,
        ;
    }
}

proof fn lemma_vwap_walk_exhausts(levels: Seq<Level>, i: int, usd: int, qty: int, target: int)
    requires
        0 <= i <= levels.len(),
        usd + notional_from(levels, i) < target,
    ensures
        vwap_from(levels, i, usd, qty, target) == levels.last().price,
    decreases levels.len() - i,
{
    if i < levels.len() {
        lemma_notional_nonneg(levels, i + 1);
        let p = levels[i].price as int;
        let q = levels[i].quantity as int;
        lemma_vwap_walk_exhausts(levels, i + 1, usd + p * q, qty + q, target);
    }
}

/// A target beyond the whole side's notional is priced at the deepest level.
pub proof fn lemma_vwap_insufficient_depth(levels: Seq<Level>, target: int)
    requires
        levels.len() > 0,
        target > notional_from(levels, 0),
    ensures
        vwap_spec(levels, target) == levels.last().price,
{
    lemma_vwap_walk_exhausts(levels, 0, 0, 0, target);
}

/// The imbalance of two empty sides is 0; of sides with equal weighted
/// volume, 0; of a book with bids only, `ONE`; with asks only, `-ONE`.
pub proof fn lemma_obi_cases(bids: Seq<Level>, asks: Seq<Level>)
    ensures
        bids.len() == 0 && asks.len() == 0 ==> obi_spec(bids, asks) == 0,
        weighted_volume(bids) == weighted_volume(asks) ==> obi_spec(bids, asks) == 0,
        asks.len() == 0 && weighted_volume(bids) > 0 ==> obi_spec(bids, asks) == ONE,
        bids.len() == 0 && weighted_volume(asks) > 0 ==> obi_spec(bids, asks) == -(ONE as int),
{
    let b = weighted_volume(bids);
    let a = weighted_volume(asks);
    assert(bids.len() == 0 ==> b == 0);
    assert(asks.len() == 0 ==> a == 0);
    if asks.len() == 0 && b > 0 {
        lemma_div_multiples_vanish(ONE as int, b);
        assert(b * ONE == ONE * b) by (nonlinear_arith);
    }
    if bids.len() == 0 && a > 0 {
        lemma_div_multiples_vanish(ONE as int, a);
        assert((-(0 - a)) * ONE == ONE * a) by (nonlinear_arith);
        assert((0 - a) * ONE < 0) by (nonlinear_arith)
            requires
                a > 0,
        ;
    }
}

} // verus!
