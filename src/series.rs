use vstd::prelude::*;

use vstd::arithmetic::div_mod::{
    lemma_div_is_ordered, lemma_div_multiples_vanish, lemma_fundamental_div_mod_converse,
};

verus! {

/// Largest magnitude of a value in a series, in units of `ONE`.
pub const MAX_BASIS: i64 = 1_000_000_000_000;

/// Longest series that the statistics accept.
pub const MAX_SERIES_LEN: usize = 4096;

/// Fewest points for which a regression slope is computed.
pub const MIN_SLOPE_POINTS: usize = 10;

/// Every value of the series lies within `MAX_BASIS` of zero.
pub open spec fn series_ok(s: Seq<i64>) -> bool {
    s.len() <= MAX_SERIES_LEN && forall|i: int|
        0 <= i < s.len() ==> -MAX_BASIS <= #[trigger] s[i] <= MAX_BASIS
}

/// Sum of the indices below `k`.
pub open spec fn sum_x(k: int) -> int
    decreases k,
{
    if k <= 0 {
        0
    } else {
        sum_x(k - 1) + (k - 1)
    }
}

/// Sum of the squared indices below `k`.
pub open spec fn sum_xx(k: int) -> int
    decreases k,
{
    if k <= 0 {
        0
    } else {
        sum_xx(k - 1) + (k - 1) * (k - 1)
    }
}

/// Sum of the first `k` values.
pub open spec fn sum_y(s: Seq<i64>, k: int) -> int
    decreases k,
{
    if k <= 0 {
        0
    } else {
        sum_y(s, k - 1) + s[k - 1]
    }
}

/// Sum of index times value over the first `k` values.
pub open spec fn sum_xy(s: Seq<i64>, k: int) -> int
    decreases k,
{
    if k <= 0 {
        0
    } else {
        sum_xy(s, k - 1) + (k - 1) * s[k - 1]
    }
}

/// Sum of the squared values over the first `k` values.
pub open spec fn sum_yy(s: Seq<i64>, k: int) -> int
    decreases k,
{
    if k <= 0 {
        0
    } else {
        sum_yy(s, k - 1) + s[k - 1] * s[k - 1]
    }
}

/// Numerator of the least-squares slope of value against index.
pub open spec fn slope_num(s: Seq<i64>) -> int {
    let n = s.len() as int;
    n * sum_xy(s, n) - sum_x(n) * sum_y(s, n)
}

/// Denominator of the least-squares slope of value against index.
pub open spec fn slope_den(n: int) -> int {
    n * sum_xx(n) - sum_x(n) * sum_x(n)
}

/// A quotient by a positive divisor, rounded away from zero, so that a
/// nonzero quotient keeps the dividend's sign.
pub open spec fn div_away_from_zero(a: int, b: int) -> int {
    if a >= 0 {
        (a + b - 1) / b
    } else {
        -((-a + b - 1) / b)
    }
}

/// Least-squares slope of value against index, rounded away from zero so
/// that any rise, however small, counts as a positive slope; 0 for fewer
/// than `MIN_SLOPE_POINTS` points.
pub open spec fn slope_spec(s: Seq<i64>) -> int {
    if s.len() < MIN_SLOPE_POINTS {
        0
    } else {
        div_away_from_zero(slope_num(s), slope_den(s.len() as int))
    }
}

/// Population variance `(n * sum of squares - sum^2) / n^2`, rounded down; 0
/// for fewer than two points.
pub open spec fn variance_spec(s: Seq<i64>) -> int {
    let n = s.len() as int;
    let v = n * sum_yy(s, n) - sum_y(s, n) * sum_y(s, n);
    if n < 2 || v <= 0 {
        0
    } else {
        v / (n * n)
    }
}

proof fn lemma_sum_x_closed(n: int)
    requires
        n >= 0,
    ensures
        2 * sum_x(n) == n * (n - 1),
    decreases n,
{
    if n > 0 {
        lemma_sum_x_closed(n - 1);
        assert(sum_x(n) == sum_x(n - 1) + (n - 1));
        assert(2 * sum_x(n) == n * (n - 1)) by (nonlinear_arith)
            requires
                2 * sum_x(n - 1) == (n - 1) * (n - 2),
                sum_x(n) == sum_x(n - 1) + (n - 1),
        ;
    } else {
        assert(n * (n - 1) == 0) by (nonlinear_arith)
            requires
                n == 0,
        ;
    }
}

proof fn lemma_sum_xx_closed(n: int)
    requires
        n >= 0,
    ensures
        6 * sum_xx(n) == (n - 1) * n * (2 * n - 1),
    decreases n,
{
    if n > 0 {
        lemma_sum_xx_closed(n - 1);
        assert(sum_xx(n) == sum_xx(n - 1) + (n - 1) * (n - 1));
        assert(6 * sum_xx(n) == (n - 1) * n * (2 * n - 1)) by (nonlinear_arith)
            requires
                6 * sum_xx(n - 1) == (n - 2) * (n - 1) * (2 * n - 3),
                sum_xx(n) == sum_xx(n - 1) + (n - 1) * (n - 1),
        ;
    } else {
        assert((n - 1) * n * (2 * n - 1) == 0) by (nonlinear_arith)
            requires
                n == 0,
        ;
    }
}

/// With two or more points the slope's denominator is positive:
/// `12 * den == n^2 * (n^2 - 1)`.
pub proof fn lemma_slope_den_positive(n: int)
    requires
        n >= 2,
    ensures
        slope_den(n) > 0,
        12 * slope_den(n) == n * n * (n * n - 1),
{
    lemma_sum_x_closed(n);
    lemma_sum_xx_closed(n);
    let sx = sum_x(n);
    let sxx = sum_xx(n);
    assert(12 * (n * sxx - sx * sx) == n * n * (n * n - 1)) by (nonlinear_arith)
        requires
            2 * sx == n * (n - 1),
            6 * sxx == (n - 1) * n * (2 * n - 1),
    ;
    assert(n * n * (n * n - 1) > 0) by (nonlinear_arith)
        requires
            n >= 2,
    ;
}

proof fn lemma_div_away_sign(a: int, b: int)
    requires
        b > 0,
    ensures
        div_away_from_zero(a, b) > 0 <==> a > 0,
        div_away_from_zero(a, b) < 0 <==> a < 0,
{
    if a > 0 {
        lemma_div_is_ordered(b, a + b - 1, b);
        lemma_div_multiples_vanish(1, b);
        assert(b * 1 == b);
    } else if a < 0 {
        lemma_div_is_ordered(b, -a + b - 1, b);
        lemma_div_multiples_vanish(1, b);
        assert(b * 1 == b);
    } else {
        lemma_fundamental_div_mod_converse(b - 1, b, 0, b - 1);
    }
}

/// With at least `MIN_SLOPE_POINTS` values the slope has the sign of its
/// numerator; with fewer it is 0.
pub proof fn lemma_slope_sign(s: Seq<i64>)
    ensures
        s.len() >= MIN_SLOPE_POINTS ==> (slope_spec(s) > 0 <==> slope_num(s) > 0) && (slope_spec(s)
            < 0 <==> slope_num(s) < 0),
        s.len() < MIN_SLOPE_POINTS ==> slope_spec(s) == 0,
{
    if s.len() >= MIN_SLOPE_POINTS {
        lemma_slope_den_positive(s.len() as int);
        lemma_div_away_sign(slope_num(s), slope_den(s.len() as int));
    }
}

/// `r` is the integer square root of `v`.
pub open spec fn is_isqrt(r: int, v: int) -> bool {
    0 <= r && r * r <= v < (r + 1) * (r + 1)
}

/// Integer square root, by bisection.
pub fn isqrt(v: u128) -> (r: u64)
    requires
        v < 0x10000000000000000000000000,
    ensures
        is_isqrt(r as int, v as int),
{
    let mut lo: u64 = 0;
    let mut hi: u64 = 0x4000000000000;
    assert(hi * hi == 0x10000000000000000000000000) by (nonlinear_arith)
        requires
            hi == 0x4000000000000,
    ;
    while hi - lo > 1
        invariant
            lo < hi,
            hi <= 0x4000000000000,
            lo * lo <= v,
            v < hi * hi,
        decreases hi - lo,
    {
        let mid = lo + (hi - lo) / 2;
        assert(mid * mid <= 0x10000000000000000000000000) by (nonlinear_arith)
            requires
                mid <= 0x4000000000000,
        ;
        if (mid as u128) * (mid as u128) <= v {
            lo = mid;
        } else {
            hi = mid;
        }
    }
    lo
}

proof fn lemma_term_bound(i: int, y: int)
    requires
        0 <= i < 4096,
        -1_000_000_000_000 <= y <= 1_000_000_000_000,
    ensures
        -4_096_000_000_000_000 <= i * y <= 4_096_000_000_000_000,
        0 <= y * y <= 1_000_000_000_000_000_000_000_000,
        0 <= i * i <= 16_777_216,
{
    assert(-4_096_000_000_000_000 <= i * y <= 4_096_000_000_000_000) by (nonlinear_arith)
        requires
            0 <= i < 4096,
            -1_000_000_000_000 <= y <= 1_000_000_000_000,
    ;
    assert(0 <= y * y <= 1_000_000_000_000_000_000_000_000) by (nonlinear_arith)
        requires
            -1_000_000_000_000 <= y <= 1_000_000_000_000,
    ;
    assert(0 <= i * i <= 16_777_216) by (nonlinear_arith)
        requires
            0 <= i < 4096,
    ;
}

/// The five running sums of a series, computed in one pass.
struct Sums {
    x: i128,
    xx: i128,
    y: i128,
    xy: i128,
    yy: i128,
}

fn series_sums(data: &[i64]) -> (r: Sums)
    requires
        series_ok(data@),
    ensures
        r.x == sum_x(data@.len() as int),
        r.xx == sum_xx(data@.len() as int),
        r.y == sum_y(data@, data@.len() as int),
        r.xy == sum_xy(data@, data@.len() as int),
        r.yy == sum_yy(data@, data@.len() as int),
        0 <= r.x <= 16_777_216,
        0 <= r.xx <= 68_719_476_736,
        -4_096_000_000_000_000 <= r.y <= 4_096_000_000_000_000,
        -16_777_216_000_000_000_000 <= r.xy <= 16_777_216_000_000_000_000,
        0 <= r.yy <= data@.len() * 1_000_000_000_000_000_000_000_000,
{
    let mut s = Sums { x: 0, xx: 0, y: 0, xy: 0, yy: 0 };
    let mut i: usize = 0;
    while i < data.len()
        invariant
            series_ok(data@),
            i <= data@.len(),
            s.x == sum_x(i as int),
            s.xx == sum_xx(i as int),
            s.y == sum_y(data@, i as int),
            s.xy == sum_xy(data@, i as int),
            s.yy == sum_yy(data@, i as int),
            0 <= s.x <= i * 4096,
            0 <= s.xx <= i * 16_777_216,
            -(i * 1_000_000_000_000) <= s.y <= i * 1_000_000_000_000,
            -(i * 4_096_000_000_000_000) <= s.xy <= i * 4_096_000_000_000_000,
            0 <= s.yy <= i * 1_000_000_000_000_000_000_000_000,
        decreases data@.len() - i,
    {
        let y = data[i] as i128;
        let x = i as i128;
        proof {
            assert(-MAX_BASIS <= data@[i as int] <= MAX_BASIS);
            lemma_term_bound(i as int, y as int);
        }
        s.x = s.x + x;
        s.xx = s.xx + x * x;
        s.y = s.y + y;
        s.xy = s.xy + x * y;
        s.yy = s.yy + y * y;
        i += 1;
    }
    s
}

/// Least-squares slope of the series against its index, in the units of
/// its values per step, rounded away from zero: its sign is the sign of the
/// exact slope.
pub fn regression_slope(data: &[i64]) -> (r: i128)
    requires
        series_ok(data@),
    ensures
        r == slope_spec(data@),
        data@.len() >= MIN_SLOPE_POINTS ==> (r > 0 <==> slope_num(data@) > 0) && (r < 0
            <==> slope_num(data@) < 0),
{
    if data.len() < MIN_SLOPE_POINTS {
        return 0;
    }
    let n = data.len() as i128;
    let s = series_sums(data);
    assert(0 <= n * s.xx <= 0x1000000000000000) by (nonlinear_arith)
        requires
            0 <= n <= 4096,
            0 <= s.xx <= 4096 * 4096 * 4096,
    ;
    assert(0 <= s.x * s.x <= 0x1000000000000000) by (nonlinear_arith)
        requires
            0 <= s.x <= 4096 * 4096,
    ;
    let den = n * s.xx - s.x * s.x;
    proof {
        lemma_slope_den_positive(n as int);
    }
    assert(-0x1000000000000000000000000 <= n * s.xy <= 0x1000000000000000000000000)
        by (nonlinear_arith)
        requires
            0 <= n <= 4096,
            -(4096 * 4096 * 1_000_000_000_000) <= s.xy <= 4096 * 4096 * 1_000_000_000_000,
    ;
    assert(-0x1000000000000000000000000 <= s.x * s.y <= 0x1000000000000000000000000)
        by (nonlinear_arith)
        requires
            0 <= s.x <= 4096 * 4096,
            -(4096 * 1_000_000_000_000) <= s.y <= 4096 * 1_000_000_000_000,
    ;
    let num = n * s.xy - s.x * s.y;
    proof {
        lemma_div_away_sign(num as int, den as int);
    }
    if num >= 0 {
        (num + den - 1) / den
    } else {
        -((-num + den - 1) / den)
    }
}

/// Population standard deviation of the series, as the integer square root
/// of its rounded-down variance.
pub fn std_dev(data: &[i64]) -> (r: u64)
    requires
        series_ok(data@),
    ensures
        is_isqrt(r as int, variance_spec(data@)),
{
    if data.len() < 2 {
        return 0;
    }
    let n = data.len() as i128;
    let s = series_sums(data);
    assert(0 <= n * s.yy <= 0x1000000000000000000000000000) by (nonlinear_arith)
        requires
            0 <= n <= 4096,
            0 <= s.yy <= n * 1_000_000_000_000_000_000_000_000,
    ;
    assert(0 <= s.y * s.y <= 0x1000000000000000000000000000) by (nonlinear_arith)
        requires
            -(4096 * 1_000_000_000_000) <= s.y <= 4096 * 1_000_000_000_000,
    ;
    let v = n * s.yy - s.y * s.y;
    if v <= 0 {
        return 0;
    }
    assert(n * n > 0) by (nonlinear_arith)
        requires
            n >= 2,
    ;
    assert(n * n <= 16_777_216) by (nonlinear_arith)
        requires
            0 <= n <= 4096,
    ;
    let nn = n * n;
    let var = v / nn;
    proof {
        let m2: int = 1_000_000_000_000_000_000_000_000;
        assert(v <= nn * m2) by (nonlinear_arith)
            requires
                v <= n * s.yy,
                s.yy <= n * m2,
                0 <= n,
                nn == n * n,
        ;
        lemma_div_is_ordered(v as int, nn * m2, nn as int);
        lemma_div_multiples_vanish(m2, nn as int);
    }
    isqrt(var as u128)
}

} // verus!

verus! {

proof fn lemma_sums_of_line(s: Seq<i64>, a: int, k: int, m: int)
    requires
        0 <= m <= s.len(),
        forall|i: int| 0 <= i < s.len() ==> #[trigger] s[i] == a + k * i,
    ensures
        sum_y(s, m) == m * a + k * sum_x(m),
        sum_xy(s, m) == a * sum_x(m) + k * sum_xx(m),
        k == 0 ==> sum_yy(s, m) == m * (a * a),
    decreases m,
{
    if m > 0 {
        lemma_sums_of_line(s, a, k, m - 1);
        let y = s[m - 1] as int;
        let j = m - 1;
        assert(y == a + k * j);
        assert(sum_y(s, m) == sum_y(s, m - 1) + y);
        assert(sum_xy(s, m) == sum_xy(s, m - 1) + j * y);
        assert(sum_yy(s, m) == sum_yy(s, m - 1) + y * y);
        assert(sum_x(m) == sum_x(m - 1) + j);
        assert(sum_xx(m) == sum_xx(m - 1) + j * j);
        assert(m * a + k * sum_x(m) == (m - 1) * a + k * sum_x(m - 1) + y) by (nonlinear_arith)
            requires
                y == a + k * j,
                j == m - 1,
                sum_x(m) == sum_x(m - 1) + j,
        ;
        assert(a * sum_x(m) + k * sum_xx(m) == a * sum_x(m - 1) + k * sum_xx(m - 1) + j * y)
            by (nonlinear_arith)
            requires
                y == a + k * j,
                sum_x(m) == sum_x(m - 1) + j,
                sum_xx(m) == sum_xx(m - 1) + j * j,
        ;
        if k == 0 {
            assert(y == a) by (nonlinear_arith)
                requires
                    y == a + k * j,
                    k == 0,
            ;
            assert(m * (a * a) == (m - 1) * (a * a) + a * a) by (nonlinear_arith);
        }
    } else {
        assert(m * a == 0 && m * (a * a) == 0) by (nonlinear_arith)
            requires
                m == 0,
        ;
    }
}

/// The slope of a series of at least `MIN_SLOPE_POINTS` points on the line
/// `a + k * i` is exactly `k`; a shorter series has slope 0.
pub proof fn lemma_slope_of_line(s: Seq<i64>, a: int, k: int)
    requires
        forall|i: int| 0 <= i < s.len() ==> #[trigger] s[i] == a + k * i,
    ensures
        s.len() >= MIN_SLOPE_POINTS ==> slope_spec(s) == k,
        s.len() < MIN_SLOPE_POINTS ==> slope_spec(s) == 0,
{
    let n = s.len() as int;
    if n >= MIN_SLOPE_POINTS {
        lemma_sums_of_line(s, a, k, n);
        lemma_slope_den_positive(n);
        let sx = sum_x(n);
        let sxx = sum_xx(n);
        let den = slope_den(n);
        assert(slope_num(s) == k * den) by (nonlinear_arith)
            requires
                slope_num(s) == n * sum_xy(s, n) - sx * sum_y(s, n),
                sum_y(s, n) == n * a + k * sx,
                sum_xy(s, n) == a * sx + k * sxx,
                den == n * sxx - sx * sx,
        ;
        if k >= 0 {
            assert(k * den >= 0) by (nonlinear_arith)
                requires
                    k >= 0,
                    den > 0,
            ;
            lemma_fundamental_div_mod_converse(k * den + den - 1, den, k, den - 1);
        } else {
            assert(k * den < 0 && -(k * den) == (-k) * den) by (nonlinear_arith)
                requires
                    k < 0,
                    den > 0,
            ;
            lemma_fundamental_div_mod_converse(-(k * den) + den - 1, den, -k, den - 1);
        }
    }
}

/// A constant series has slope 0.
pub proof fn lemma_slope_of_constant(s: Seq<i64>, c: int)
    requires
        forall|i: int| 0 <= i < s.len() ==> #[trigger] s[i] == c,
    ensures
        slope_spec(s) == 0,
{
    assert forall|i: int| 0 <= i < s.len() implies #[trigger] s[i] == c + 0 * i by {}
    lemma_slope_of_line(s, c, 0);
}

/// A series with fewer than two points, or with all points equal, has
/// variance 0, so its standard deviation is 0.
pub proof fn lemma_std_dev_of_constant(s: Seq<i64>, c: int)
    requires
        s.len() < 2 || forall|i: int| 0 <= i < s.len() ==> #[trigger] s[i] == c,
    ensures
        variance_spec(s) == 0,
        forall|r: int| is_isqrt(r, variance_spec(s)) ==> r == 0,
{
    let n = s.len() as int;
    if n >= 2 {
        assert forall|i: int| 0 <= i < s.len() implies #[trigger] s[i] == c + 0 * i by {}
        lemma_sums_of_line(s, c, 0, n);
        assert(n * sum_yy(s, n) - sum_y(s, n) * sum_y(s, n) == 0) by (nonlinear_arith)
            requires
                sum_y(s, n) == n * c + 0 * sum_x(n),
                sum_yy(s, n) == n * (c * c),
        ;
    }
    assert forall|r: int| is_isqrt(r, variance_spec(s)) implies r == 0 by {
        if r >= 1 {
            assert(r * r >= 1) by (nonlinear_arith)
                requires
                    r >= 1,
            ;
        }
    }
}

} // verus!

verus! {

/// The slope numerator over the first `m` values.
pub open spec fn prefix_num(s: Seq<i64>, m: int) -> int {
    m * sum_xy(s, m) - sum_x(m) * sum_y(s, m)
}

/// `sum over i < m of (m - i) * s[i]`.
pub open spec fn tail_weight(s: Seq<i64>, m: int) -> int {
    m * sum_y(s, m) - sum_xy(s, m)
}

/// The values never fall: a later value is at least an earlier one.
pub open spec fn nondecreasing(s: Seq<i64>) -> bool {
    forall|i: int, j: int| 0 <= i <= j < s.len() ==> #[trigger] s[i] <= #[trigger] s[j]
}

proof fn lemma_prefix_num_step(s: Seq<i64>, m: int)
    requires
        0 <= m < s.len(),
    ensures
        2 * prefix_num(s, m + 1) == 2 * prefix_num(s, m) + m * (m + 1) * s[m] - 2 * tail_weight(
            s,
            m,
        ),
{
    lemma_sum_x_closed(m);
    let y = s[m] as int;
    assert(sum_x(m + 1) == sum_x(m) + m);
    assert(sum_y(s, m + 1) == sum_y(s, m) + y);
    assert(sum_xy(s, m + 1) == sum_xy(s, m) + m * y);
    let sx = sum_x(m);
    let sy = sum_y(s, m);
    let sxy = sum_xy(s, m);
    assert(2 * ((m + 1) * (sxy + m * y) - (sx + m) * (sy + y)) == 2 * (m * sxy - sx * sy) + m * (m
        + 1) * y - 2 * (m * sy - sxy)) by (nonlinear_arith)
        requires
            2 * sx == m * (m - 1),
    ;
}

proof fn lemma_sum_y_bound(s: Seq<i64>, m: int, c: int)
    requires
        1 <= m <= s.len(),
        forall|i: int| 0 <= i < m ==> s[i] <= c,
    ensures
        sum_y(s, m) <= s[0] + (m - 1) * c,
    decreases m,
{
    if m > 1 {
        lemma_sum_y_bound(s, m - 1, c);
        assert(s[m - 1] <= c);
        assert(sum_y(s, m) == sum_y(s, m - 1) + s[m - 1]);
        assert((m - 2) * c + c == (m - 1) * c) by (nonlinear_arith);
    } else {
        assert(sum_y(s, 1) == sum_y(s, 0) + s[0]);
        assert((m - 1) * c == 0) by (nonlinear_arith)
            requires
                m == 1,
        ;
    }
}

proof fn lemma_tail_weight_bound(s: Seq<i64>, m: int, c: int)
    requires
        1 <= m <= s.len(),
        forall|i: int| 0 <= i < m ==> s[i] <= c,
    ensures
        2 * tail_weight(s, m) <= 2 * m * s[0] + m * (m - 1) * c,
    decreases m,
{
    if m > 1 {
        lemma_tail_weight_bound(s, m - 1, c);
        lemma_sum_y_bound(s, m, c);
        let k = m - 1;
        let y = s[k] as int;
        assert(sum_y(s, m) == sum_y(s, k) + y);
        assert(sum_xy(s, m) == sum_xy(s, k) + k * y);
        assert(tail_weight(s, m) == tail_weight(s, k) + sum_y(s, m)) by (nonlinear_arith)
            requires
                k == m - 1,
                sum_y(s, m) == sum_y(s, k) + y,
                sum_xy(s, m) == sum_xy(s, k) + k * y,
                tail_weight(s, m) == m * sum_y(s, m) - sum_xy(s, m),
                tail_weight(s, k) == k * sum_y(s, k) - sum_xy(s, k),
        ;
        assert(2 * k * s[0] + k * (k - 1) * c + 2 * (s[0] + (m - 1) * c) == 2 * m * s[0] + m * (m
            - 1) * c) by (nonlinear_arith)
            requires
                k == m - 1,
        ;
    } else {
        assert(sum_y(s, 1) == sum_y(s, 0) + s[0]);
        assert(sum_xy(s, 1) == sum_xy(s, 0) + 0 * s[0]);
    }
}

proof fn lemma_prefix_num_rising(s: Seq<i64>, m: int)
    requires
        nondecreasing(s),
        1 <= m < s.len(),
    ensures
        2 * prefix_num(s, m + 1) >= 2 * m * (s[m] - s[0]),
        prefix_num(s, m + 1) >= 0,
    decreases m,
{
    if m > 1 {
        lemma_prefix_num_rising(s, m - 1);
    } else {
        assert(sum_x(1) == sum_x(0) + 0);
        assert(sum_xy(s, 1) == sum_xy(s, 0) + 0 * s[0]);
        assert(prefix_num(s, 1) == 0);
    }
    let y = s[m] as int;
    assert forall|i: int| 0 <= i < m implies s[i] <= y by {
        assert(s[i] <= s[m]);
    }
    lemma_tail_weight_bound(s, m, y);
    lemma_prefix_num_step(s, m);
    assert(s[0] <= s[m]);
    assert(2 * prefix_num(s, m + 1) >= 2 * prefix_num(s, m) + 2 * m * (y - s[0])) by (nonlinear_arith)
        requires
            2 * prefix_num(s, m + 1) == 2 * prefix_num(s, m) + m * (m + 1) * y - 2 * tail_weight(s, m),
            2 * tail_weight(s, m) <= 2 * m * s[0] + m * (m - 1) * y,
    ;
    assert(2 * m * (y - s[0]) >= 0) by (nonlinear_arith)
        requires
            m >= 1,
            y >= s[0],
    ;
}

/// A series that never falls has a slope of at least 0, and one that also
/// changes somewhere, with at least `MIN_SLOPE_POINTS` points, has a positive
/// slope: a rising basis always counts as rising.
pub proof fn lemma_slope_of_rising(s: Seq<i64>)
    requires
        nondecreasing(s),
    ensures
        slope_spec(s) >= 0,
        s.len() >= MIN_SLOPE_POINTS && (exists|i: int| 0 <= i < s.len() && #[trigger] s[i] != s[0]) ==> slope_spec(
            s,
        ) > 0,
{
    let n = s.len() as int;
    if n >= MIN_SLOPE_POINTS {
        lemma_prefix_num_rising(s, n - 1);
        lemma_slope_den_positive(n);
        assert(slope_num(s) == prefix_num(s, n));
        lemma_div_away_sign(slope_num(s), slope_den(n));
        if exists|i: int| 0 <= i < s.len() && #[trigger] s[i] != s[0] {
            let i = choose|i: int| 0 <= i < s.len() && #[trigger] s[i] != s[0];
            assert(s[0] <= s[i] && s[i] <= s[n - 1]);
            assert(2 * (n - 1) * (s[n - 1] - s[0]) > 0) by (nonlinear_arith)
                requires
                    n >= 2,
                    s[n - 1] > s[0],
            ;
        }
    }
}

} // verus!
