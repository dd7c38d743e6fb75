use vstd::prelude::*;

use crate::book::{level_ok, Level, MAX_UNITS, ONE};
use crate::market::{Exchange, MarketState};

verus! {

/// Fraction digits carried by a fixed-point value.
pub const FRACTION_DIGITS: usize = 8;

/// Most digits accepted before the decimal point (a machine limit: with eight
/// fraction digits the value must stay within `MAX_UNITS`).
pub const MAX_INTEGER_DIGITS: usize = 8;

/// The pieces of `s` between occurrences of `sep`, read left to right; an
/// empty input is one empty piece.
pub open spec fn split_spec(s: Seq<u8>, sep: u8) -> Seq<Seq<u8>>
    decreases s.len(),
{
    if s.len() == 0 {
        seq![Seq::empty()]
    } else {
        let init = split_spec(s.drop_last(), sep);
        if s.last() == sep {
            init.push(Seq::empty())
        } else {
            init.update(init.len() - 1, init.last().push(s.last()))
        }
    }
}

proof fn lemma_split_nonempty(s: Seq<u8>, sep: u8)
    ensures
        split_spec(s, sep).len() >= 1,
    decreases s.len(),
{
    if s.len() > 0 {
        lemma_split_nonempty(s.drop_last(), sep);
    }
}

/// Splits `s` at every `sep`.
pub fn split_bytes(s: &[u8], sep: u8) -> (r: Vec<Vec<u8>>)
    ensures
        r@.len() == split_spec(s@, sep).len(),
        forall|i: int| 0 <= i < r@.len() ==> (#[trigger] r@[i])@ == split_spec(s@, sep)[i],
{
    let mut done: Vec<Vec<u8>> = Vec::new();
    let mut cur: Vec<u8> = Vec::new();
    let mut i: usize = 0;
    while i < s.len()
        invariant
            i <= s@.len(),
            split_spec(s@.subrange(0, i as int), sep).len() == done@.len() + 1,
            forall|j: int|
                0 <= j < done@.len() ==> (#[trigger] done@[j])@ == split_spec(
                    s@.subrange(0, i as int),
                    sep,
                )[j],
            cur@ == split_spec(s@.subrange(0, i as int), sep).last(),
        decreases s@.len() - i,
    {
        let ghost prefix = s@.subrange(0, i as int);
        assert(s@.subrange(0, i as int + 1).drop_last() =~= prefix);
        proof {
            lemma_split_nonempty(prefix, sep);
        }
        if s[i] == sep {
            let piece = cur;
            done.push(piece);
            cur = Vec::new();
            assert(cur@ =~= Seq::<u8>::empty());
        } else {
            cur.push(s[i]);
        }
        i += 1;
    }
    assert(s@.subrange(0, s@.len() as int) =~= s@);
    done.push(cur);
    done
}

/// The value of a byte that is an ASCII digit.
pub open spec fn is_digit(b: u8) -> bool {
    48 <= b <= 57
}

/// Every byte is an ASCII digit.
pub open spec fn all_digits(s: Seq<u8>) -> bool {
    forall|i: int| 0 <= i < s.len() ==> is_digit(#[trigger] s[i])
}

/// The decimal number written by a string of digits.
pub open spec fn digits_value(s: Seq<u8>) -> int
    decreases s.len(),
{
    if s.len() == 0 {
        0
    } else {
        digits_value(s.drop_last()) * 10 + (s.last() - 48)
    }
}

/// `10^k`.
pub open spec fn pow10(k: nat) -> int
    decreases k,
{
    if k == 0 {
        1
    } else {
        10 * pow10((k - 1) as nat)
    }
}

/// The fraction digits as a count of hundred-millionths; digits past the
/// eighth are dropped.
pub open spec fn fraction_value(f: Seq<u8>) -> int {
    if f.len() >= FRACTION_DIGITS {
        digits_value(f.take(FRACTION_DIGITS as int))
    } else {
        digits_value(f) * pow10((FRACTION_DIGITS - f.len()) as nat)
    }
}

/// A decimal `[-]digits[.digits]`, at most `MAX_INTEGER_DIGITS` before the
/// point, as a fixed-point count of hundred-millionths, and within
/// `MAX_UNITS` of zero. The bounds are those of the fixed-point
/// representation: a larger value could not be priced without overflowing
/// the 128-bit notional arithmetic, so a record carrying one is malformed.
pub open spec fn decimal_spec(t: Seq<u8>) -> Option<int> {
    let neg = t.len() > 0 && t[0] == 45u8;
    let body = if neg { t.skip(1) } else { t };
    let parts = split_spec(body, 46u8);
    let ip = parts[0];
    let fp = if parts.len() == 2 { parts[1] } else { Seq::empty() };
    let v = digits_value(ip) * ONE + fraction_value(fp);
    if parts.len() > 2 || ip.len() == 0 || ip.len() > MAX_INTEGER_DIGITS || !all_digits(ip) || (
    parts.len() == 2 && (fp.len() == 0 || !all_digits(fp))) || v > MAX_UNITS {
        None
    } else {
        Some(if neg { -v } else { v })
    }
}

/// Reads a string of at most eight digits.
fn read_digits(s: &[u8]) -> (r: Option<u64>)
    requires
        s@.len() <= 8,
    ensures
        r is Some <==> all_digits(s@),
        r is Some ==> r->Some_0 == digits_value(s@) && r->Some_0 < 100_000_000,
{
    let mut v: u64 = 0;
    let mut i: usize = 0;
    while i < s.len()
        invariant
            s@.len() <= 8,
            i <= s@.len(),
            all_digits(s@.subrange(0, i as int)),
            v == digits_value(s@.subrange(0, i as int)),
            v < pow10(i as nat),
            pow10(i as nat) <= 100_000_000,
        decreases s@.len() - i,
    {
        assert(s@.subrange(0, i as int + 1).drop_last() =~= s@.subrange(0, i as int));
        if s[i] < 48 || s[i] > 57 {
            assert(!all_digits(s@)) by {
                assert(!is_digit(s@[i as int]));
            }
            return None;
        }
        assert(pow10((i + 1) as nat) == 10 * pow10(i as nat));
        proof {
            lemma_pow10_small((i + 1) as nat);
        }
        v = v * 10 + (s[i] - 48) as u64;
        i += 1;
        assert(all_digits(s@.subrange(0, i as int))) by {
            assert forall|j: int| 0 <= j < i implies is_digit(#[trigger] s@.subrange(0, i as int)[j]) by {
                if j < i - 1 {
                    assert(s@.subrange(0, i as int)[j] == s@.subrange(0, i as int - 1)[j]);
                }
            }
        }
    }
    assert(s@.subrange(0, s@.len() as int) =~= s@);
    Some(v)
}

/// Checks that every byte is an ASCII digit.
fn check_digits(s: &[u8]) -> (r: bool)
    ensures
        r == all_digits(s@),
{
    let mut i: usize = 0;
    while i < s.len()
        invariant
            i <= s@.len(),
            forall|j: int| 0 <= j < i ==> is_digit(#[trigger] s@[j]),
        decreases s@.len() - i,
    {
        if s[i] < 48 || s[i] > 57 {
            return false;
        }
        i += 1;
    }
    true
}

proof fn lemma_pow10_mono(a: nat, b: nat)
    requires
        a <= b,
    ensures
        1 <= pow10(a) <= pow10(b),
    decreases b,
{
    if a < b {
        lemma_pow10_mono(a, (b - 1) as nat);
    } else if a > 0 {
        lemma_pow10_mono((a - 1) as nat, (a - 1) as nat);
    }
}

proof fn lemma_pow10_small(i: nat)
    requires
        i <= 8,
    ensures
        pow10(i) <= 100_000_000,
        i < 8 ==> pow10(i) <= 10_000_000,
{
    reveal_with_fuel(pow10, 9);
    assert(pow10(7) == 10_000_000);
    assert(pow10(8) == 100_000_000);
    if i < 8 {
        lemma_pow10_mono(i, 7);
    } else {
        lemma_pow10_mono(i, 8);
    }
}

/// `10^k` for `k` up to eight.
fn pow10_exec(k: usize) -> (r: u64)
    requires
        k <= 8,
    ensures
        r == pow10(k as nat),
        r <= 100_000_000,
{
    let mut r: u64 = 1;
    let mut i: usize = 0;
    while i < k
        invariant
            i <= k <= 8,
            r == pow10(i as nat),
        decreases k - i,
    {
        proof {
            lemma_pow10_small(i as nat);
        }
        r = r * 10;
        i += 1;
    }
    proof {
        lemma_pow10_small(i as nat);
    }
    r
}

/// Reads a decimal `[-]digits[.digits]` as a fixed-point count of
/// hundred-millionths.
pub fn parse_decimal(t: &[u8]) -> (r: Option<i64>)
    ensures
        r is Some <==> decimal_spec(t@) is Some,
        r is Some ==> r->Some_0 == decimal_spec(t@)->Some_0,
        r is Some ==> -(MAX_UNITS as int) <= r->Some_0 <= MAX_UNITS,
{
    let neg = t.len() > 0 && t[0] == 45u8;
    let body = if neg {
        vstd::slice::slice_subrange(t, 1, t.len())
    } else {
        t
    };
    assert(body@ == if neg { t@.skip(1) } else { t@ });
    let parts = split_bytes(body, 46u8);
    proof {
        lemma_split_nonempty(body@, 46u8);
    }
    if parts.len() > 2 {
        return None;
    }
    let ip = parts[0].as_slice();
    if ip.len() == 0 || ip.len() > MAX_INTEGER_DIGITS {
        return None;
    }
    let iv = match read_digits(ip) {
        None => {
            return None;
        },
        Some(v) => v,
    };
    let frac: u64 = if parts.len() == 2 {
        let fp = parts[1].as_slice();
        if fp.len() == 0 || !check_digits(fp) {
            return None;
        }
        if fp.len() >= FRACTION_DIGITS {
            let head = vstd::slice::slice_subrange(fp, 0, FRACTION_DIGITS);
            assert(head@ == fp@.take(FRACTION_DIGITS as int));
            assert(all_digits(head@)) by {
                assert forall|j: int| 0 <= j < head@.len() implies is_digit(#[trigger] head@[j]) by {
                    assert(head@[j] == fp@[j]);
                }
            }
            match read_digits(head) {
                Some(v) => v,
                None => {
                    return None;
                },
            }
        } else {
            let v = match read_digits(fp) {
                Some(v) => v,
                None => {
                    return None;
                },
            };
            let m = pow10_exec(FRACTION_DIGITS - fp.len());
            assert(v * m < 100_000_000 * 100_000_000) by (nonlinear_arith)
                requires
                    v < 100_000_000,
                    m <= 100_000_000,
            ;
            v * m
        }
    } else {
        0
    };
    assert(frac == fraction_value(if parts@.len() == 2 { parts@[1]@ } else { Seq::empty() }));
    let v = iv * ONE + frac;
    if v > MAX_UNITS {
        return None;
    }
    if neg {
        Some(-(v as i64))
    } else {
        Some(v as i64)
    }
}

/// The exchange named by a lowercase identifier.
pub open spec fn exchange_spec(name: Seq<u8>) -> Option<Exchange> {
    if name == seq![98u8, 105u8, 110u8, 97u8, 110u8, 99u8, 101u8] {
        Some(Exchange::Binance)
    } else if name == seq![104u8, 121u8, 112u8, 101u8, 114u8, 108u8, 105u8, 113u8, 117u8, 105u8, 100u8] {
        Some(Exchange::Hyperliquid)
    } else if name == seq![98u8, 121u8, 98u8, 105u8, 116u8] {
        Some(Exchange::Bybit)
    } else {
        None
    }
}

/// Reads an exchange identifier: `binance`, `hyperliquid` or `bybit`.
pub fn parse_exchange(name: &[u8]) -> (r: Option<Exchange>)
    ensures
        r == exchange_spec(name@),
{
    let binance: Vec<u8> = vec![98u8, 105u8, 110u8, 97u8, 110u8, 99u8, 101u8];
    let hyperliquid: Vec<u8> = vec![104u8, 121u8, 112u8, 101u8, 114u8, 108u8, 105u8, 113u8, 117u8, 105u8, 100u8];
    let bybit: Vec<u8> = vec![98u8, 121u8, 98u8, 105u8, 116u8];
    assert(binance@ =~= seq![98u8, 105u8, 110u8, 97u8, 110u8, 99u8, 101u8]);
    assert(hyperliquid@ =~= seq![104u8, 121u8, 112u8, 101u8, 114u8, 108u8, 105u8, 113u8, 117u8, 105u8, 100u8]);
    assert(bybit@ =~= seq![98u8, 121u8, 98u8, 105u8, 116u8]);
    if crate::market::bytes_eq(name, binance.as_slice()) {
        Some(Exchange::Binance)
    } else if crate::market::bytes_eq(name, hyperliquid.as_slice()) {
        Some(Exchange::Hyperliquid)
    } else if crate::market::bytes_eq(name, bybit.as_slice()) {
        Some(Exchange::Bybit)
    } else {
        None
    }
}

/// The first `k` levels of a depth list split into tokens, price then
/// quantity; None if a token is not a decimal or a level is unusable.
pub open spec fn levels_from(toks: Seq<Seq<u8>>, k: int) -> Option<Seq<Level>>
    decreases k,
{
    if k <= 0 {
        Some(Seq::empty())
    } else {
        match levels_from(toks, k - 1) {
            None => None,
            Some(ls) => match (decimal_spec(toks[2 * k - 2]), decimal_spec(toks[2 * k - 1])) {
                (Some(p), Some(q)) => if p >= 1 && q >= 0 {
                    Some(ls.push(Level { price: p as u64, quantity: q as u64 }))
                } else {
                    None
                },
                _ => None,
            },
        }
    }
}

/// A depth list `price,qty[,price,qty...]`, best level first; empty text is
/// an empty side.
pub open spec fn levels_spec(side: Seq<u8>) -> Option<Seq<Level>> {
    let toks = split_spec(side, 44u8);
    if side.len() == 0 {
        Some(Seq::empty())
    } else if toks.len() % 2 != 0 {
        None
    } else {
        levels_from(toks, toks.len() as int / 2)
    }
}

proof fn lemma_levels_from_stays_none(toks: Seq<Seq<u8>>, k: int, m: int)
    requires
        k <= m,
        levels_from(toks, k) is None,
    ensures
        levels_from(toks, m) is None,
    decreases m - k,
{
    if k < m {
        lemma_levels_from_stays_none(toks, k, m - 1);
    }
}

/// Reads a depth list into levels.
pub fn parse_levels(side: &[u8]) -> (r: Option<Vec<Level>>)
    ensures
        r is Some <==> levels_spec(side@) is Some,
        r is Some ==> r->Some_0@ == levels_spec(side@)->Some_0,
        r is Some ==> crate::book::side_ok(r->Some_0@),
{
    let mut out: Vec<Level> = Vec::new();
    if side.len() == 0 {
        assert(out@ =~= Seq::<Level>::empty());
        return Some(out);
    }
    let toks = split_bytes(side, 44u8);
    if toks.len() % 2 != 0 {
        return None;
    }
    let tl = toks.len();
    let n = tl / 2;
    let ghost ts = split_spec(side@, 44u8);
    assert(levels_spec(side@) == levels_from(ts, n as int));
    let mut k: usize = 0;
    while k < n
        invariant
            levels_spec(side@) == levels_from(ts, n as int),
            n == ts.len() / 2,
            toks@.len() == ts.len(),
            toks@.len() == 2 * n,
            tl == toks@.len(),
            forall|i: int| 0 <= i < toks@.len() ==> (#[trigger] toks@[i])@ == ts[i],
            k <= n,
            levels_from(ts, k as int) == Some(out@),
            crate::book::side_ok(out@),
        decreases n - k,
    {
        assert(toks@[2 * k as int]@ == ts[2 * k as int]);
        assert(toks@[2 * k as int + 1]@ == ts[2 * k as int + 1]);
        let p = parse_decimal(toks[2 * k].as_slice());
        let q = parse_decimal(toks[2 * k + 1].as_slice());
        match (p, q) {
            (Some(p), Some(q)) => {
                if p >= 1 && q >= 0 {
                    let lv = Level { price: p as u64, quantity: q as u64 };
                    out.push(lv);
                    assert(crate::book::level_ok(lv));
                    assert(crate::book::side_ok(out@)) by {
                        assert forall|i: int| 0 <= i < out@.len() implies crate::book::level_ok(#[trigger] out@[i]) by {
                            if i < out@.len() - 1 {
                                assert(out@[i] == out@.drop_last()[i]);
                            }
                        }
                    }
                } else {
                    assert(levels_from(ts, k as int + 1) is None);
                    proof {
                        lemma_levels_from_stays_none(ts, k as int + 1, n as int);
                    }
                    return None;
                }
            },
            _ => {
                assert(levels_from(ts, k as int + 1) is None);
                proof {
                    lemma_levels_from_stays_none(ts, k as int + 1, n as int);
                }
                return None;
            },
        }
        k += 1;
    }
    Some(out)
}

/// A tick record `exchange:symbol:bids|asks:funding` is well formed.
pub open spec fn tick_ok(line: Seq<u8>) -> bool {
    let parts = split_spec(line, 58u8);
    let sides = split_spec(parts[2], 124u8);
    &&& parts.len() == 4
    &&& exchange_spec(parts[0]) is Some
    &&& sides.len() == 2
    &&& levels_spec(sides[0]) is Some
    &&& levels_spec(sides[1]) is Some
    &&& decimal_spec(parts[3]) is Some
}

/// The snapshot is what a well-formed tick record says.
pub open spec fn tick_matches(line: Seq<u8>, st: MarketState) -> bool {
    let parts = split_spec(line, 58u8);
    let sides = split_spec(parts[2], 124u8);
    &&& Some(st.exchange) == exchange_spec(parts[0])
    &&& st.symbol@ == parts[1]
    &&& Some(st.bids@) == levels_spec(sides[0])
    &&& Some(st.asks@) == levels_spec(sides[1])
    &&& Some(st.funding as int) == decimal_spec(parts[3])
}

/// Reads one inbound tick record; a malformed record gives None.
pub fn parse_tick(line: &[u8]) -> (r: Option<MarketState>)
    ensures
        r is Some <==> tick_ok(line@),
        r is Some ==> tick_matches(line@, r->Some_0),
        r is Some ==> crate::book::side_ok(r->Some_0.bids@) && crate::book::side_ok(r->Some_0.asks@),
{
    let parts = split_bytes(line, 58u8);
    if parts.len() != 4 {
        return None;
    }
    let exchange = match parse_exchange(parts[0].as_slice()) {
        Some(e) => e,
        None => {
            return None;
        },
    };
    let sides = split_bytes(parts[2].as_slice(), 124u8);
    if sides.len() != 2 {
        return None;
    }
    let bids = match parse_levels(sides[0].as_slice()) {
        Some(b) => b,
        None => {
            return None;
        },
    };
    let asks = match parse_levels(sides[1].as_slice()) {
        Some(a) => a,
        None => {
            return None;
        },
    };
    let funding = match parse_decimal(parts[3].as_slice()) {
        Some(f) => f,
        None => {
            return None;
        },
    };
    let symbol = vstd::slice::slice_to_vec(parts[1].as_slice());
    Some(MarketState { exchange, symbol, bids, asks, funding })
}

} // verus!
