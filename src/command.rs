use vstd::prelude::*;

use crate::book::ONE;
use crate::engine::{CommandKind, TradeCommand};
use crate::market::Exchange;
use crate::signal::TradeTier;

verus! {

/// `CMD:OPEN|SYMBOL:`
pub open spec fn open_head() -> Seq<u8> {
    seq![67u8, 77u8, 68u8, 58u8, 79u8, 80u8, 69u8, 78u8, 124u8, 83u8, 89u8, 77u8, 66u8, 79u8, 76u8, 58u8]
}

/// `CMD:CLOSE|SYM:`
pub open spec fn close_head() -> Seq<u8> {
    seq![67u8, 77u8, 68u8, 58u8, 67u8, 76u8, 79u8, 83u8, 69u8, 124u8, 83u8, 89u8, 77u8, 58u8]
}

/// `|S:`
pub open spec fn short_tag() -> Seq<u8> {
    seq![124u8, 83u8, 58u8]
}

/// `|L:`
pub open spec fn long_tag() -> Seq<u8> {
    seq![124u8, 76u8, 58u8]
}

/// `|BASIS:`
pub open spec fn basis_tag() -> Seq<u8> {
    seq![124u8, 66u8, 65u8, 83u8, 73u8, 83u8, 58u8]
}

/// `|T:`
pub open spec fn tier_tag() -> Seq<u8> {
    seq![124u8, 84u8, 58u8]
}

/// The lowercase identifier of an exchange.
pub open spec fn exchange_name(e: Exchange) -> Seq<u8> {
    match e {
        Exchange::Binance => seq![98u8, 105u8, 110u8, 97u8, 110u8, 99u8, 101u8],
        Exchange::Hyperliquid => seq![
            104u8,
            121u8,
            112u8,
            101u8,
            114u8,
            108u8,
            105u8,
            113u8,
            117u8,
            105u8,
            100u8,
        ],
        Exchange::Bybit => seq![98u8, 121u8, 98u8, 105u8, 116u8],
    }
}

/// The name of a tier: `Noise`, `Acceptable`, `GreatEntry` or `Sniper`.
pub open spec fn tier_name(t: TradeTier) -> Seq<u8> {
    match t {
        TradeTier::Noise => seq![78u8, 111u8, 105u8, 115u8, 101u8],
        TradeTier::Acceptable => seq![65u8, 99u8, 99u8, 101u8, 112u8, 116u8, 97u8, 98u8, 108u8, 101u8],
        TradeTier::GreatEntry => seq![71u8, 114u8, 101u8, 97u8, 116u8, 69u8, 110u8, 116u8, 114u8, 121u8],
        TradeTier::Sniper => seq![83u8, 110u8, 105u8, 112u8, 101u8, 114u8],
    }
}

/// The decimal digits of `n`, most significant first.
pub open spec fn digits_of(n: nat) -> Seq<u8>
    decreases n,
{
    if n < 10 {
        seq![(48 + n) as u8]
    } else {
        digits_of(n / 10).push((48 + n % 10) as u8)
    }
}

/// The last `k` decimal digits of `f`, zero-padded.
pub open spec fn padded_digits(f: nat, k: nat) -> Seq<u8>
    decreases k,
{
    if k == 0 {
        Seq::empty()
    } else {
        padded_digits(f / 10, (k - 1) as nat).push((48 + f % 10) as u8)
    }
}

/// A fixed-point value as `[-]int.ffffffff`.
pub open spec fn render_fixed(v: int) -> Seq<u8> {
    let a = if v < 0 { -v } else { v };
    let sign = if v < 0 { seq![45u8] } else { Seq::empty() };
    sign + digits_of((a / ONE as int) as nat) + seq![46u8] + padded_digits((a % ONE as int) as nat, 8)
}

/// The outbound record of a command for the named symbol.
pub open spec fn command_record(c: TradeCommand, symbol: Seq<u8>) -> Seq<u8> {
    let legs = short_tag() + exchange_name(c.route.short) + long_tag() + exchange_name(c.route.long);
    match c.kind {
        CommandKind::Open => open_head() + symbol + legs + basis_tag() + render_fixed(c.basis as int)
            + tier_tag() + tier_name(c.tier),
        CommandKind::Close => close_head() + symbol + legs,
    }
}

fn append_bytes(out: &mut Vec<u8>, piece: Vec<u8>)
    ensures
        final(out)@ == old(out)@ + piece@,
{
    let mut p = piece;
    out.append(&mut p);
}

fn exchange_name_bytes(e: Exchange) -> (r: Vec<u8>)
    ensures
        r@ == exchange_name(e),
{
    let r = match e {
        Exchange::Binance => vec![98u8, 105u8, 110u8, 97u8, 110u8, 99u8, 101u8],
        Exchange::Hyperliquid => vec![104u8, 121u8, 112u8, 101u8, 114u8, 108u8, 105u8, 113u8, 117u8, 105u8, 100u8],
        Exchange::Bybit => vec![98u8, 121u8, 98u8, 105u8, 116u8],
    };
    assert(r@ =~= exchange_name(e));
    r
}

fn tier_name_bytes(t: TradeTier) -> (r: Vec<u8>)
    ensures
        r@ == tier_name(t),
{
    let r = match t {
        TradeTier::Noise => vec![78u8, 111u8, 105u8, 115u8, 101u8],
        TradeTier::Acceptable => vec![65u8, 99u8, 99u8, 101u8, 112u8, 116u8, 97u8, 98u8, 108u8, 101u8],
        TradeTier::GreatEntry => vec![71u8, 114u8, 101u8, 97u8, 116u8, 69u8, 110u8, 116u8, 114u8, 121u8],
        TradeTier::Sniper => vec![83u8, 110u8, 105u8, 112u8, 101u8, 114u8],
    };
    assert(r@ =~= tier_name(t));
    r
}

fn push_digits(out: &mut Vec<u8>, n: u64)
    ensures
        final(out)@ == old(out)@ + digits_of(n as nat),
    decreases n,
{
    let ghost start = out@;
    if n >= 10 {
        push_digits(out, n / 10);
    }
    out.push(48u8 + (n % 10) as u8);
    assert(out@ =~= start + digits_of(n as nat));
}

fn push_padded(out: &mut Vec<u8>, f: u64, k: u64)
    ensures
        final(out)@ == old(out)@ + padded_digits(f as nat, k as nat),
    decreases k,
{
    let ghost start = out@;
    if k == 0 {
        assert(out@ =~= start + padded_digits(f as nat, k as nat));
        return;
    }
    push_padded(out, f / 10, k - 1);
    out.push(48u8 + (f % 10) as u8);
    assert(out@ =~= start + padded_digits(f as nat, k as nat));
}

/// Writes a fixed-point value as `[-]int.ffffffff`.
pub fn render_fixed_bytes(v: i64) -> (r: Vec<u8>)
    ensures
        r@ == render_fixed(v as int),
{
    let mut out: Vec<u8> = Vec::new();
    let a: u64 = if v < 0 {
        out.push(45u8);
        (-(v as i128)) as u64
    } else {
        v as u64
    };
    push_digits(&mut out, a / ONE);
    out.push(46u8);
    push_padded(&mut out, a % ONE, 8);
    assert(out@ =~= render_fixed(v as int));
    out
}

/// The outbound text of a command: `CMD:OPEN|SYMBOL:<sym>|S:<short>|L:<long>|BASIS:<basis>|T:<tier>`
/// or `CMD:CLOSE|SYM:<sym>|S:<short>|L:<long>`.
pub fn format_command(c: &TradeCommand, symbol: &[u8]) -> (r: Vec<u8>)
    ensures
        r@ == command_record(*c, symbol@),
{
    let mut out: Vec<u8> = match c.kind {
        CommandKind::Open => vec![67u8, 77u8, 68u8, 58u8, 79u8, 80u8, 69u8, 78u8, 124u8, 83u8, 89u8, 77u8, 66u8, 79u8, 76u8, 58u8],
        CommandKind::Close => vec![67u8, 77u8, 68u8, 58u8, 67u8, 76u8, 79u8, 83u8, 69u8, 124u8, 83u8, 89u8, 77u8, 58u8],
    };
    let ghost head = out@;
    append_bytes(&mut out, vstd::slice::slice_to_vec(symbol));
    append_bytes(&mut out, vec![124u8, 83u8, 58u8]);
    append_bytes(&mut out, exchange_name_bytes(c.route.short));
    append_bytes(&mut out, vec![124u8, 76u8, 58u8]);
    append_bytes(&mut out, exchange_name_bytes(c.route.long));
    if c.kind == CommandKind::Open {
        append_bytes(&mut out, vec![124u8, 66u8, 65u8, 83u8, 73u8, 83u8, 58u8]);
        append_bytes(&mut out, render_fixed_bytes(c.basis));
        append_bytes(&mut out, vec![124u8, 84u8, 58u8]);
        append_bytes(&mut out, tier_name_bytes(c.tier));
    }
    proof {
        if c.kind == CommandKind::Open {
            assert(head =~= open_head());
        } else {
            assert(head =~= close_head());
        }
        assert(seq![124u8, 83u8, 58u8] =~= short_tag());
        assert(seq![124u8, 76u8, 58u8] =~= long_tag());
        assert(seq![124u8, 66u8, 65u8, 83u8, 73u8, 83u8, 58u8] =~= basis_tag());
        assert(seq![124u8, 84u8, 58u8] =~= tier_tag());
    }
    assert(out@ =~= command_record(*c, symbol@));
    out
}

} // verus!
