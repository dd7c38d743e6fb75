use vstd::prelude::*;

use crate::book::{asks_ordered, bids_ordered, side_is_ordered, side_ok, Level};

verus! {

/// Number of exchanges whose feeds are aggregated.
pub const N_EXCHANGES: usize = 3;

/// An exchange feed.
#[derive(Clone, Copy, Debug, PartialEq, Eq, Structural)]
pub enum Exchange {
    Binance,
    Hyperliquid,
    Bybit,
}

/// Position of an exchange in the fixed evaluation order.
pub open spec fn exchange_index(e: Exchange) -> int {
    match e {
        Exchange::Binance => 0,
        Exchange::Hyperliquid => 1,
        Exchange::Bybit => 2,
    }
}

impl Exchange {
    /// Position of the exchange in the fixed evaluation order.
    pub fn index(&self) -> (r: usize)
        ensures
            r == exchange_index(*self),
            r < N_EXCHANGES,
    {
        match self {
            Exchange::Binance => 0,
            Exchange::Hyperliquid => 1,
            Exchange::Bybit => 2,
        }
    }

    /// The exchange at a position of the evaluation order.
    pub fn from_index(i: usize) -> (r: Exchange)
        requires
            i < N_EXCHANGES,
        ensures
            exchange_index(r) == i,
    {
        if i == 0 {
            Exchange::Binance
        } else if i == 1 {
            Exchange::Hyperliquid
        } else {
            Exchange::Bybit
        }
    }
}

/// The latest snapshot of one exchange's book for one symbol. Rates are in
/// units of `ONE`.
#[derive(Clone, Debug)]
pub struct MarketState {
    pub exchange: Exchange,
    pub symbol: Vec<u8>,
    pub bids: Vec<Level>,
    pub asks: Vec<Level>,
    pub funding: i64,
}

/// Both sides of the snapshot hold usable levels, best first.
pub open spec fn state_ok(s: MarketState) -> bool {
    side_ok(s.bids@) && side_ok(s.asks@) && bids_ordered(s.bids@) && asks_ordered(s.asks@)
}

/// Byte-wise equality of two strings.
pub fn bytes_eq(a: &[u8], b: &[u8]) -> (r: bool)
    ensures
        r == (a@ == b@),
{
    if a.len() != b.len() {
        return false;
    }
    let mut i: usize = 0;
    while i < a.len()
        invariant
            a@.len() == b@.len(),
            i <= a@.len(),
            forall|j: int| 0 <= j < i ==> a@[j] == b@[j],
        decreases a@.len() - i,
    {
        if a[i] != b[i] {
            return false;
        }
        i += 1;
    }
    assert(a@ =~= b@);
    true
}

/// Latest snapshot per exchange and watched symbol. A snapshot replaces the
/// previous one of its key whole; a key never seen stays empty, which is
/// how an offline feed shows.
#[derive(Clone, Debug)]
pub struct MarketStore {
    pub symbols: Vec<Vec<u8>>,
    pub slots: Vec<Option<MarketState>>,
}

/// Slot of an exchange and a symbol index in a store watching `n` symbols.
pub open spec fn slot_of(e: Exchange, sym: int, n: int) -> int {
    exchange_index(e) * n + sym
}

impl MarketStore {
    /// One slot per exchange and symbol; every stored snapshot is usable.
    pub open spec fn wf(&self) -> bool {
        &&& self.slots@.len() == N_EXCHANGES * self.symbols@.len()
        &&& forall|i: int|
            0 <= i < self.slots@.len() && (#[trigger] self.slots@[i]) is Some ==> state_ok(
                self.slots@[i]->Some_0,
            )
    }

    /// The snapshot of an exchange and a symbol index, if any.
    pub open spec fn entry(&self, e: Exchange, sym: int) -> Option<MarketState> {
        self.slots@[slot_of(e, sym, self.symbols@.len() as int)]
    }

    /// An empty store watching the given symbols.
    pub fn new(symbols: Vec<Vec<u8>>) -> (r: MarketStore)
        requires
            symbols@.len() * N_EXCHANGES <= usize::MAX,
        ensures
            r.wf(),
            r.symbols@ == symbols@,
            forall|i: int| 0 <= i < r.slots@.len() ==> r.slots@[i] is None,
    {
        let n = symbols.len() * N_EXCHANGES;
        let mut slots: Vec<Option<MarketState>> = Vec::new();
        let mut i: usize = 0;
        while i < n
            invariant
                i <= n,
                slots@.len() == i,
                forall|j: int| 0 <= j < i ==> slots@[j] is None,
            decreases n - i,
        {
            slots.push(None);
            i += 1;
        }
        MarketStore { symbols, slots }
    }

    /// Index of the first watched occurrence of a symbol.
    pub fn symbol_index(&self, symbol: &[u8]) -> (r: Option<usize>)
        ensures
            r is Some ==> first_match(self.symbols@, symbol@, r->Some_0 as int),
            r is None ==> forall|j: int| 0 <= j < self.symbols@.len() ==> self.symbols@[j]@ != symbol@,
    {
        let mut i: usize = 0;
        while i < self.symbols.len()
            invariant
                i <= self.symbols@.len(),
                forall|j: int| 0 <= j < i ==> self.symbols@[j]@ != symbol@,
            decreases self.symbols@.len() - i,
        {
            if bytes_eq(self.symbols[i].as_slice(), symbol) {
                return Some(i);
            }
            i += 1;
        }
        None
    }

    /// Stores a snapshot in place of the previous one of its exchange and
    /// symbol. A snapshot of an unwatched symbol, with an unusable level or
    /// with levels out of order, changes nothing; the result says whether it
    /// was stored.
    pub fn upsert(&mut self, state: MarketState) -> (r: bool)
        requires
            old(self).wf(),
        ensures
            final(self).wf(),
            final(self).symbols@ == old(self).symbols@,
            r == (state_ok(state) && exists|j: int|
                0 <= j < old(self).symbols@.len() && #[trigger] old(self).symbols@[j]@ == state.symbol@),
            final(self).slots@ == upserted(old(self).slots@, old(self).symbols@, state),
    {
        if !(crate::book::side_is_valid(state.bids.as_slice()) && crate::book::side_is_valid(
            state.asks.as_slice(),
        ) && side_is_ordered(state.bids.as_slice(), true) && side_is_ordered(
            state.asks.as_slice(),
            false,
        )) {
            return false;
        }
        match self.symbol_index(state.symbol.as_slice()) {
            None => false,
            Some(j) => {
                let n = self.symbols.len();
                let e = state.exchange.index();
                assert(e * n + j < N_EXCHANGES * n) by (nonlinear_arith)
                    requires
                        0 <= e < N_EXCHANGES,
                        j < n,
                ;
                let total = self.slots.len();
                assert(total == N_EXCHANGES * n);
                let slot = e * n + j;
                let ghost st = state;
                let ghost syms = self.symbols@;
                proof {
                    assert forall|k: int| first_match(syms, st.symbol@, k) implies k == j by {
                        if k < j {
                            assert(syms[k]@ != st.symbol@);
                        } else if k > j {
                            assert(syms[j as int]@ != st.symbol@);
                        }
                    }
                    assert(first_match(syms, st.symbol@, j as int));
                }
                self.slots.set(slot, Some(state));
                assert(self.slots@[slot as int] == Some(st));
                true
            },
        }
    }
}

/// `j` is the first index of the watchlist that holds `sym`.
pub open spec fn first_match(symbols: Seq<Vec<u8>>, sym: Seq<u8>, j: int) -> bool {
    &&& 0 <= j < symbols.len()
    &&& symbols[j]@ == sym
    &&& forall|k: int| 0 <= k < j ==> (#[trigger] symbols[k])@ != sym
}

/// The slots after storing `st`: a usable snapshot of a watched symbol
/// replaces the slot of its exchange and of the first watchlist index of its
/// symbol; anything else leaves the slots as they were.
pub open spec fn upserted(
    slots: Seq<Option<MarketState>>,
    symbols: Seq<Vec<u8>>,
    st: MarketState,
) -> Seq<Option<MarketState>> {
    if state_ok(st) && exists|j: int| first_match(symbols, st.symbol@, j) {
        let j = choose|j: int| first_match(symbols, st.symbol@, j);
        slots.update(slot_of(st.exchange, j, symbols.len() as int), Some(st))
    } else {
        slots
    }
}

/// Storing the same snapshot twice leaves the store as storing it once:
/// a snapshot overwrites its key whole, it never accumulates, and no other
/// key changes.
pub proof fn lemma_upsert_idempotent(
    slots: Seq<Option<MarketState>>,
    symbols: Seq<Vec<u8>>,
    st: MarketState,
)
    requires
        slots.len() == N_EXCHANGES * symbols.len(),
    ensures
        upserted(upserted(slots, symbols, st), symbols, st) == upserted(slots, symbols, st),
{
    if state_ok(st) && exists|j: int| first_match(symbols, st.symbol@, j) {
        let j = choose|j: int| first_match(symbols, st.symbol@, j);
        let k = slot_of(st.exchange, j, symbols.len() as int);
        let n = symbols.len() as int;
        let e = exchange_index(st.exchange);
        assert(0 <= e * n + j < N_EXCHANGES * n) by (nonlinear_arith)
            requires
                0 <= e < N_EXCHANGES,
                0 <= j < n,
        ;
        assert(slots.update(k, Some(st)).update(k, Some(st)) =~= slots.update(k, Some(st)));
    }
}

} // verus!
