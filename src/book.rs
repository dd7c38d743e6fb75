use vstd::prelude::*;

verus! {

/// Fixed-point scale: a price, a quantity, a ratio or a rate is an integer
/// count of hundred-millionths.
pub const ONE: u64 = 100_000_000;

/// Largest price or quantity that a book level may carry (ten million units).
/// This is a machine limit of the fixed-point representation: it keeps a
/// level's notional, and a target notional times a price, within 128 bits.
pub const MAX_UNITS: u64 = 1_000_000_000_000_000;

/// One level of an order book: a price and the quantity offered at it.
#[derive(Clone, Copy, Debug, PartialEq, Eq, Structural)]
pub struct Level {
    pub price: u64,
    pub quantity: u64,
}

/// A level is usable when its price is positive and both fields stay under
/// `MAX_UNITS`.
pub open spec fn level_ok(l: Level) -> bool {
    1 <= l.price <= MAX_UNITS && l.quantity <= MAX_UNITS
}

/// Every level of the side is usable.
pub open spec fn side_ok(levels: Seq<Level>) -> bool {
    forall|i: int| 0 <= i < levels.len() ==> level_ok(#[trigger] levels[i])
}

impl Level {
    /// Checks the invariant of a level.
    pub fn is_valid(&self) -> (r: bool)
        ensures
            r == level_ok(*self),
    {
        1 <= self.price && self.price <= MAX_UNITS && self.quantity <= MAX_UNITS
    }
}

/// Bid prices never rise from one level to the next: best (highest) first.
#[verifier::opaque]
pub open spec fn bids_ordered(levels: Seq<Level>) -> bool {
    forall|i: int| 0 <= i < levels.len() - 1 ==> #[trigger] levels[i].price >= levels[i + 1].price
}

/// Ask prices never fall from one level to the next: best (lowest) first.
#[verifier::opaque]
pub open spec fn asks_ordered(levels: Seq<Level>) -> bool {
    forall|i: int| 0 <= i < levels.len() - 1 ==> #[trigger] levels[i].price <= levels[i + 1].price
}

/// Checks that a side is ordered best first: descending prices for bids,
/// ascending for asks.
pub fn side_is_ordered(levels: &[Level], is_bid: bool) -> (r: bool)
    ensures
        r == if is_bid { bids_ordered(levels@) } else { asks_ordered(levels@) },
{
    proof {
        reveal(bids_ordered);
        reveal(asks_ordered);
    }
    if levels.len() < 2 {
        return true;
    }
    let last = levels.len() - 1;
    let mut i: usize = 0;
    while i < last
        invariant
            levels@.len() >= 2,
            last == levels@.len() - 1,
            i <= last,
            is_bid ==> forall|j: int| 0 <= j < i ==> #[trigger] levels@[j].price >= levels@[j + 1].price,
            !is_bid ==> forall|j: int| 0 <= j < i ==> #[trigger] levels@[j].price <= levels@[j + 1].price,
        decreases levels@.len() - i,
    {
        let ok = if is_bid {
            levels[i].price >= levels[i + 1].price
        } else {
            levels[i].price <= levels[i + 1].price
        };
        if !ok {
            proof {
                let k = i as int;
                if is_bid {
                    assert(!(levels@[k].price >= levels@[k + 1].price));
                    assert(!bids_ordered(levels@)) by {
                        reveal(bids_ordered);
                    }
                } else {
                    assert(!(levels@[k].price <= levels@[k + 1].price));
                    assert(!asks_ordered(levels@)) by {
                        reveal(asks_ordered);
                    }
                }
            }
            return false;
        }
        i += 1;
    }
    proof {
        reveal(bids_ordered);
        reveal(asks_ordered);
    }
    true
}

/// Checks every level of a side.
pub fn side_is_valid(levels: &[Level]) -> (r: bool)
    ensures
        r == side_ok(levels@),
{
    let mut i: usize = 0;
    while i < levels.len()
        invariant
            i <= levels@.len(),
            forall|j: int| 0 <= j < i ==> level_ok(#[trigger] levels@[j]),
        decreases levels@.len() - i,
    {
        if !levels[i].is_valid() {
            return false;
        }
        i += 1;
    }
    true
}

} // verus!
