use vstd::prelude::*;

use crate::series::{series_ok, MAX_BASIS, MAX_SERIES_LEN};

verus! {

/// The last `cap` values of `s` (all of `s` when it is no longer).
pub open spec fn keep_last(s: Seq<i64>, cap: nat) -> Seq<i64> {
    if s.len() > cap {
        s.subrange(s.len() - cap, s.len() as int)
    } else {
        s
    }
}

/// What a history of capacity `cap` holds after `vs` are pushed in order onto `s`.
pub open spec fn push_all(s: Seq<i64>, vs: Seq<i64>, cap: nat) -> Seq<i64>
    decreases vs.len(),
{
    if vs.len() == 0 {
        s
    } else {
        keep_last(push_all(s, vs.drop_last(), cap).push(vs.last()), cap)
    }
}

/// A bounded first-in first-out buffer of basis values; the oldest value
/// leaves when a push would exceed the capacity.
pub struct BasisHistory {
    values: Vec<i64>,
    capacity: usize,
}

impl View for BasisHistory {
    type V = Seq<i64>;

    closed spec fn view(&self) -> Seq<i64> {
        self.values@
    }
}

impl BasisHistory {
    /// The capacity the history was made with.
    pub closed spec fn cap(&self) -> nat {
        self.capacity as nat
    }

    /// The history holds at most its capacity, each value in range.
    pub closed spec fn wf(&self) -> bool {
        1 <= self.capacity <= MAX_SERIES_LEN && self.values@.len() <= self.capacity
            && series_ok(self.values@)
    }

    /// An empty history of the given capacity.
    pub fn new(capacity: usize) -> (r: BasisHistory)
        requires
            1 <= capacity <= MAX_SERIES_LEN,
        ensures
            r.wf(),
            r@ == Seq::<i64>::empty(),
            r.cap() == capacity,
    {
        BasisHistory { values: Vec::new(), capacity }
    }

    /// Appends a value, evicting the oldest beyond the capacity.
    pub fn push(&mut self, v: i64)
        requires
            old(self).wf(),
            -MAX_BASIS <= v <= MAX_BASIS,
        ensures
            final(self).wf(),
            final(self).cap() == old(self).cap(),
            final(self)@ == keep_last(old(self)@.push(v), old(self).cap()),
    {
        let ghost pushed = self.values@.push(v);
        self.values.push(v);
        if self.values.len() > self.capacity {
            self.values.remove(0);
            assert(self.values@ =~= pushed.subrange(pushed.len() - self.capacity, pushed.len() as int));
        }
    }

    /// Number of values held.
    pub fn len(&self) -> (r: usize)
        ensures
            r == self@.len(),
    {
        self.values.len()
    }

    /// The values held, oldest first.
    pub fn values(&self) -> (r: &[i64])
        requires
            self.wf(),
        ensures
            r@ == self@,
            series_ok(r@),
    {
        self.values.as_slice()
    }
}

/// Pushing any values into an empty history keeps exactly the most recent
/// `cap` of them, in order: with `cap + 1` values the first one is evicted.
pub proof fn lemma_history_keeps_most_recent(vs: Seq<i64>, cap: nat)
    ensures
        push_all(Seq::empty(), vs, cap) == keep_last(vs, cap),
        vs.len() == cap + 1 ==> push_all(Seq::empty(), vs, cap) == vs.subrange(1, vs.len() as int),
    decreases vs.len(),
{
    if vs.len() > 0 {
        let init = vs.drop_last();
        lemma_history_keeps_most_recent(init, cap);
        let prev = keep_last(init, cap);
        let next = prev.push(vs.last());
        assert(vs == init.push(vs.last()));
        if init.len() > cap {
            assert(keep_last(next, cap) =~= keep_last(vs, cap));
        } else {
            assert(keep_last(next, cap) =~= keep_last(vs, cap));
        }
    } else {
        assert(keep_last(vs, cap) == vs);
    }
}

} // verus!
