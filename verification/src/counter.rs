//! Counters that hand out non-zero identifiers: link generations and bus
//! member ids. After the largest value the counter starts again at one, so
//! zero is never handed out.

use vstd::prelude::*;

verus! {

/// The value that follows `g`: one more, or one again after the largest.
pub open spec fn successor(g: u64) -> u64 {
    if g == u64::MAX {
        1
    } else {
        (g + 1) as u64
    }
}

/// The `k`-th value a counter starting at `start` hands out (from zero).
pub open spec fn nth_value(start: u64, k: nat) -> u64
    decreases k,
{
    if k == 0 {
        start
    } else {
        successor(nth_value(start, (k - 1) as nat))
    }
}

pub struct IdCounter {
    next: u64,
}

impl IdCounter {
    /// The value the next `take` hands out.
    pub closed spec fn peek(&self) -> u64 {
        self.next
    }

    #[verifier::type_invariant]
    spec fn wf(&self) -> bool {
        self.next >= 1
    }

    /// A counter whose first value is one.
    pub fn new() -> (c: Self)
        ensures
            c.peek() == 1,
    {
        IdCounter { next: 1 }
    }

    /// Hand out the current value and advance.
    pub fn take(&mut self) -> (id: u64)
        ensures
            id == old(self).peek(),
            id >= 1,
            final(self).peek() == successor(id),
    {
        proof {
            use_type_invariant(&*self);
        }
        let id = self.next;
        self.next = if id == u64::MAX { 1 } else { id + 1 };
        id
    }
}

/// A fresh counter hands out 1, 2, 3, ... in turn: the `k`-th value is
/// `k + 1` for every `k` below the largest value, so none repeats before the
/// counter wraps.
pub proof fn law_counter_counts_up(k: nat)
    requires
        k < u64::MAX,
    ensures
        nth_value(1, k) == k + 1,
    decreases k,
{
    if k > 0 {
        law_counter_counts_up((k - 1) as nat);
    }
}

/// A counter never hands out zero.
pub proof fn law_counter_never_zero(start: u64, k: nat)
    requires
        start >= 1,
    ensures
        nth_value(start, k) >= 1,
    decreases k,
{
    if k > 0 {
        law_counter_never_zero(start, (k - 1) as nat);
    }
}

} // verus!
