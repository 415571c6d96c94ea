//! A bounded log that keeps the newest entries: pushing into a full log
//! evicts the oldest entry first, and draining hands back everything held,
//! oldest first.

use vstd::prelude::*;
use std::collections::VecDeque;

verus! {

/// The log that a sequence of pushes leaves behind, starting from `log`,
/// when at most `cap` entries are kept.
pub open spec fn pushed_all<T>(log: Seq<T>, items: Seq<T>, cap: nat) -> Seq<T>
    decreases items.len(),
{
    if items.len() == 0 {
        log
    } else {
        pushed_all(push_one(log, items[0], cap), items.drop_first(), cap)
    }
}

/// The log after one push: the item is appended, and when the log already
/// held `cap` entries the oldest one is dropped.
pub open spec fn push_one<T>(log: Seq<T>, item: T, cap: nat) -> Seq<T> {
    if log.len() >= cap {
        log.drop_first().push(item)
    } else {
        log.push(item)
    }
}

/// The newest `cap` entries of `s` (all of them when there are fewer).
pub open spec fn newest<T>(s: Seq<T>, cap: nat) -> Seq<T> {
    if s.len() <= cap {
        s
    } else {
        s.subrange(s.len() - cap, s.len() as int)
    }
}

pub struct BoundedLog<T> {
    entries: VecDeque<T>,
    cap: usize,
}

impl<T> View for BoundedLog<T> {
    type V = Seq<T>;

    closed spec fn view(&self) -> Seq<T> {
        self.entries@
    }
}

impl<T> BoundedLog<T> {
    /// The greatest number of entries the log keeps.
    pub closed spec fn capacity(&self) -> nat {
        self.cap as nat
    }

    #[verifier::type_invariant]
    spec fn wf(&self) -> bool {
        &&& self.cap > 0
        &&& self.entries@.len() <= self.cap
    }

    /// An empty log keeping at most `cap` entries.
    pub fn new(cap: usize) -> (log: Self)
        requires
            cap > 0,
        ensures
            log@ == Seq::<T>::empty(),
            log.capacity() == cap,
    {
        BoundedLog { entries: VecDeque::new(), cap }
    }

    pub fn len(&self) -> (n: usize)
        ensures
            n == self@.len(),
    {
        self.entries.len()
    }

    /// Append `item`; when the log is full, its oldest entry is dropped first.
    pub fn push(&mut self, item: T)
        ensures
            final(self).capacity() == old(self).capacity(),
            final(self)@ == push_one(old(self)@, item, old(self).capacity()),
    {
        proof {
            use_type_invariant(&*self);
        }
        let mut entries: VecDeque<T> = VecDeque::new();
        std::mem::swap(&mut entries, &mut self.entries);
        if entries.len() >= self.cap {
            let _ = entries.pop_front();
        }
        entries.push_back(item);
        self.entries = entries;
    }

    /// Hand back every entry, oldest first, and leave the log empty.
    pub fn drain(&mut self) -> (out: Vec<T>)
        ensures
            final(self).capacity() == old(self).capacity(),
            final(self)@ == Seq::<T>::empty(),
            out@ == old(self)@,
    {
        proof {
            use_type_invariant(&*self);
        }
        let mut entries: VecDeque<T> = VecDeque::new();
        std::mem::swap(&mut entries, &mut self.entries);
        let mut out: Vec<T> = Vec::new();
        let ghost start = entries@;
        while entries.len() > 0
            invariant
                start == old(self)@,
                out@ + entries@ == start,
            decreases entries@.len(),
        {
            match entries.pop_front() {
                Some(x) => {
                    proof {
                        assert(out@.push(x) + entries@ =~= start);
                    }
                    out.push(x);
                },
                None => {},
            }
        }
        proof {
            assert(out@ =~= out@ + entries@);
        }
        out
    }
}

/// Pushing one more item into a log that holds the newest `cap` items of `s`
/// leaves the newest `cap` items of `s` followed by that item.
proof fn lemma_push_newest<T>(s: Seq<T>, item: T, cap: nat)
    requires
        cap > 0,
    ensures
        push_one(newest(s, cap), item, cap) == newest(s.push(item), cap),
{
    let t = s.push(item);
    if s.len() < cap {
        assert(push_one(newest(s, cap), item, cap) =~= newest(t, cap));
    } else {
        assert(push_one(newest(s, cap), item, cap) =~= newest(t, cap));
    }
}

/// A log filled by pushes, starting empty, holds exactly the newest `cap`
/// of the pushed items, in the order they were pushed.
pub proof fn law_log_keeps_newest<T>(items: Seq<T>, cap: nat)
    requires
        cap > 0,
    ensures
        pushed_all(Seq::<T>::empty(), items, cap) == newest(items, cap),
{
    lemma_pushed_all_from_newest(Seq::<T>::empty(), items, cap);
    assert(Seq::<T>::empty() + items =~= items);
}

proof fn lemma_pushed_all_from_newest<T>(prefix: Seq<T>, items: Seq<T>, cap: nat)
    requires
        cap > 0,
    ensures
        pushed_all(newest(prefix, cap), items, cap) == newest(prefix + items, cap),
    decreases items.len(),
{
    if items.len() == 0 {
        assert(prefix + items =~= prefix);
    } else {
        lemma_push_newest(prefix, items[0], cap);
        lemma_pushed_all_from_newest(prefix.push(items[0]), items.drop_first(), cap);
        assert(prefix.push(items[0]) + items.drop_first() =~= prefix + items);
    }
}

} // verus!
