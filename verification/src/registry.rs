//! The live links attached to a node or a bus, each known by the
//! generation number its link was given. Tearing a link down removes it
//! from every registry that holds it.

use vstd::prelude::*;
use crate::seqs::{
    distinct_keys, keys_differ, keys_of, lemma_without_key_contains, lemma_without_key_distinct,
    lemma_without_key_twice, without_key,
};

verus! {

pub struct LinkRegistry<T> {
    entries: Vec<(u64, T)>,
}

impl<T> LinkRegistry<T> {
    /// No generation is held twice: each link has a generation of its own.
    #[verifier::type_invariant]
    spec fn wf(&self) -> bool {
        distinct_keys(self.entries@)
    }

    /// Each link held with its generation, in the order they were added.
    pub closed spec fn entries(&self) -> Seq<(u64, T)> {
        self.entries@
    }

    /// The generations of the links held, in the order they were added.
    pub closed spec fn keys(&self) -> Seq<u64> {
        keys_of(self.entries@)
    }

    pub fn new() -> (r: Self)
        ensures
            r.keys() == Seq::<u64>::empty(),
            r.entries() == Seq::<(u64, T)>::empty(),
            distinct_keys(r.entries()),
    {
        let r = LinkRegistry { entries: Vec::new() };
        assert(keys_of(r.entries@) =~= Seq::<u64>::empty());
        r
    }

    pub fn len(&self) -> (n: usize)
        ensures
            n == self.keys().len(),
            n == self.entries().len(),
    {
        self.entries.len()
    }

    /// Whether a link of this generation is held.
    pub fn holds(&self, generation: u64) -> (r: bool)
        ensures
            r == self.keys().contains(generation),
    {
        let mut i: usize = 0;
        while i < self.entries.len()
            invariant
                i <= self.entries@.len(),
                forall|j: int| 0 <= j < i ==> #[trigger] self.entries@[j].0 != generation,
            decreases self.entries@.len() - i,
        {
            if self.entries[i].0 == generation {
                assert(keys_of(self.entries@)[i as int] == generation);
                return true;
            }
            i = i + 1;
        }
        proof {
            if keys_of(self.entries@).contains(generation) {
                let j = choose|j: int| 0 <= j < keys_of(self.entries@).len() && #[trigger] keys_of(self.entries@)[j] == generation;
                assert(self.entries@[j].0 == generation);
            }
        }
        false
    }

    /// Hold a link under a generation that no held link has.
    pub fn insert(&mut self, generation: u64, link: T)
        requires
            !old(self).keys().contains(generation),
        ensures
            final(self).keys() == old(self).keys().push(generation),
            final(self).entries() == old(self).entries().push((generation, link)),
            distinct_keys(final(self).entries()),
    {
        proof {
            use_type_invariant(&*self);
        }
        let ghost before = self.entries@;
        let mut entries: Vec<(u64, T)> = Vec::new();
        std::mem::swap(&mut entries, &mut self.entries);
        entries.push((generation, link));
        proof {
            assert forall|i: int, j: int| 0 <= i < j < entries@.len() implies #[trigger] keys_differ::<T>()(entries@[i], entries@[j]) by {
                if j == before.len() {
                    assert(keys_of(before)[i] == before[i].0);
                } else {
                    assert(keys_differ::<T>()(before[i], before[j]));
                }
            }
        }
        self.entries = entries;
        assert(keys_of(self.entries@) =~= keys_of(before).push(generation));
    }

    /// Forget the link of this generation. The count falls by one when
    /// such a link was held and stays as it was otherwise.
    pub fn remove(&mut self, generation: u64)
        ensures
            final(self).entries() == without_key(old(self).entries(), generation),
            old(self).keys().contains(generation) ==> final(self).entries().len() == old(self).entries().len() - 1,
            !old(self).keys().contains(generation) ==> final(self).entries() == old(self).entries(),
            distinct_keys(final(self).entries()),
    {
        proof {
            use_type_invariant(&*self);
            lemma_without_key_distinct(self.entries@, generation);
        }
        let mut rest: Vec<(u64, T)> = Vec::new();
        std::mem::swap(&mut rest, &mut self.entries);
        let ghost all = rest@;
        let mut kept: Vec<(u64, T)> = Vec::new();
        let n: usize = rest.len();
        let mut i: usize = 0;
        while rest.len() > 0
            invariant
                i + rest@.len() == n,
                all.len() == n,
                rest@ == all.skip(i as int),
                kept@ == without_key(all.take(i as int), generation),
                all == old(self).entries(),
            decreases rest@.len(),
        {
            let ghost pre = rest@;
            let e = rest.remove(0);
            proof {
                assert(all.take(i + 1).drop_last() =~= all.take(i as int));
                assert(pre[0] == all[i as int]);
                assert(rest@ =~= pre.drop_first());
                assert(all.skip(i as int).drop_first() =~= all.skip(i + 1));
            }
            if e.0 != generation {
                kept.push(e);
            }
            i = i + 1;
        }
        proof {
            assert(all.take(n as int) =~= all);
        }
        self.entries = kept;
    }

    /// The links held, oldest first.
    pub closed spec fn links(&self) -> Seq<T> {
        self.entries@.map_values(|e: (u64, T)| e.1)
    }

    /// Hand back every link held, oldest first, and hold none.
    pub fn take_all(&mut self) -> (links: Vec<T>)
        ensures
            final(self).keys() == Seq::<u64>::empty(),
            links@ == old(self).links(),
    {
        let mut rest: Vec<(u64, T)> = Vec::new();
        std::mem::swap(&mut rest, &mut self.entries);
        assert(keys_of(self.entries@) =~= Seq::<u64>::empty());
        let mut links: Vec<T> = Vec::new();
        let ghost all = rest@.map_values(|e: (u64, T)| e.1);
        let n: usize = rest.len();
        let mut i: usize = 0;
        while rest.len() > 0
            invariant
                i + rest@.len() == n,
                all.len() == n,
                links@ == all.take(i as int),
                rest@.map_values(|e: (u64, T)| e.1) == all.skip(i as int),
                all == old(self).links(),
            decreases rest@.len(),
        {
            let ghost pre = rest@;
            let e = rest.remove(0);
            proof {
                assert(pre.map_values(|e: (u64, T)| e.1)[0] == all[i as int]);
                assert(rest@.map_values(|e: (u64, T)| e.1) =~= pre.map_values(|e: (u64, T)| e.1).drop_first());
                assert(all.skip(i as int).drop_first() =~= all.skip(i + 1));
                assert(all.take(i as int).push(e.1) =~= all.take(i + 1));
            }
            links.push(e.1);
            i = i + 1;
        }
        assert(all.take(n as int) =~= all);
        links
    }
}

/// Whether a link has been torn down. Teardown happens once: the first
/// disconnect does the work, later ones find it done.
pub struct LinkTeardown {
    generation: u64,
    done: bool,
}

impl LinkTeardown {
    pub closed spec fn spec_generation(&self) -> u64 {
        self.generation
    }

    pub closed spec fn is_done(&self) -> bool {
        self.done
    }

    /// A live link of this generation.
    pub fn new(generation: u64) -> (t: Self)
        ensures
            t.spec_generation() == generation,
            !t.is_done(),
    {
        LinkTeardown { generation, done: false }
    }

    pub fn generation(&self) -> (g: u64)
        ensures
            g == self.spec_generation(),
    {
        self.generation
    }

    /// Mark the link torn down. The answer says whether this call is the
    /// one that must do the work (the link was still live).
    pub fn begin(&mut self) -> (first: bool)
        ensures
            first == !old(self).is_done(),
            final(self).is_done(),
            final(self).spec_generation() == old(self).spec_generation(),
    {
        let first = !self.done;
        self.done = true;
        first
    }
}

/// Forgetting a link is done once and for all: forgetting it again changes
/// nothing, and afterwards the registry holds no link of that generation.
pub proof fn law_remove_is_idempotent<T>(entries: Seq<(u64, T)>, generation: u64, link: T)
    ensures
        without_key(without_key(entries, generation), generation) == without_key(entries, generation),
        !without_key(entries, generation).contains((generation, link)),
{
    lemma_without_key_twice(entries, generation);
    lemma_without_key_contains(entries, generation, (generation, link));
}

/// Tearing down a link that joins two ends lowers each end's count of
/// links by exactly one and keeps every other link of each end; tearing it
/// down a second time changes nothing further.
pub proof fn law_disconnect_drops_one_link_per_end<T>(a: Seq<(u64, T)>, b: Seq<(u64, T)>, generation: u64, other: (u64, T))
    requires
        distinct_keys(a),
        distinct_keys(b),
        keys_of(a).contains(generation),
        keys_of(b).contains(generation),
        other.0 != generation,
    ensures
        without_key(a, generation).len() == a.len() - 1,
        without_key(b, generation).len() == b.len() - 1,
        a.contains(other) <==> without_key(a, generation).contains(other),
        b.contains(other) <==> without_key(b, generation).contains(other),
        without_key(without_key(a, generation), generation) == without_key(a, generation),
        without_key(without_key(b, generation), generation) == without_key(b, generation),
{
    lemma_without_key_distinct(a, generation);
    lemma_without_key_distinct(b, generation);
    lemma_without_key_contains(a, generation, other);
    lemma_without_key_contains(b, generation, other);
    lemma_without_key_twice(a, generation);
    lemma_without_key_twice(b, generation);
}

/// Forgetting one link keeps every link of another generation.
pub proof fn law_remove_keeps_others<T>(entries: Seq<(u64, T)>, generation: u64, other: (u64, T))
    requires
        other.0 != generation,
    ensures
        entries.contains(other) <==> without_key(entries, generation).contains(other),
{
    lemma_without_key_contains(entries, generation, other);
}

} // verus!
