//! Removing entries from a sequence, order kept: the one definition that
//! status nets, bus members and link registries all go by.

use vstd::prelude::*;

verus! {

/// The entries of `s` that `keep` accepts, in their order.
pub open spec fn retain<A>(s: Seq<A>, keep: spec_fn(A) -> bool) -> Seq<A>
    decreases s.len(),
{
    if s.len() == 0 {
        s
    } else {
        let rest = retain(s.drop_last(), keep);
        if keep(s.last()) {
            rest.push(s.last())
        } else {
            rest
        }
    }
}

/// `s` without any occurrence of `x`.
pub open spec fn without<A>(s: Seq<A>, x: A) -> Seq<A> {
    retain(s, |a: A| a != x)
}

/// Accepts the entries whose key is not `k`.
pub open spec fn key_is_not<V>(k: u64) -> spec_fn((u64, V)) -> bool {
    |e: (u64, V)| e.0 != k
}

/// The entries of `s` whose key is not `k`.
pub open spec fn without_key<V>(s: Seq<(u64, V)>, k: u64) -> Seq<(u64, V)> {
    retain(s, key_is_not::<V>(k))
}

/// The keys of `s`, in order.
pub open spec fn keys_of<V>(s: Seq<(u64, V)>) -> Seq<u64> {
    s.map_values(|e: (u64, V)| e.0)
}

/// `rel` holds of every entry of `s` and every entry after it.
pub open spec fn pairwise<A>(s: Seq<A>, rel: spec_fn(A, A) -> bool) -> bool {
    forall|i: int, j: int| 0 <= i < j < s.len() ==> #[trigger] rel(s[i], s[j])
}

/// Two entries with different keys.
pub open spec fn keys_differ<V>() -> spec_fn((u64, V), (u64, V)) -> bool {
    |a: (u64, V), b: (u64, V)| a.0 != b.0
}

/// No key occurs in `s` twice.
pub open spec fn distinct_keys<V>(s: Seq<(u64, V)>) -> bool {
    pairwise(s, keys_differ::<V>())
}

/// The entries of `s` whose key is `k`.
pub open spec fn with_key<V>(s: Seq<(u64, V)>, k: u64) -> Seq<(u64, V)> {
    retain(s, |e: (u64, V)| e.0 == k)
}

/// An entry is kept exactly when it was there and is accepted.
pub proof fn lemma_retain_contains<A>(s: Seq<A>, keep: spec_fn(A) -> bool, x: A)
    ensures
        retain(s, keep).contains(x) <==> (s.contains(x) && keep(x)),
    decreases s.len(),
{
    if s.len() > 0 {
        lemma_retain_contains(s.drop_last(), keep, x);
        let init = s.drop_last();
        let rest = retain(init, keep);
        let r = retain(s, keep);
        if s.contains(x) && keep(x) {
            let k = choose|k: int| 0 <= k < s.len() && #[trigger] s[k] == x;
            if k < s.len() - 1 {
                assert(init[k] == x);
                let j = choose|j: int| 0 <= j < rest.len() && #[trigger] rest[j] == x;
                if keep(s.last()) {
                    assert(r[j] == x);
                }
            } else {
                assert(r[r.len() - 1] == x);
            }
        }
        if r.contains(x) {
            let j = choose|j: int| 0 <= j < r.len() && #[trigger] r[j] == x;
            if keep(s.last()) && j == rest.len() {
                assert(s[s.len() - 1] == x);
            } else {
                assert(rest[j] == x);
                let k = choose|k: int| 0 <= k < init.len() && #[trigger] init[k] == x;
                assert(s[k] == x);
            }
        }
    }
}

/// Keeping twice by the same rule keeps the same entries as keeping once.
pub proof fn lemma_retain_twice<A>(s: Seq<A>, keep: spec_fn(A) -> bool)
    ensures
        retain(retain(s, keep), keep) == retain(s, keep),
    decreases s.len(),
{
    if s.len() > 0 {
        lemma_retain_twice(s.drop_last(), keep);
        let rest = retain(s.drop_last(), keep);
        if keep(s.last()) {
            assert(rest.push(s.last()).drop_last() =~= rest);
        }
    }
}

/// `without(s, x)` holds every entry of `s` but `x`.
pub proof fn lemma_without_contains<A>(s: Seq<A>, x: A, y: A)
    ensures
        without(s, x).contains(y) <==> (s.contains(y) && y != x),
{
    lemma_retain_contains(s, |a: A| a != x, y);
}

/// `without_key(s, k)` holds every entry of `s` whose key is not `k`.
pub proof fn lemma_without_key_contains<V>(s: Seq<(u64, V)>, k: u64, e: (u64, V))
    ensures
        without_key(s, k).contains(e) <==> (s.contains(e) && e.0 != k),
{
    lemma_retain_contains(s, key_is_not::<V>(k), e);
}

/// Removing a key twice removes what removing it once does.
pub proof fn lemma_without_key_twice<V>(s: Seq<(u64, V)>, k: u64)
    ensures
        without_key(without_key(s, k), k) == without_key(s, k),
{
    lemma_retain_twice(s, key_is_not::<V>(k));
}

/// What `retain` keeps of entries related pairwise stays related pairwise.
pub proof fn lemma_retain_pairwise<A>(s: Seq<A>, keep: spec_fn(A) -> bool, rel: spec_fn(A, A) -> bool)
    requires
        pairwise(s, rel),
    ensures
        pairwise(retain(s, keep), rel),
    decreases s.len(),
{
    if s.len() > 0 {
        let init = s.drop_last();
        assert(pairwise(init, rel)) by {
            assert forall|i: int, j: int| 0 <= i < j < init.len() implies #[trigger] rel(init[i], init[j]) by {
                assert(init[i] == s[i] && init[j] == s[j]);
            }
        }
        lemma_retain_pairwise(init, keep, rel);
        let rest = retain(init, keep);
        if keep(s.last()) {
            let r = rest.push(s.last());
            assert forall|i: int, j: int| 0 <= i < j < r.len() implies #[trigger] rel(r[i], r[j]) by {
                if j == r.len() - 1 {
                    lemma_retain_contains(init, keep, rest[i]);
                    assert(rest.contains(rest[i]));
                    let k = choose|k: int| 0 <= k < init.len() && #[trigger] init[k] == rest[i];
                    assert(s[k] == r[i]);
                    assert(s[s.len() - 1] == r[j]);
                    assert(rel(s[k], s[s.len() - 1]));
                } else {
                    assert(r[i] == rest[i] && r[j] == rest[j]);
                }
            }
        }
    }
}

/// `retain` keeps `s` whole when it accepts every entry.
pub proof fn lemma_retain_all<A>(s: Seq<A>, keep: spec_fn(A) -> bool)
    requires
        forall|i: int| 0 <= i < s.len() ==> #[trigger] keep(s[i]),
    ensures
        retain(s, keep) == s,
    decreases s.len(),
{
    if s.len() > 0 {
        let init = s.drop_last();
        assert forall|i: int| 0 <= i < init.len() implies #[trigger] keep(init[i]) by {
            assert(init[i] == s[i]);
        }
        lemma_retain_all(init, keep);
        assert(keep(s[s.len() - 1]));
        assert(init.push(s.last()) =~= s);
    }
}

/// `retain` drops exactly one entry when it refuses exactly one.
pub proof fn lemma_retain_drops_one<A>(s: Seq<A>, keep: spec_fn(A) -> bool, k: int)
    requires
        0 <= k < s.len(),
        !keep(s[k]),
        forall|i: int| 0 <= i < s.len() && i != k ==> #[trigger] keep(s[i]),
    ensures
        retain(s, keep).len() == s.len() - 1,
    decreases s.len(),
{
    let init = s.drop_last();
    if k == s.len() - 1 {
        assert forall|i: int| 0 <= i < init.len() implies #[trigger] keep(init[i]) by {
            assert(init[i] == s[i]);
        }
        lemma_retain_all(init, keep);
    } else {
        assert(init[k] == s[k]);
        assert forall|i: int| 0 <= i < init.len() && i != k implies #[trigger] keep(init[i]) by {
            assert(init[i] == s[i]);
        }
        lemma_retain_drops_one(init, keep, k);
        assert(keep(s[s.len() - 1]));
    }
}

/// Without repeats, removing `x` takes one entry away when `x` is there and
/// none otherwise, and leaves no repeats.
pub proof fn lemma_without_distinct<A>(s: Seq<A>, x: A)
    requires
        s.no_duplicates(),
    ensures
        s.contains(x) ==> without(s, x).len() == s.len() - 1,
        !s.contains(x) ==> without(s, x) == s,
        without(s, x).no_duplicates(),
{
    let keep = |a: A| a != x;
    let ne = |a: A, b: A| a != b;
    assert(pairwise(s, ne));
    lemma_retain_pairwise(s, keep, ne);
    let r = without(s, x);
    assert forall|i: int, j: int| 0 <= i < r.len() && 0 <= j < r.len() && i != j implies r[i] != r[j] by {
        if i < j {
            assert(ne(r[i], r[j]));
        } else {
            assert(ne(r[j], r[i]));
        }
    }
    if s.contains(x) {
        let k = choose|k: int| 0 <= k < s.len() && #[trigger] s[k] == x;
        assert forall|i: int| 0 <= i < s.len() && i != k implies #[trigger] keep(s[i]) by {
            assert(s[i] != s[k]);
        }
        lemma_retain_drops_one(s, keep, k);
    } else {
        assert forall|i: int| 0 <= i < s.len() implies #[trigger] keep(s[i]) by {
            assert(s.contains(s[i]));
        }
        lemma_retain_all(s, keep);
    }
}

/// With distinct keys, removing key `k` takes one entry away when an entry
/// has that key and none otherwise, and keeps the keys distinct.
pub proof fn lemma_without_key_distinct<V>(s: Seq<(u64, V)>, k: u64)
    requires
        distinct_keys(s),
    ensures
        keys_of(s).contains(k) ==> without_key(s, k).len() == s.len() - 1,
        !keys_of(s).contains(k) ==> without_key(s, k) == s,
        distinct_keys(without_key(s, k)),
{
    let keep = key_is_not::<V>(k);
    lemma_retain_pairwise(s, keep, keys_differ::<V>());
    if keys_of(s).contains(k) {
        let i0 = choose|i: int| 0 <= i < keys_of(s).len() && #[trigger] keys_of(s)[i] == k;
        assert(s[i0].0 == k);
        assert forall|i: int| 0 <= i < s.len() && i != i0 implies #[trigger] keep(s[i]) by {
            if i < i0 {
                assert(keys_differ::<V>()(s[i], s[i0]));
            } else {
                assert(keys_differ::<V>()(s[i0], s[i]));
            }
        }
        lemma_retain_drops_one(s, keep, i0);
    } else {
        assert forall|i: int| 0 <= i < s.len() implies #[trigger] keep(s[i]) by {
            assert(keys_of(s)[i] == s[i].0);
        }
        lemma_retain_all(s, keep);
    }
}

} // verus!
