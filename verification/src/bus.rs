//! The membership of a shared packet bus. One root-router interface and
//! any number of edge devices share one broadcast medium and therefore one
//! network id; every member hears every frame sent by another member.

use vstd::prelude::*;
use futures_channel::mpsc::Sender;
use crate::counter::{successor, IdCounter};
use crate::transport::{bumped64, bumped64_by, Delivery, Inbox, OfferTally};
use crate::seqs::{lemma_without_contains, lemma_without_distinct, with_key, without, without_key};

verus! {

struct BusMember {
    id: u64,
    inbox: Inbox,
}

/// The member ids of `members`, in order.
spec fn ids_of(members: Seq<BusMember>) -> Seq<u64> {
    members.map_values(|m: BusMember| m.id)
}

/// Each member as its id and its inbox, in order.
spec fn entries_of(members: Seq<BusMember>) -> Seq<(u64, Sender<Vec<u8>>)> {
    members.map_values(|m: BusMember| (m.id, m.inbox.sender()))
}

/// How many frames each member has been offered, in order.
spec fn counts_of(members: Seq<BusMember>) -> Seq<u64> {
    members.map_values(|m: BusMember| m.inbox.offered())
}

/// How many of `ids` are not `sender`: the copies a frame from `sender`
/// is offered as.
pub open spec fn others(ids: Seq<u64>, sender: u64) -> nat
    decreases ids.len(),
{
    if ids.len() == 0 {
        0
    } else {
        others(ids.drop_last(), sender) + if ids.last() == sender { 0nat } else { 1nat }
    }
}

/// The offer counts of the members left after a frame from `sender` went
/// round (`counts[i]` belonging to `ids[i]`): every member but the sender
/// was offered the frame once more; the sender was not offered it.
pub open spec fn counts_after_send(ids: Seq<u64>, counts: Seq<u64>, sender: u64, outcomes: Seq<Delivery>) -> Seq<u64>
    decreases ids.len(),
{
    if ids.len() == 0 {
        Seq::empty()
    } else {
        let rest = counts_after_send(ids.drop_last(), counts.drop_last(), sender, outcomes.drop_last());
        if ids.last() == sender {
            rest.push(counts.last())
        } else if outcomes.last() != Delivery::Disconnected {
            rest.push(bumped64(counts.last()))
        } else {
            rest
        }
    }
}

/// The ids left after a frame from `sender` went round: the sender and
/// every member whose inbox was not gone stay; `outcomes[i]` is what became
/// of the copy handed to member `i`.
pub open spec fn kept_after_send(ids: Seq<u64>, sender: u64, outcomes: Seq<Delivery>) -> Seq<u64>
    decreases ids.len(),
{
    if ids.len() == 0 {
        ids
    } else {
        let rest = kept_after_send(ids.drop_last(), sender, outcomes.drop_last());
        if ids.last() == sender || outcomes.last() != Delivery::Disconnected {
            rest.push(ids.last())
        } else {
            rest
        }
    }
}

/// How many copies of a frame from `sender` found a full inbox.
pub open spec fn full_count(ids: Seq<u64>, sender: u64, outcomes: Seq<Delivery>) -> nat
    decreases ids.len(),
{
    if ids.len() == 0 {
        0
    } else {
        let rest = full_count(ids.drop_last(), sender, outcomes.drop_last());
        if ids.last() != sender && outcomes.last() == Delivery::Full {
            rest + 1
        } else {
            rest
        }
    }
}

/// `drops` after `k` more dropped frames (sticking at the maximum).
pub open spec fn bumped_by(drops: u32, k: nat) -> u32 {
    if drops + k > u32::MAX {
        u32::MAX
    } else {
        (drops + k) as u32
    }
}

pub struct BusState {
    members: Vec<BusMember>,
    ids: IdCounter,
    router_member: Option<u64>,
    net_id: u16,
    offers: OfferTally,
}

impl BusState {
    /// The member ids, in the order members joined.
    pub closed spec fn member_ids(&self) -> Seq<u64> {
        ids_of(self.members@)
    }

    /// Each member as its id and its inbox, in the order members joined.
    pub closed spec fn members(&self) -> Seq<(u64, Sender<Vec<u8>>)> {
        entries_of(self.members@)
    }

    /// How many frames each member has been offered, in the order members
    /// joined.
    pub closed spec fn offer_counts(&self) -> Seq<u64> {
        counts_of(self.members@)
    }

    /// How many frames have been offered to members' inboxes in all.
    pub closed spec fn offers_made(&self) -> u64 {
        self.offers.count()
    }

    /// The id the next member gets.
    pub closed spec fn next_id(&self) -> u64 {
        self.ids.peek()
    }

    pub closed spec fn router(&self) -> Option<u64> {
        self.router_member
    }

    pub closed spec fn spec_net_id(&self) -> u16 {
        self.net_id
    }

    /// No two members share an id, and no member has an id the bus is
    /// still to hand out. A new bus starts so, and every operation keeps it
    /// so, until the id counter has run through every value and starts
    /// again at one.
    pub closed spec fn ids_unique(&self) -> bool {
        &&& self.member_ids().no_duplicates()
        &&& forall|i: int| 0 <= i < self.member_ids().len() ==> #[trigger] self.member_ids()[i] < self.next_id()
    }

    /// An empty bus: no members, no router, net 0.
    pub fn new() -> (b: Self)
        ensures
            b.member_ids() == Seq::<u64>::empty(),
            b.members() == Seq::<(u64, Sender<Vec<u8>>)>::empty(),
            b.next_id() == 1,
            b.router() is None,
            b.spec_net_id() == 0,
            b.ids_unique(),
            b.offer_counts() == Seq::<u64>::empty(),
            b.offers_made() == 0,
    {
        let b = BusState { members: Vec::new(), ids: IdCounter::new(), router_member: None, net_id: 0, offers: OfferTally::new() };
        assert(counts_of(b.members@) =~= Seq::<u64>::empty());
        assert(ids_of(b.members@) =~= Seq::<u64>::empty());
        assert(entries_of(b.members@) =~= Seq::<(u64, Sender<Vec<u8>>)>::empty());
        b
    }

    pub fn router_attached(&self) -> (r: bool)
        ensures
            r == self.router() is Some,
    {
        self.router_member.is_some()
    }

    pub fn member_count(&self) -> (n: usize)
        ensures
            n == self.member_ids().len(),
    {
        self.members.len()
    }

    pub fn net_id(&self) -> (n: u16)
        ensures
            n == self.spec_net_id(),
    {
        self.net_id
    }

    /// Record that member `member` is the bus's router interface on `net_id`.
    pub fn set_router(&mut self, member: u64, net_id: u16)
        ensures
            final(self).router() == Some(member),
            final(self).spec_net_id() == net_id,
            final(self).member_ids() == old(self).member_ids(),
            final(self).members() == old(self).members(),
            final(self).next_id() == old(self).next_id(),
            final(self).ids_unique() == old(self).ids_unique(),
            final(self).offer_counts() == old(self).offer_counts(),
            final(self).offers_made() == old(self).offers_made(),
    {
        self.router_member = Some(member);
        self.net_id = net_id;
    }

    /// Add a member with the given inbox; it gets the next member id.
    pub fn add_member(&mut self, inbox: Sender<Vec<u8>>) -> (id: u64)
        ensures
            id == old(self).next_id(),
            id >= 1,
            final(self).next_id() == successor(id),
            final(self).member_ids() == old(self).member_ids().push(id),
            final(self).members() == old(self).members().push((id, inbox)),
            final(self).router() == old(self).router(),
            final(self).spec_net_id() == old(self).spec_net_id(),
            old(self).ids_unique() && old(self).next_id() < u64::MAX ==> final(self).ids_unique(),
            final(self).offer_counts() == old(self).offer_counts().push(0),
            final(self).offers_made() == old(self).offers_made(),
    {
        let id = self.ids.take();
        let ghost before = self.members@;
        let ghost kept = inbox;
        self.members.push(BusMember { id, inbox: Inbox::new(inbox) });
        assert(ids_of(self.members@) =~= ids_of(before).push(id));
        assert(entries_of(self.members@) =~= entries_of(before).push((id, kept)));
        assert(counts_of(self.members@) =~= counts_of(before).push(0));
        proof {
            let was = ids_of(before);
            let now = ids_of(self.members@);
            if (forall|i: int| 0 <= i < was.len() ==> #[trigger] was[i] < id) && was.no_duplicates() && id < u64::MAX {
                assert forall|i: int| 0 <= i < now.len() implies #[trigger] now[i] < successor(id) by {
                    if i < was.len() {
                        assert(now[i] == was[i]);
                    }
                }
                assert forall|i: int, j: int| 0 <= i < now.len() && 0 <= j < now.len() && i != j implies now[i] != now[j] by {
                    if i < was.len() && j < was.len() {
                        assert(now[i] == was[i] && now[j] == was[j]);
                    } else if i < was.len() {
                        assert(now[i] == was[i]);
                    } else {
                        assert(now[j] == was[j]);
                    }
                }
            }
        }
        id
    }

    /// Remove every member with this id. When it was the router, the bus
    /// has no router any more and its net id returns to 0.
    pub fn remove_member(&mut self, id: u64)
        ensures
            final(self).member_ids() == without(old(self).member_ids(), id),
            final(self).members() == without_key(old(self).members(), id),
            final(self).next_id() == old(self).next_id(),
            old(self).router() == Some(id) ==> final(self).router() is None && final(self).spec_net_id() == 0,
            old(self).router() != Some(id) ==> final(self).router() == old(self).router()
                && final(self).spec_net_id() == old(self).spec_net_id(),
            old(self).ids_unique() ==> final(self).ids_unique(),
            old(self).ids_unique() && old(self).member_ids().contains(id)
                ==> final(self).member_ids().len() == old(self).member_ids().len() - 1,
            old(self).ids_unique() && !old(self).member_ids().contains(id)
                ==> final(self).member_ids() == old(self).member_ids(),
            final(self).offers_made() == old(self).offers_made(),
    {
        let mut rest: Vec<BusMember> = Vec::new();
        std::mem::swap(&mut rest, &mut self.members);
        let ghost all = ids_of(rest@);
        let ghost all_entries = entries_of(rest@);
        let n: usize = rest.len();
        let mut i: usize = 0;
        while rest.len() > 0
            invariant
                i + rest@.len() == n,
                all.len() == n,
                all_entries.len() == n,
                ids_of(rest@) == all.skip(i as int),
                entries_of(rest@) == all_entries.skip(i as int),
                ids_of(self.members@) == without(all.take(i as int), id),
                entries_of(self.members@) == without_key(all_entries.take(i as int), id),
                self.ids == old(self).ids,
                self.router_member == old(self).router_member,
                self.net_id == old(self).net_id,
                self.offers == old(self).offers,
            decreases rest@.len(),
        {
            let ghost pre = rest@;
            let m = rest.remove(0);
            proof {
                assert(all.take(i + 1).drop_last() =~= all.take(i as int));
                assert(all_entries.take(i + 1).drop_last() =~= all_entries.take(i as int));
                assert(ids_of(pre)[0] == all[i as int]);
                assert(entries_of(pre)[0] == all_entries[i as int]);
                assert(ids_of(rest@) =~= ids_of(pre).drop_first());
                assert(entries_of(rest@) =~= entries_of(pre).drop_first());
                assert(all.skip(i as int).drop_first() =~= all.skip(i + 1));
                assert(all_entries.skip(i as int).drop_first() =~= all_entries.skip(i + 1));
            }
            if m.id != id {
                let ghost before = self.members@;
                let ghost e = (m.id, m.inbox.sender());
                self.members.push(m);
                assert(ids_of(self.members@) =~= ids_of(before).push(e.0));
                assert(entries_of(self.members@) =~= entries_of(before).push(e));
            }
            i = i + 1;
        }
        proof {
            assert(all.take(n as int) =~= all);
            assert(all_entries.take(n as int) =~= all_entries);
        }
        if self.router_member == Some(id) {
            self.router_member = None;
            self.net_id = 0;
        }
        proof {
            let was = old(self).member_ids();
            let now = self.member_ids();
            if old(self).ids_unique() {
                lemma_without_distinct(was, id);
                assert forall|i: int| 0 <= i < now.len() implies #[trigger] now[i] < self.next_id() by {
                    lemma_without_contains(was, id, now[i]);
                    assert(now.contains(now[i]));
                }
            }
        }
    }
}

impl BusState {
    /// Hand a copy of `data` to every member but `sender`: each of them is
    /// offered the frame exactly once, and the sender is not offered it. A
    /// member whose inbox is full misses the frame, which counts as a
    /// dropped frame; a member whose inbox is gone leaves the bus. Whatever
    /// each inbox does, the members left, their offer counts and the drop
    /// counter are those `kept_after_send`, `counts_after_send` and
    /// `full_count` give for the outcomes that occurred. The answer is
    /// whether `sender` is still a member.
    pub fn deliver(&mut self, sender: u64, data: &[u8], overflow_drops: &mut u32) -> (attached: bool)
        ensures
            attached == old(self).member_ids().contains(sender),
            exists|outcomes: Seq<Delivery>| {
                &&& outcomes.len() == old(self).member_ids().len()
                &&& final(self).member_ids() == #[trigger] kept_after_send(old(self).member_ids(), sender, outcomes)
                &&& final(self).offer_counts() == counts_after_send(old(self).member_ids(), old(self).offer_counts(), sender, outcomes)
                &&& *final(overflow_drops) == bumped_by(*old(overflow_drops), full_count(old(self).member_ids(), sender, outcomes))
            },
            final(self).offers_made() == bumped64_by(old(self).offers_made(), others(old(self).member_ids(), sender)),
            with_key(final(self).members(), sender) == with_key(old(self).members(), sender),
            final(self).next_id() == old(self).next_id(),
            final(self).router() == old(self).router(),
            final(self).spec_net_id() == old(self).spec_net_id(),
            old(self).ids_unique() ==> final(self).ids_unique(),
    {
        let mut rest: Vec<BusMember> = Vec::new();
        std::mem::swap(&mut rest, &mut self.members);
        let ghost all = ids_of(rest@);
        let ghost all_entries = entries_of(rest@);
        let ghost all_counts = counts_of(rest@);
        let n: usize = rest.len();
        let ghost mut outcomes: Seq<Delivery> = Seq::empty();
        let mut attached = false;
        let mut i: usize = 0;
        while rest.len() > 0
            invariant
                i + rest@.len() == n,
                all.len() == n,
                outcomes.len() == i,
                ids_of(rest@) == all.skip(i as int),
                ids_of(self.members@) == kept_after_send(all.take(i as int), sender, outcomes),
                *overflow_drops == bumped_by(*old(overflow_drops), full_count(all.take(i as int), sender, outcomes)),
                attached == all.take(i as int).contains(sender),
                all_entries.len() == n,
                entries_of(rest@) == all_entries.skip(i as int),
                with_key(entries_of(self.members@), sender) == with_key(all_entries.take(i as int), sender),
                all_entries == old(self).members(),
                all_counts.len() == n,
                counts_of(rest@) == all_counts.skip(i as int),
                counts_of(self.members@) == counts_after_send(all.take(i as int), all_counts.take(i as int), sender, outcomes),
                all_counts == old(self).offer_counts(),
                self.offers.count() == bumped64_by(old(self).offers_made(), others(all.take(i as int), sender)),
                self.ids == old(self).ids,
                self.router_member == old(self).router_member,
                self.net_id == old(self).net_id,
                all == old(self).member_ids(),
            decreases rest@.len(),
        {
            let ghost pre = rest@;
            let ghost before = self.members@;
            let ghost drops_before = *overflow_drops;
            let ghost offers_before = self.offers.count();
            let mut m = rest.remove(0);
            proof {
                assert(all.take(i + 1).drop_last() =~= all.take(i as int));
                assert(ids_of(pre)[0] == all[i as int]);
                assert(ids_of(rest@) =~= ids_of(pre).drop_first());
                assert(all.skip(i as int).drop_first() =~= all.skip(i + 1));
                assert(all.take(i + 1).last() == all[i as int]);
                assert(all_entries.take(i + 1).drop_last() =~= all_entries.take(i as int));
                assert(entries_of(pre)[0] == all_entries[i as int]);
                assert(entries_of(rest@) =~= entries_of(pre).drop_first());
                assert(all_entries.skip(i as int).drop_first() =~= all_entries.skip(i + 1));
                assert(all_entries[i as int].0 == all[i as int]);
                assert(all_counts.take(i + 1).drop_last() =~= all_counts.take(i as int));
                assert(counts_of(pre)[0] == all_counts[i as int]);
                assert(counts_of(rest@) =~= counts_of(pre).drop_first());
                assert(all_counts.skip(i as int).drop_first() =~= all_counts.skip(i + 1));
                assert(all_counts.take(i + 1).last() == all_counts[i as int]);
            }
            let ghost entry = (m.id, m.inbox.sender());
            let ghost count = m.inbox.offered();
            let ghost outcome: Delivery;
            if m.id == sender {
                attached = true;
                proof {
                    outcome = Delivery::Sent;
                    assert(all.take(i + 1)[i as int] == sender);
                }
                self.members.push(m);
                assert(entries_of(self.members@) =~= entries_of(before).push(entry));
                assert(counts_of(self.members@) =~= counts_of(before).push(count));
            } else {
                let d = m.inbox.offer(data, &mut self.offers);
                proof {
                    outcome = d;
                }
                match d {
                    Delivery::Sent => {
                        let ghost e = (m.id, m.inbox.sender());
                        let ghost c = m.inbox.offered();
                        self.members.push(m);
                        assert(entries_of(self.members@) =~= entries_of(before).push(e));
                        assert(counts_of(self.members@) =~= counts_of(before).push(c));
                    },
                    Delivery::Full => {
                        *overflow_drops = overflow_drops.saturating_add(1);
                        let ghost e = (m.id, m.inbox.sender());
                        let ghost c = m.inbox.offered();
                        self.members.push(m);
                        assert(entries_of(self.members@) =~= entries_of(before).push(e));
                        assert(counts_of(self.members@) =~= counts_of(before).push(c));
                    },
                    Delivery::Disconnected => {},
                }
            }
            proof {
                let t0 = all_entries.take(i as int);
                let t1 = all_entries.take(i + 1);
                assert(entry == all_entries[i as int]);
                assert(t1.drop_last() =~= t0);
                assert(t1.last() == entry);
                if entries_of(self.members@).len() != entries_of(before).len() {
                    let now = entries_of(self.members@);
                    assert(now.drop_last() =~= entries_of(before));
                    assert(now.last().0 == entry.0);
                    if entry.0 == sender {
                        assert(now.last() == entry);
                    }
                } else {
                    assert(self.members@ =~= before);
                }
                let old_outcomes = outcomes;
                outcomes = outcomes.push(outcome);
                assert(outcomes.drop_last() =~= old_outcomes);
                assert(ids_of(self.members@) =~= kept_after_send(all.take(i + 1), sender, outcomes)) by {
                    if ids_of(self.members@).len() != ids_of(before).len() {
                        assert(ids_of(self.members@) =~= ids_of(before).push(m.id));
                    } else {
                        assert(self.members@ =~= before);
                    }
                }
                assert(counts_of(self.members@) =~= counts_after_send(all.take(i + 1), all_counts.take(i + 1), sender, outcomes)) by {
                    if counts_of(self.members@).len() == counts_of(before).len() {
                        assert(self.members@ =~= before);
                    }
                }
                assert(all.take(i + 1).contains(sender) == (all.take(i as int).contains(sender) || all[i as int] == sender)) by {
                    let t0 = all.take(i as int);
                    let t1 = all.take(i + 1);
                    if t0.contains(sender) {
                        let k = choose|k: int| 0 <= k < t0.len() && #[trigger] t0[k] == sender;
                        assert(t1[k] == sender);
                    }
                    if t1.contains(sender) {
                        let k = choose|k: int| 0 <= k < t1.len() && #[trigger] t1[k] == sender;
                        if k < i {
                            assert(t0[k] == sender);
                        }
                    }
                }
            }
            i = i + 1;
        }
        proof {
            assert(all.take(n as int) =~= all);
            assert(all_entries.take(n as int) =~= all_entries);
            assert(all_counts.take(n as int) =~= all_counts);
            lemma_kept_within(all, sender, outcomes);
            let now = self.member_ids();
            if old(self).ids_unique() {
                assert forall|i: int| 0 <= i < now.len() implies #[trigger] now[i] < self.next_id() by {
                    assert(now.contains(now[i]));
                    let k = choose|k: int| 0 <= k < all.len() && #[trigger] all[k] == now[i];
                    assert(old(self).member_ids()[k] < old(self).next_id());
                }
            }
        }
        attached
    }
}

/// Every member but the sender is offered a frame that goes round: each
/// member `k` that stays on the bus shows up among the members left with its
/// offer count one higher, unless it is the sender, whose count is
/// untouched. Counts and members left stay side by side.
pub proof fn law_every_other_member_is_offered(ids: Seq<u64>, counts: Seq<u64>, sender: u64, outcomes: Seq<Delivery>, k: int)
    requires
        outcomes.len() == ids.len(),
        counts.len() == ids.len(),
        0 <= k < ids.len(),
        ids[k] == sender || outcomes[k] != Delivery::Disconnected,
    ensures
        counts_after_send(ids, counts, sender, outcomes).len() == kept_after_send(ids, sender, outcomes).len(),
        exists|j: int|
            0 <= j < kept_after_send(ids, sender, outcomes).len()
            && #[trigger] kept_after_send(ids, sender, outcomes)[j] == ids[k]
            && counts_after_send(ids, counts, sender, outcomes)[j] == (if ids[k] == sender {
                counts[k]
            } else {
                bumped64(counts[k])
            }),
    decreases ids.len(),
{
    lemma_counts_beside_kept(ids, counts, sender, outcomes);
    let kept = kept_after_send(ids, sender, outcomes);
    let cs = counts_after_send(ids, counts, sender, outcomes);
    let init = ids.drop_last();
    let rest = kept_after_send(init, sender, outcomes.drop_last());
    let rest_c = counts_after_send(init, counts.drop_last(), sender, outcomes.drop_last());
    lemma_counts_beside_kept(init, counts.drop_last(), sender, outcomes.drop_last());
    if k < ids.len() - 1 {
        assert(init[k] == ids[k]);
        assert(outcomes.drop_last()[k] == outcomes[k]);
        assert(counts.drop_last()[k] == counts[k]);
        law_every_other_member_is_offered(init, counts.drop_last(), sender, outcomes.drop_last(), k);
        let j = choose|j: int|
            0 <= j < rest.len() && #[trigger] rest[j] == init[k] && rest_c[j] == (if init[k] == sender {
                counts.drop_last()[k]
            } else {
                bumped64(counts.drop_last()[k])
            });
        assert(kept[j] == rest[j]);
        assert(cs[j] == rest_c[j]);
    } else {
        assert(kept[kept.len() - 1] == ids[k]);
    }
}

/// The offer counts left beside the members left, one for one.
proof fn lemma_counts_beside_kept(ids: Seq<u64>, counts: Seq<u64>, sender: u64, outcomes: Seq<Delivery>)
    ensures
        counts_after_send(ids, counts, sender, outcomes).len() == kept_after_send(ids, sender, outcomes).len(),
    decreases ids.len(),
{
    if ids.len() > 0 {
        lemma_counts_beside_kept(ids.drop_last(), counts.drop_last(), sender, outcomes.drop_last());
    }
}

/// On a bus whose ids are unique, a frame from a member is offered to
/// exactly one fewer inboxes than the bus has members, and a frame from
/// outside to all of them.
pub proof fn law_offers_one_per_other_member(ids: Seq<u64>, sender: u64)
    requires
        ids.no_duplicates(),
    ensures
        ids.contains(sender) ==> others(ids, sender) == ids.len() - 1,
        !ids.contains(sender) ==> others(ids, sender) == ids.len(),
    decreases ids.len(),
{
    if ids.len() > 0 {
        let init = ids.drop_last();
        assert(init.no_duplicates()) by {
            assert forall|i: int, j: int| 0 <= i < init.len() && 0 <= j < init.len() && i != j implies init[i] != init[j] by {
                assert(init[i] == ids[i] && init[j] == ids[j]);
            }
        }
        law_offers_one_per_other_member(init, sender);
        if init.contains(sender) {
            let k = choose|k: int| 0 <= k < init.len() && #[trigger] init[k] == sender;
            assert(ids[k] == sender);
            assert(ids.contains(sender));
            assert(ids.last() != sender) by {
                assert(ids[ids.len() - 1] != ids[k]);
            }
        } else if ids.last() == sender {
            assert(ids[ids.len() - 1] == sender);
        } else {
            assert forall|k: int| 0 <= k < ids.len() implies ids[k] != sender by {
                if k < ids.len() - 1 {
                    assert(init[k] == ids[k]);
                    if ids[k] == sender {
                        assert(init.contains(sender));
                    }
                }
            }
        }
    }
}

/// A frame goes round without cutting anyone off who can still hear: the
/// sender stays a member, and so does every member whose inbox was not
/// gone; only members whose inbox was gone leave. When no inbox was full,
/// no drop is counted.
pub proof fn law_send_keeps_listeners(ids: Seq<u64>, sender: u64, outcomes: Seq<Delivery>, k: int)
    requires
        outcomes.len() == ids.len(),
        0 <= k < ids.len(),
    ensures
        (ids[k] == sender || outcomes[k] != Delivery::Disconnected) ==> kept_after_send(ids, sender, outcomes).contains(ids[k]),
        (forall|j: int| 0 <= j < ids.len() ==> #[trigger] outcomes[j] != Delivery::Full) ==> full_count(ids, sender, outcomes) == 0,
    decreases ids.len(),
{
    let r = kept_after_send(ids, sender, outcomes);
    let rest = kept_after_send(ids.drop_last(), sender, outcomes.drop_last());
    if k < ids.len() - 1 {
        law_send_keeps_listeners(ids.drop_last(), sender, outcomes.drop_last(), k);
        if ids[k] == sender || outcomes[k] != Delivery::Disconnected {
            assert(ids.drop_last()[k] == ids[k]);
            assert(outcomes.drop_last()[k] == outcomes[k]);
            let j = choose|j: int| 0 <= j < rest.len() && #[trigger] rest[j] == ids[k];
            if ids.last() == sender || outcomes.last() != Delivery::Disconnected {
                assert(r[j] == ids[k]);
            }
        }
    } else {
        if ids[k] == sender || outcomes[k] != Delivery::Disconnected {
            assert(r[r.len() - 1] == ids[k]);
        }
        if ids.len() > 1 {
            law_send_keeps_listeners(ids.drop_last(), sender, outcomes.drop_last(), k - 1);
        }
    }
    if forall|j: int| 0 <= j < ids.len() ==> #[trigger] outcomes[j] != Delivery::Full {
        lemma_no_full(ids, sender, outcomes);
    }
}

/// A member leaving a bus whose ids are unique lowers the member count by
/// exactly one, removes that member, and keeps every other member.
pub proof fn law_leaving_drops_one_member(ids: Seq<u64>, id: u64, other: u64)
    requires
        ids.no_duplicates(),
        ids.contains(id),
        other != id,
    ensures
        without(ids, id).len() == ids.len() - 1,
        !without(ids, id).contains(id),
        without(ids, id).contains(other) <==> ids.contains(other),
        without(ids, id).no_duplicates(),
{
    lemma_without_distinct(ids, id);
    lemma_without_contains(ids, id, id);
    lemma_without_contains(ids, id, other);
}

/// What stays after a frame went round is drawn from the members before,
/// in their order, so ids that were unique stay unique.
proof fn lemma_kept_within(ids: Seq<u64>, sender: u64, outcomes: Seq<Delivery>)
    requires
        outcomes.len() == ids.len(),
    ensures
        forall|x: u64| #[trigger] kept_after_send(ids, sender, outcomes).contains(x) ==> ids.contains(x),
        ids.no_duplicates() ==> kept_after_send(ids, sender, outcomes).no_duplicates(),
    decreases ids.len(),
{
    if ids.len() > 0 {
        let init = ids.drop_last();
        lemma_kept_within(init, sender, outcomes.drop_last());
        let rest = kept_after_send(init, sender, outcomes.drop_last());
        let r = kept_after_send(ids, sender, outcomes);
        assert forall|x: u64| #[trigger] r.contains(x) implies ids.contains(x) by {
            let j = choose|j: int| 0 <= j < r.len() && #[trigger] r[j] == x;
            if j < rest.len() {
                assert(rest[j] == x);
                assert(rest.contains(x));
                let k = choose|k: int| 0 <= k < init.len() && #[trigger] init[k] == x;
                assert(ids[k] == x);
            } else {
                assert(ids[ids.len() - 1] == x);
            }
        }
        if ids.no_duplicates() {
            assert(init.no_duplicates()) by {
                assert forall|i: int, j: int| 0 <= i < init.len() && 0 <= j < init.len() && i != j implies init[i] != init[j] by {
                    assert(init[i] == ids[i] && init[j] == ids[j]);
                }
            }
            if r.len() != rest.len() {
                assert forall|i: int, j: int| 0 <= i < r.len() && 0 <= j < r.len() && i != j implies r[i] != r[j] by {
                    if i < rest.len() && j < rest.len() {
                        assert(r[i] == rest[i] && r[j] == rest[j]);
                    } else {
                        let a = if i < rest.len() { i } else { j };
                        assert(r[a] == rest[a]);
                        assert(rest.contains(rest[a]));
                        let k = choose|k: int| 0 <= k < init.len() && #[trigger] init[k] == rest[a];
                        assert(ids[k] == rest[a]);
                        assert(ids[ids.len() - 1] != ids[k]);
                    }
                }
            }
        }
    }
}

proof fn lemma_no_full(ids: Seq<u64>, sender: u64, outcomes: Seq<Delivery>)
    requires
        outcomes.len() == ids.len(),
        forall|j: int| 0 <= j < ids.len() ==> #[trigger] outcomes[j] != Delivery::Full,
    ensures
        full_count(ids, sender, outcomes) == 0,
    decreases ids.len(),
{
    if ids.len() > 0 {
        assert forall|j: int| 0 <= j < ids.drop_last().len() implies #[trigger] outcomes.drop_last()[j] != Delivery::Full by {
            assert(outcomes.drop_last()[j] == outcomes[j]);
        }
        lemma_no_full(ids.drop_last(), sender, outcomes.drop_last());
        assert(outcomes.last() == outcomes[outcomes.len() - 1]);
    }
}

} // verus!
