//! The shared store and its broadcast layer.
//!
//! The broadcast layer holds the snapshot published last and, for each
//! subscriber, whether that snapshot is still to be delivered to it. It is no
//! queue: a subscriber that was busy while several snapshots were published
//! receives the last of them only. The store owns the current snapshot and
//! publishes a proposal only where it differs from what it holds.
//!
//! Both are plain values here. Whoever shares one between tasks wraps it in a
//! lock and wakes its waiting subscribers after a publish.

use vstd::prelude::*;
use crate::job::{JobStatus, LinkView};
use crate::snapshot::Snapshot;

verus! {

/// The broadcast layer as plain values.
pub ghost struct BroadcastView {
    /// The snapshot published last.
    pub latest: Map<Seq<char>, LinkView>,
    /// The handles in use, each with whether the latest snapshot is still to
    /// be delivered to it.
    pub pending: Map<int, bool>,
}

/// After a publish: the new snapshot is the latest, and it is to be delivered
/// to every subscriber.
pub open spec fn published(b: BroadcastView, s: Map<Seq<char>, LinkView>) -> BroadcastView {
    BroadcastView { latest: s, pending: Map::new(|h: int| b.pending.contains_key(h), |h: int| true) }
}

/// After a subscription under the handle `h`: the latest snapshot is to be
/// delivered to it at once.
pub open spec fn subscribed(b: BroadcastView, h: int) -> BroadcastView {
    BroadcastView { latest: b.latest, pending: b.pending.insert(h, true) }
}

/// The least handle that is not in use.
pub open spec fn is_least_free(b: BroadcastView, h: int) -> bool {
    &&& 0 <= h
    &&& !b.pending.contains_key(h)
    &&& forall|k: int| 0 <= k < h ==> b.pending.contains_key(k)
}

/// What a subscriber's read gives: the latest snapshot where it is still to be
/// delivered to this handle, and nothing where it was delivered already or the
/// handle is not in use.
pub open spec fn delivery(b: BroadcastView, h: int) -> Option<Map<Seq<char>, LinkView>> {
    if b.pending.contains_key(h) && b.pending[h] {
        Some(b.latest)
    } else {
        None
    }
}

/// After a subscriber's read: nothing is left to deliver to this handle.
pub open spec fn delivered(b: BroadcastView, h: int) -> BroadcastView {
    if b.pending.contains_key(h) {
        BroadcastView { latest: b.latest, pending: b.pending.insert(h, false) }
    } else {
        b
    }
}

/// After the handle `h` was given up.
pub open spec fn unsubscribed(b: BroadcastView, h: int) -> BroadcastView {
    BroadcastView { latest: b.latest, pending: b.pending.remove(h) }
}

/// Whether a proposal is published: only where it differs from the snapshot
/// that is held.
pub open spec fn publishes(b: BroadcastView, s: Map<Seq<char>, LinkView>) -> bool {
    b.latest != s
}

/// After a proposal: published where it differs, and nothing changed where it
/// does not.
pub open spec fn proposed(b: BroadcastView, s: Map<Seq<char>, LinkView>) -> BroadcastView {
    if publishes(b, s) {
        published(b, s)
    } else {
        b
    }
}

/// After a run of proposals, one after the other.
pub open spec fn proposed_all(b: BroadcastView, ps: Seq<Map<Seq<char>, LinkView>>) -> BroadcastView
    decreases ps.len(),
{
    if ps.len() == 0 {
        b
    } else {
        proposed(proposed_all(b, ps.drop_last()), ps.last())
    }
}

/// How many of a run of proposals are published.
pub open spec fn publish_count(b: BroadcastView, ps: Seq<Map<Seq<char>, LinkView>>) -> nat
    decreases ps.len(),
{
    if ps.len() == 0 {
        0
    } else {
        publish_count(b, ps.drop_last()) + if publishes(
            proposed_all(b, ps.drop_last()),
            ps.last(),
        ) {
            1nat
        } else {
            0nat
        }
    }
}

/// The state of one subscriber slot.
#[derive(Clone, Copy, Debug, PartialEq, Eq, Structural)]
enum Slot {
    Free,
    Seen,
    Pending,
}

/// The broadcast layer: the latest snapshot, and who is still to receive it.
#[derive(Debug)]
pub struct Broadcast {
    latest: Snapshot,
    slots: Vec<Slot>,
}

impl View for Broadcast {
    type V = BroadcastView;

    closed spec fn view(&self) -> BroadcastView {
        BroadcastView {
            latest: self.latest@,
            pending: Map::new(
                |h: int| 0 <= h < self.slots@.len() && self.slots@[h] != Slot::Free,
                |h: int| self.slots@[h] == Slot::Pending,
            ),
        }
    }
}

impl Broadcast {
    /// A broadcast layer that holds `initial` and has no subscriber.
    pub fn new(initial: Snapshot) -> (r: Broadcast)
        ensures
            r@.latest == initial@,
            r@.pending == Map::<int, bool>::empty(),
    {
        let r = Broadcast { latest: initial, slots: Vec::new() };
        assert(r@.pending =~= Map::<int, bool>::empty());
        r
    }

    /// The snapshot published last.
    pub fn latest(&self) -> (r: Snapshot)
        ensures
            r@ == self@.latest,
    {
        self.latest.clone()
    }

    /// Registers a subscriber under the least handle that is free. The latest
    /// snapshot is delivered to it by its first read.
    pub fn subscribe(&mut self) -> (h: usize)
        ensures
            is_least_free(old(self)@, h as int),
            final(self)@ == subscribed(old(self)@, h as int),
    {
        let mut i: usize = 0;
        while i < self.slots.len()
            invariant
                0 <= i <= self.slots.len(),
                *self == *old(self),
                forall|k: int| 0 <= k < i ==> self.slots@[k] != Slot::Free,
            decreases self.slots.len() - i,
        {
            if self.slots[i] == Slot::Free {
                self.slots.set(i, Slot::Pending);
                assert(self@.pending =~= old(self)@.pending.insert(i as int, true));
                return i;
            }
            i = i + 1;
        }
        self.slots.push(Slot::Pending);
        assert(self@.pending =~= old(self)@.pending.insert(i as int, true));
        i
    }

    /// Whether the handle is in use.
    pub fn is_subscribed(&self, h: usize) -> (r: bool)
        ensures
            r == self@.pending.contains_key(h as int),
    {
        h < self.slots.len() && self.slots[h] != Slot::Free
    }

    /// Stores `snapshot` as the latest and marks it for delivery to every
    /// subscriber, whatever each has read so far.
    pub fn publish(&mut self, snapshot: Snapshot)
        ensures
            final(self)@ == published(old(self)@, snapshot@),
    {
        self.latest = snapshot;
        let mut i: usize = 0;
        while i < self.slots.len()
            invariant
                0 <= i <= self.slots.len(),
                self.latest@ == snapshot@,
                self.slots@.len() == old(self).slots@.len(),
                forall|k: int|
                    0 <= k < self.slots@.len() ==> ((#[trigger] self.slots@[k]) == Slot::Free
                        <==> old(self).slots@[k] == Slot::Free),
                forall|k: int|
                    0 <= k < i ==> (#[trigger] self.slots@[k]) != Slot::Free ==> self.slots@[k]
                        == Slot::Pending,
            decreases self.slots.len() - i,
        {
            if self.slots[i] != Slot::Free {
                self.slots.set(i, Slot::Pending);
            }
            i = i + 1;
        }
        assert(self@.pending =~= published(old(self)@, snapshot@).pending);
    }

    /// A subscriber's read. It gives the latest snapshot once; after that it
    /// gives nothing until the next publish, and the subscriber waits.
    pub fn take(&mut self, h: usize) -> (r: Option<Snapshot>)
        ensures
            final(self)@ == delivered(old(self)@, h as int),
            match r {
                Some(s) => delivery(old(self)@, h as int) == Some(s@),
                None => delivery(old(self)@, h as int) is None,
            },
    {
        if h < self.slots.len() && self.slots[h] == Slot::Pending {
            self.slots.set(h, Slot::Seen);
            assert(self@.pending =~= old(self)@.pending.insert(h as int, false));
            Some(self.latest.clone())
        } else {
            assert(self@.pending =~= delivered(old(self)@, h as int).pending);
            None
        }
    }

    /// Gives the handle up. Nothing is kept for it: its slot is free for the
    /// next subscriber, and free slots at the end are let go. A handle that is
    /// not in use changes nothing.
    pub fn unsubscribe(&mut self, h: usize)
        ensures
            final(self)@ == unsubscribed(old(self)@, h as int),
    {
        if h < self.slots.len() {
            self.slots.set(h, Slot::Free);
        }
        assert(self@.pending =~= old(self)@.pending.remove(h as int));
        while self.slots.len() > 0 && self.slots[self.slots.len() - 1] == Slot::Free
            invariant
                self.latest@ == old(self).latest@,
                self@.pending == old(self)@.pending.remove(h as int),
            decreases self.slots.len(),
        {
            let ghost before = self@.pending;
            self.slots.pop();
            assert(self@.pending =~= before);
        }
    }
}

/// The shared store: the one owner of the current snapshot. Every change goes
/// through `propose`.
#[derive(Debug)]
pub struct Store {
    broadcast: Broadcast,
}

impl View for Store {
    type V = BroadcastView;

    closed spec fn view(&self) -> BroadcastView {
        self.broadcast@
    }
}

impl Store {
    /// A store that holds the empty snapshot and has no subscriber.
    pub fn new() -> (r: Store)
        ensures
            r@.latest == Map::<Seq<char>, LinkView>::empty(),
            r@.pending == Map::<int, bool>::empty(),
    {
        Store { broadcast: Broadcast::new(Snapshot::new()) }
    }

    /// The current snapshot, whole.
    pub fn read(&self) -> (r: Snapshot)
        ensures
            r@ == self@.latest,
    {
        self.broadcast.latest()
    }

    /// Proposes a snapshot. Where it equals the one held, nothing happens and
    /// the result is `false`; where it differs, it replaces the one held and is
    /// published to every subscriber, and the result is `true`.
    pub fn propose(&mut self, snapshot: Snapshot) -> (r: bool)
        ensures
            r == publishes(old(self)@, snapshot@),
            final(self)@ == proposed(old(self)@, snapshot@),
    {
        if self.broadcast.latest.same_as(&snapshot) {
            false
        } else {
            self.broadcast.publish(snapshot);
            true
        }
    }

    /// Registers a subscriber; see `Broadcast::subscribe`.
    pub fn subscribe(&mut self) -> (h: usize)
        ensures
            is_least_free(old(self)@, h as int),
            final(self)@ == subscribed(old(self)@, h as int),
    {
        self.broadcast.subscribe()
    }

    /// A subscriber's read; see `Broadcast::take`.
    pub fn take(&mut self, h: usize) -> (r: Option<Snapshot>)
        ensures
            final(self)@ == delivered(old(self)@, h as int),
            match r {
                Some(s) => delivery(old(self)@, h as int) == Some(s@),
                None => delivery(old(self)@, h as int) is None,
            },
    {
        self.broadcast.take(h)
    }

    /// Gives a handle up; see `Broadcast::unsubscribe`.
    pub fn unsubscribe(&mut self, h: usize)
        ensures
            final(self)@ == unsubscribed(old(self)@, h as int),
    {
        self.broadcast.unsubscribe(h)
    }
}

/// A read returns the snapshot proposed last, whether it was published or
/// found equal to the one held: never an older one.
pub proof fn lemma_read_is_latest(b: BroadcastView, ps: Seq<Map<Seq<char>, LinkView>>)
    ensures
        proposed_all(b, ps).latest == if ps.len() == 0 {
            b.latest
        } else {
            ps.last()
        },
{
    if ps.len() > 0 {
        let before = proposed_all(b, ps.drop_last());
        assert(proposed_all(b, ps) == proposed(before, ps.last()));
    }
}

/// No stale snapshot comes back. If the proposal at `k` holds the job `g` as
/// complete and a read after all proposals finds `g` absent, then a proposal
/// after `k` holds `g` as removed or not at all.
pub proof fn lemma_no_resurrection(
    b: BroadcastView,
    ps: Seq<Map<Seq<char>, LinkView>>,
    k: int,
    g: Seq<char>,
)
    requires
        0 <= k < ps.len(),
        ps[k].contains_key(g),
        ps[k][g].status == JobStatus::Complete,
        !proposed_all(b, ps).latest.contains_key(g),
    ensures
        exists|j: int|
            k < j < ps.len() && (!(#[trigger] ps[j]).contains_key(g) || ps[j][g].status
                == JobStatus::Removed),
{
    lemma_read_is_latest(b, ps);
    let j = ps.len() - 1;
    assert(!ps[j].contains_key(g));
}

/// Proposing the same snapshot twice publishes at most once: the second
/// proposal finds it held already, is not published, and changes nothing. The
/// first is published exactly where the snapshot differs from the one held
/// before.
pub proof fn lemma_second_proposal_suppressed(b: BroadcastView, s: Map<Seq<char>, LinkView>)
    ensures
        !publishes(proposed(b, s), s),
        proposed(proposed(b, s), s) == proposed(b, s),
        publish_count(b, seq![s, s]) == if b.latest == s {
            0nat
        } else {
            1nat
        },
{
    let ps = seq![s, s];
    let first = ps.drop_last();
    assert(first =~= seq![s]);
    assert(first.drop_last() =~= Seq::<Map<Seq<char>, LinkView>>::empty());
    assert(first.last() == s);
    assert(ps.last() == s);
    assert(proposed_all(b, first.drop_last()) == b);
    assert(proposed_all(b, first) == proposed(b, s));
    assert(publish_count(b, first.drop_last()) == 0);
    assert(publish_count(b, first) == if publishes(b, s) {
        1nat
    } else {
        0nat
    });
}

/// Delivery is of the latest value, once. A new subscriber's first read gives
/// the snapshot held at that time. After a publish, every subscriber's next
/// read gives the published snapshot, even where earlier ones were never
/// read. A read leaves nothing to deliver until the next publish.
pub proof fn lemma_latest_value_delivery(
    b: BroadcastView,
    h: int,
    s1: Map<Seq<char>, LinkView>,
    s2: Map<Seq<char>, LinkView>,
)
    ensures
        delivery(subscribed(b, h), h) == Some(b.latest),
        b.pending.contains_key(h) ==> delivery(published(b, s1), h) == Some(s1),
        b.pending.contains_key(h) ==> delivery(published(published(b, s1), s2), h) == Some(s2),
        delivery(delivered(b, h), h) is None,
        !b.pending.contains_key(h) ==> delivery(published(b, s1), h) is None,
        delivery(unsubscribed(b, h), h) is None,
{
}

} // verus!
