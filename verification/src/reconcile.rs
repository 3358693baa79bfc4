//! Reconciliation: from the three polled queues to one snapshot.
//!
//! Each wire record is decoded on its own; one that is malformed is left out
//! and reported, and the others go on. The records that remain are filed in
//! the order active, waiting, stopped, so that a job reported by two queues
//! keeps the record of the later queue.

use vstd::prelude::*;
use crate::job::{
    DecodeError,
    LinkData,
    LinkView,
    WireLink,
    WireForm,
    decode_link,
    decoded_link,
    encode_link,
    encoded_link,
    lemma_link_round_trip,
};
use crate::snapshot::{
    Snapshot,
    keyed,
    lemma_keyed_concat,
    lemma_keyed_domain,
    occurs,
    views,
};

verus! {

/// The wire records of a list as plain values, in order.
pub open spec fn wires(v: Seq<WireLink>) -> Seq<WireForm> {
    Seq::new(v.len(), |i: int| v[i]@)
}

/// The records of `s` that decode, decoded, in order.
pub open spec fn accepted(s: Seq<WireForm>) -> Seq<LinkView>
    decreases s.len(),
{
    if s.len() == 0 {
        Seq::empty()
    } else {
        match decoded_link(s.last()) {
            Ok(l) => accepted(s.drop_last()).push(l),
            Err(_) => accepted(s.drop_last()),
        }
    }
}

/// The records of `s` that do not decode, in order: the identifier of each and
/// the field that was malformed.
pub open spec fn refused(s: Seq<WireForm>) -> Seq<(Seq<char>, DecodeError)>
    decreases s.len(),
{
    if s.len() == 0 {
        Seq::empty()
    } else {
        match decoded_link(s.last()) {
            Ok(_) => refused(s.drop_last()),
            Err(e) => refused(s.drop_last()).push((s.last().gid, e)),
        }
    }
}

/// A wire record that was left out of a snapshot, and why.
#[derive(Debug, PartialEq, Eq)]
pub struct Dropped {
    pub gid: String,
    pub error: DecodeError,
}

impl View for Dropped {
    type V = (Seq<char>, DecodeError);

    open spec fn view(&self) -> (Seq<char>, DecodeError) {
        (self.gid@, self.error)
    }
}

/// The dropped records of a list as plain values, in order.
pub open spec fn drops(v: Seq<Dropped>) -> Seq<(Seq<char>, DecodeError)> {
    Seq::new(v.len(), |i: int| v[i]@)
}

/// Decodes the records of `list` and appends them to `records`, or, for those
/// that are malformed, their identifiers and errors to `dropped`.
fn decode_into(list: &Vec<WireLink>, records: &mut Vec<LinkData>, dropped: &mut Vec<Dropped>)
    ensures
        views(final(records)@) == views(old(records)@) + accepted(wires(list@)),
        drops(final(dropped)@) == drops(old(dropped)@) + refused(wires(list@)),
{
    let mut i: usize = 0;
    assert(wires(list@).subrange(0, 0) =~= Seq::<WireForm>::empty());
    assert(views(records@) =~= views(old(records)@) + Seq::<LinkView>::empty());
    assert(drops(dropped@) =~= drops(old(dropped)@) + Seq::<(Seq<char>, DecodeError)>::empty());
    while i < list.len()
        invariant
            0 <= i <= list.len(),
            views(records@) == views(old(records)@) + accepted(
                wires(list@).subrange(0, i as int),
            ),
            drops(dropped@) == drops(old(dropped)@) + refused(wires(list@).subrange(0, i as int)),
        decreases list.len() - i,
    {
        let ghost done = wires(list@).subrange(0, i as int);
        let ghost next = wires(list@).subrange(0, i as int + 1);
        let ghost records_before = views(records@);
        let ghost dropped_before = drops(dropped@);
        proof {
            assert(next.drop_last() =~= done);
            assert(next.last() == list@[i as int]@);
        }
        match decode_link(&list[i]) {
            Ok(l) => {
                let ghost v = l@;
                records.push(l);
                proof {
                    assert(views(records@) =~= records_before.push(v));
                    assert(accepted(next) == accepted(done).push(v));
                    assert(views(records@) =~= views(old(records)@) + accepted(next));
                    assert(refused(next) == refused(done));
                }
            },
            Err(e) => {
                let d = Dropped { gid: list[i].gid.clone(), error: e };
                let ghost v = d@;
                dropped.push(d);
                proof {
                    assert(drops(dropped@) =~= dropped_before.push(v));
                    assert(refused(next) == refused(done).push(v));
                    assert(drops(dropped@) =~= drops(old(dropped)@) + refused(next));
                    assert(accepted(next) == accepted(done));
                }
            },
        }
        i = i + 1;
    }
    assert(wires(list@).subrange(0, list.len() as int) =~= wires(list@));
}

/// Appends copies of the records of `list` to `records`.
fn append_records(list: &Vec<LinkData>, records: &mut Vec<LinkData>)
    ensures
        views(final(records)@) == views(old(records)@) + views(list@),
{
    let mut i: usize = 0;
    assert(views(records@) =~= views(old(records)@) + views(list@).subrange(0, 0));
    while i < list.len()
        invariant
            0 <= i <= list.len(),
            views(records@) == views(old(records)@) + views(list@).subrange(0, i as int),
        decreases list.len() - i,
    {
        let ghost before = views(records@);
        let l = list[i].clone();
        let ghost v = l@;
        records.push(l);
        proof {
            assert(views(records@) =~= before.push(v));
            assert(views(list@).subrange(0, i as int + 1) =~= views(list@).subrange(
                0,
                i as int,
            ).push(v));
            assert(views(records@) =~= views(old(records)@) + views(list@).subrange(
                0,
                i as int + 1,
            ));
        }
        i = i + 1;
    }
    assert(views(list@).subrange(0, list.len() as int) =~= views(list@));
}

/// Merges three lists of records into one snapshot. A job that stands in more
/// than one list keeps the record of the later list, in the order active,
/// waiting, stopped; within one list, its last record.
pub fn merge(active: &Vec<LinkData>, waiting: &Vec<LinkData>, stopped: &Vec<LinkData>) -> (r:
    Snapshot)
    ensures
        r@ == keyed(views(active@) + views(waiting@) + views(stopped@)),
{
    let mut all: Vec<LinkData> = Vec::new();
    assert(views(all@) =~= Seq::<LinkView>::empty());
    append_records(active, &mut all);
    append_records(waiting, &mut all);
    append_records(stopped, &mut all);
    assert(views(all@) =~= views(active@) + views(waiting@) + views(stopped@));
    Snapshot::from_records(&all)
}

/// What one reconciliation pass gives.
#[derive(Debug)]
pub struct Reconciliation {
    /// The new snapshot.
    pub snapshot: Snapshot,
    /// The wire records that were left out because a field was malformed.
    pub dropped: Vec<Dropped>,
    /// How many decoded records gave way to a later record with the same
    /// identifier: zero unless a job was reported more than once.
    pub overridden: usize,
}

/// A mapping has no more keys than the run of records it was filed from.
proof fn lemma_keyed_len_bound(s: Seq<LinkView>)
    ensures
        keyed(s).dom().finite(),
        keyed(s).len() <= s.len(),
    decreases s.len(),
{
    lemma_keyed_domain(s);
    if s.len() > 0 {
        lemma_keyed_len_bound(s.drop_last());
        lemma_keyed_domain(s.drop_last());
    }
}

/// Reconciles the three polled queues into one snapshot.
///
/// The snapshot holds the records that decode, filed as `merge` files them.
/// Every malformed record is reported in `dropped`, in the order active,
/// waiting, stopped, and changes nothing else.
pub fn reconcile(active: &Vec<WireLink>, waiting: &Vec<WireLink>, stopped: &Vec<WireLink>) -> (r:
    Reconciliation)
    ensures
        r.snapshot@ == keyed(
            accepted(wires(active@)) + accepted(wires(waiting@)) + accepted(wires(stopped@)),
        ),
        drops(r.dropped@) == refused(wires(active@)) + refused(wires(waiting@)) + refused(
            wires(stopped@),
        ),
        r.overridden == accepted(wires(active@)).len() + accepted(wires(waiting@)).len()
            + accepted(wires(stopped@)).len() - r.snapshot@.len(),
{
    let mut records: Vec<LinkData> = Vec::new();
    let mut dropped: Vec<Dropped> = Vec::new();
    assert(views(records@) =~= Seq::<LinkView>::empty());
    assert(drops(dropped@) =~= Seq::<(Seq<char>, DecodeError)>::empty());
    decode_into(active, &mut records, &mut dropped);
    decode_into(waiting, &mut records, &mut dropped);
    decode_into(stopped, &mut records, &mut dropped);
    assert(views(records@) =~= accepted(wires(active@)) + accepted(wires(waiting@)) + accepted(
        wires(stopped@),
    ));
    assert(drops(dropped@) =~= refused(wires(active@)) + refused(wires(waiting@)) + refused(
        wires(stopped@),
    ));
    let snapshot = Snapshot::from_records(&records);
    proof {
        lemma_keyed_len_bound(views(records@));
    }
    let overridden: usize = records.len() - snapshot.len();
    Reconciliation { snapshot, dropped, overridden }
}

/// In a merge each job has one record, and it comes from the latest of the
/// three lists that reports the job: from the stopped list if the job stands
/// there, else from the waiting list, else from the active list.
pub proof fn lemma_merge_tie_break(
    active: Seq<LinkView>,
    waiting: Seq<LinkView>,
    stopped: Seq<LinkView>,
    g: Seq<char>,
)
    ensures
        keyed(active + waiting + stopped).contains_key(g) <==> occurs(active, g) || occurs(
            waiting,
            g,
        ) || occurs(stopped, g),
        occurs(stopped, g) ==> keyed(active + waiting + stopped)[g] == keyed(stopped)[g],
        !occurs(stopped, g) && occurs(waiting, g) ==> keyed(active + waiting + stopped)[g]
            == keyed(waiting)[g],
        !occurs(stopped, g) && !occurs(waiting, g) && occurs(active, g) ==> keyed(
            active + waiting + stopped,
        )[g] == keyed(active)[g],
{
    lemma_keyed_concat(active, waiting);
    lemma_keyed_concat(active + waiting, stopped);
    lemma_keyed_domain(active);
    lemma_keyed_domain(waiting);
    lemma_keyed_domain(stopped);
    lemma_keyed_domain(active + waiting + stopped);
    assert(keyed(active).contains_key(g) <==> occurs(active, g));
    assert(keyed(waiting).contains_key(g) <==> occurs(waiting, g));
    assert(keyed(stopped).contains_key(g) <==> occurs(stopped, g));
}

/// What a poll gives: the reconciliation of the three queues where all three
/// were read, and nothing where the reading of any one failed. A poll that
/// gives nothing is passed over, and the snapshot in place stays.
pub open spec fn poll_reconciles(
    active: Option<Vec<WireLink>>,
    waiting: Option<Vec<WireLink>>,
    stopped: Option<Vec<WireLink>>,
) -> bool {
    active is Some && waiting is Some && stopped is Some
}

/// Reconciles the answers of one poll, each `None` where the query failed.
pub fn reconcile_poll(
    active: Option<Vec<WireLink>>,
    waiting: Option<Vec<WireLink>>,
    stopped: Option<Vec<WireLink>>,
) -> (r: Option<Reconciliation>)
    ensures
        r is Some <==> poll_reconciles(active, waiting, stopped),
        match r {
            Some(rec) => {
                let a = wires(active->0@);
                let w = wires(waiting->0@);
                let s = wires(stopped->0@);
                &&& rec.snapshot@ == keyed(accepted(a) + accepted(w) + accepted(s))
                &&& drops(rec.dropped@) == refused(a) + refused(w) + refused(s)
                &&& rec.overridden == accepted(a).len() + accepted(w).len() + accepted(s).len()
                    - rec.snapshot@.len()
            },
            None => true,
        },
{
    match (active, waiting, stopped) {
        (Some(a), Some(w), Some(s)) => Some(reconcile(&a, &w, &s)),
        _ => None,
    }
}

/// The wire forms of a run of records, in order.
pub open spec fn encoded_all(s: Seq<LinkView>) -> Seq<WireForm> {
    Seq::new(s.len(), |i: int| encoded_link(s[i]))
}

/// Encodes a list of records for the wire, in order.
pub fn encode_records(list: &Vec<LinkData>) -> (r: Vec<WireLink>)
    ensures
        wires(r@) == encoded_all(views(list@)),
{
    let mut r: Vec<WireLink> = Vec::new();
    let mut i: usize = 0;
    while i < list.len()
        invariant
            0 <= i <= list.len(),
            r.len() == i,
            forall|j: int| 0 <= j < i ==> (#[trigger] r@[j])@ == encoded_link(list@[j]@),
        decreases list.len() - i,
    {
        r.push(encode_link(&list[i]));
        i = i + 1;
    }
    assert(wires(r@) =~= encoded_all(views(list@)));
    r
}

/// What was encoded decodes whole: every record is accepted and comes back as
/// it was, none is refused, and the snapshot filed from the result is the one
/// filed from the records.
pub proof fn lemma_encoded_decodes(s: Seq<LinkView>)
    ensures
        accepted(encoded_all(s)) == s,
        refused(encoded_all(s)) == Seq::<(Seq<char>, DecodeError)>::empty(),
        keyed(accepted(encoded_all(s))) == keyed(s),
    decreases s.len(),
{
    let e = encoded_all(s);
    if s.len() == 0 {
        assert(accepted(e) =~= s);
    } else {
        let p = s.drop_last();
        lemma_encoded_decodes(p);
        lemma_link_round_trip(s.last());
        assert(e.drop_last() =~= encoded_all(p));
        assert(e.last() == encoded_link(s.last()));
        assert(accepted(e) =~= s);
    }
}

} // verus!
