//! The snapshot: the mapping from job identifier to record that stands for the
//! whole known state at one instant. A snapshot is never changed in place: an
//! update gives a new one.

use vstd::prelude::*;
use vstd::set_lib::lemma_subset_equality;
use crate::job::{LinkData, LinkView};

verus! {

/// The mapping that a run of records stands for: each record filed under its
/// identifier, a later record replacing an earlier one with the same identifier.
pub open spec fn keyed(s: Seq<LinkView>) -> Map<Seq<char>, LinkView>
    decreases s.len(),
{
    if s.len() == 0 {
        Map::empty()
    } else {
        keyed(s.drop_last()).insert(s.last().gid, s.last())
    }
}

/// Whether some record of `s` has the identifier `g`.
pub open spec fn occurs(s: Seq<LinkView>, g: Seq<char>) -> bool {
    exists|i: int| 0 <= i < s.len() && (#[trigger] s[i]).gid == g
}

/// Whether `i` is the place of the last record of `s` with the identifier `g`.
pub open spec fn is_last_of(s: Seq<LinkView>, g: Seq<char>, i: int) -> bool {
    &&& 0 <= i < s.len()
    &&& s[i].gid == g
    &&& forall|j: int| i < j < s.len() ==> (#[trigger] s[j]).gid != g
}

/// Whether no two records of `s` share an identifier.
pub open spec fn distinct(s: Seq<LinkView>) -> bool {
    forall|i: int, j: int| 0 <= i < j < s.len() ==> (#[trigger] s[i]).gid != (#[trigger] s[j]).gid
}

/// The records of a list as plain values, in order.
pub open spec fn views(v: Seq<LinkData>) -> Seq<LinkView> {
    Seq::new(v.len(), |i: int| v[i]@)
}

/// The mapping has finitely many keys, and exactly the identifiers that occur.
pub proof fn lemma_keyed_domain(s: Seq<LinkView>)
    ensures
        keyed(s).dom().finite(),
        forall|g: Seq<char>| #[trigger] keyed(s).contains_key(g) <==> occurs(s, g),
    decreases s.len(),
{
    if s.len() == 0 {
        assert forall|g: Seq<char>| #[trigger] keyed(s).contains_key(g) <==> occurs(s, g) by {}
    } else {
        let p = s.drop_last();
        lemma_keyed_domain(p);
        assert forall|g: Seq<char>| #[trigger] keyed(s).contains_key(g) <==> occurs(s, g) by {
            if keyed(s).contains_key(g) {
                if s.last().gid == g {
                    assert(s[s.len() - 1].gid == g);
                } else {
                    assert(keyed(p).contains_key(g));
                    let i = choose|i: int| 0 <= i < p.len() && (#[trigger] p[i]).gid == g;
                    assert(s[i].gid == g);
                }
            }
            if occurs(s, g) {
                let i = choose|i: int| 0 <= i < s.len() && (#[trigger] s[i]).gid == g;
                if i < p.len() {
                    assert(p[i].gid == g);
                    assert(occurs(p, g));
                    assert(keyed(p).contains_key(g));
                }
            }
        }
    }
}

/// Under each identifier stands the last record that carries it.
pub proof fn lemma_keyed_last_wins(s: Seq<LinkView>, g: Seq<char>, i: int)
    requires
        is_last_of(s, g, i),
    ensures
        keyed(s).contains_key(g),
        keyed(s)[g] == s[i],
    decreases s.len(),
{
    if i == s.len() - 1 {
    } else {
        let p = s.drop_last();
        assert(s[s.len() - 1].gid != g);
        assert forall|j: int| i < j < p.len() implies (#[trigger] p[j]).gid != g by {
            assert(p[j] == s[j]);
        }
        lemma_keyed_last_wins(p, g, i);
    }
}

/// An identifier that occurs has a last place where it occurs.
pub proof fn lemma_last_exists(s: Seq<LinkView>, g: Seq<char>) -> (i: int)
    requires
        occurs(s, g),
    ensures
        is_last_of(s, g, i),
    decreases s.len(),
{
    if s.last().gid == g {
        s.len() - 1
    } else {
        let p = s.drop_last();
        let k = choose|k: int| 0 <= k < s.len() && (#[trigger] s[k]).gid == g;
        assert(p[k].gid == g);
        let i = lemma_last_exists(p, g);
        assert forall|j: int| i < j < s.len() implies (#[trigger] s[j]).gid != g by {
            if j < p.len() {
                assert(p[j] == s[j]);
            }
        }
        i
    }
}

/// Filing one run of records after another: the second run's records replace
/// those of the first that share their identifiers.
pub proof fn lemma_keyed_concat(a: Seq<LinkView>, b: Seq<LinkView>)
    ensures
        keyed(a + b) == keyed(a).union_prefer_right(keyed(b)),
    decreases b.len(),
{
    if b.len() == 0 {
        assert(a + b =~= a);
        assert(keyed(a).union_prefer_right(keyed(b)) =~= keyed(a));
    } else {
        let q = b.drop_last();
        lemma_keyed_concat(a, q);
        assert((a + b).drop_last() =~= a + q);
        assert((a + b).last() == b.last());
        assert(keyed(a + b) =~= keyed(a).union_prefer_right(keyed(b)));
    }
}

/// Where no identifier occurs twice, there are as many keys as records.
pub proof fn lemma_keyed_len(s: Seq<LinkView>)
    requires
        distinct(s),
    ensures
        keyed(s).dom().finite(),
        keyed(s).len() == s.len(),
    decreases s.len(),
{
    lemma_keyed_domain(s);
    if s.len() > 0 {
        let p = s.drop_last();
        assert forall|i: int, j: int| 0 <= i < j < p.len() implies (#[trigger] p[i]).gid != (
        #[trigger] p[j]).gid by {
            assert(p[i] == s[i] && p[j] == s[j]);
        }
        lemma_keyed_len(p);
        lemma_keyed_domain(p);
        if keyed(p).contains_key(s.last().gid) {
            let k = choose|k: int| 0 <= k < p.len() && (#[trigger] p[k]).gid == s.last().gid;
            assert(s[k].gid == s[s.len() - 1].gid);
        }
    }
}

/// Where no identifier occurs twice, each record stands under its own identifier.
pub proof fn lemma_keyed_at(s: Seq<LinkView>, i: int)
    requires
        distinct(s),
        0 <= i < s.len(),
    ensures
        keyed(s).contains_key(s[i].gid),
        keyed(s)[s[i].gid] == s[i],
{
    assert(is_last_of(s, s[i].gid, i));
    lemma_keyed_last_wins(s, s[i].gid, i);
}

/// Replacing a record by one with the same identifier replaces it in the mapping.
proof fn lemma_keyed_update(s: Seq<LinkView>, i: int, v: LinkView)
    requires
        distinct(s),
        0 <= i < s.len(),
        s[i].gid == v.gid,
    ensures
        distinct(s.update(i, v)),
        keyed(s.update(i, v)) == keyed(s).insert(v.gid, v),
{
    let t = s.update(i, v);
    assert forall|j: int| 0 <= j < s.len() implies (#[trigger] t[j]).gid == s[j].gid by {}
    assert(distinct(t)) by {
        assert forall|j: int, k: int| 0 <= j < k < t.len() implies (#[trigger] t[j]).gid != (
        #[trigger] t[k]).gid by {
            assert(s[j].gid != s[k].gid);
        }
    }
    lemma_keyed_domain(s);
    lemma_keyed_domain(t);
    let m = keyed(s).insert(v.gid, v);
    assert forall|g: Seq<char>| keyed(t).contains_key(g) <==> m.contains_key(g) by {
        if keyed(t).contains_key(g) {
            let k = choose|k: int| 0 <= k < t.len() && (#[trigger] t[k]).gid == g;
            assert(s[k].gid == g);
            assert(occurs(s, g));
        }
        if m.contains_key(g) {
            if g == v.gid {
                assert(t[i].gid == g);
            } else {
                let k = choose|k: int| 0 <= k < s.len() && (#[trigger] s[k]).gid == g;
                assert(t[k].gid == g);
            }
            assert(occurs(t, g));
        }
    }
    assert forall|g: Seq<char>| keyed(t).contains_key(g) implies keyed(t)[g] == m[g] by {
        let k = choose|k: int| 0 <= k < t.len() && (#[trigger] t[k]).gid == g;
        lemma_keyed_at(t, k);
        if k != i {
            assert(s[k].gid != s[i].gid);
            lemma_keyed_at(s, k);
        }
    }
    assert(keyed(t) =~= m);
}

/// Taking a record out takes its identifier out of the mapping.
proof fn lemma_keyed_remove(s: Seq<LinkView>, i: int)
    requires
        distinct(s),
        0 <= i < s.len(),
    ensures
        distinct(s.remove(i)),
        keyed(s.remove(i)) == keyed(s).remove(s[i].gid),
{
    let t = s.remove(i);
    let src = |j: int| if j < i { j } else { j + 1 };
    assert forall|j: int| 0 <= j < t.len() implies #[trigger] t[j] == s[src(j)] by {}
    assert(distinct(t)) by {
        assert forall|j: int, k: int| 0 <= j < k < t.len() implies (#[trigger] t[j]).gid != (
        #[trigger] t[k]).gid by {
            assert(t[j] == s[src(j)] && t[k] == s[src(k)]);
            assert(s[src(j)].gid != s[src(k)].gid);
        }
    }
    lemma_keyed_domain(s);
    lemma_keyed_domain(t);
    let m = keyed(s).remove(s[i].gid);
    assert forall|g: Seq<char>| keyed(t).contains_key(g) <==> m.contains_key(g) by {
        if keyed(t).contains_key(g) {
            let k = choose|k: int| 0 <= k < t.len() && (#[trigger] t[k]).gid == g;
            assert(t[k] == s[src(k)]);
            assert(s[src(k)].gid == g);
            assert(occurs(s, g));
            if src(k) < i {
                assert(s[src(k)].gid != s[i].gid);
            } else {
                assert(s[i].gid != s[src(k)].gid);
            }
        }
        if m.contains_key(g) {
            let k = choose|k: int| 0 <= k < s.len() && (#[trigger] s[k]).gid == g;
            assert(k != i);
            let j = if k < i { k } else { k - 1 };
            assert(t[j] == s[src(j)]);
            assert(t[j].gid == g);
            assert(occurs(t, g));
        }
    }
    assert forall|g: Seq<char>| keyed(t).contains_key(g) implies keyed(t)[g] == m[g] by {
        let k = choose|k: int| 0 <= k < t.len() && (#[trigger] t[k]).gid == g;
        assert(t[k] == s[src(k)]);
        lemma_keyed_at(t, k);
        lemma_keyed_at(s, src(k));
    }
    assert(keyed(t) =~= m);
}

/// Adding a record whose identifier is new files it under that identifier.
proof fn lemma_keyed_push(s: Seq<LinkView>, v: LinkView)
    requires
        distinct(s),
        !occurs(s, v.gid),
    ensures
        distinct(s.push(v)),
        keyed(s.push(v)) == keyed(s).insert(v.gid, v),
{
    let t = s.push(v);
    assert(t.drop_last() =~= s);
    assert forall|j: int, k: int| 0 <= j < k < t.len() implies (#[trigger] t[j]).gid != (
    #[trigger] t[k]).gid by {
        if k == s.len() {
            assert(s[j].gid != v.gid);
        } else {
            assert(s[j].gid != s[k].gid);
        }
    }
}

/// Copies a list of records.
fn clone_records(v: &Vec<LinkData>) -> (r: Vec<LinkData>)
    ensures
        views(r@) == views(v@),
{
    let mut r: Vec<LinkData> = Vec::new();
    let mut i: usize = 0;
    while i < v.len()
        invariant
            0 <= i <= v.len(),
            r.len() == i,
            forall|j: int| 0 <= j < i ==> (#[trigger] r@[j])@ == v@[j]@,
        decreases v.len() - i,
    {
        r.push(v[i].clone());
        i = i + 1;
    }
    assert(views(r@) =~= views(v@));
    r
}

/// The first place in `records` of a record with the identifier `gid`.
fn position(records: &Vec<LinkData>, gid: &String) -> (r: Option<usize>)
    ensures
        match r {
            Some(i) => i < records.len() && views(records@)[i as int].gid == gid@,
            None => !occurs(views(records@), gid@),
        },
{
    let mut i: usize = 0;
    while i < records.len()
        invariant
            0 <= i <= records.len(),
            forall|j: int| 0 <= j < i ==> (#[trigger] views(records@)[j]).gid != gid@,
        decreases records.len() - i,
    {
        if records[i].gid == *gid {
            return Some(i);
        }
        i = i + 1;
    }
    None
}

/// The whole known state at one instant: at most one record for each job
/// identifier.
#[derive(Debug)]
pub struct Snapshot {
    records: Vec<LinkData>,
}

impl View for Snapshot {
    type V = Map<Seq<char>, LinkView>;

    closed spec fn view(&self) -> Map<Seq<char>, LinkView> {
        keyed(views(self.records@))
    }
}

impl Clone for Snapshot {
    fn clone(&self) -> (r: Self)
        ensures
            r@ == self@,
    {
        proof {
            use_type_invariant(self);
        }
        Snapshot { records: clone_records(&self.records) }
    }
}

impl Snapshot {
    #[verifier::type_invariant]
    spec fn each_identifier_once(&self) -> bool {
        distinct(views(self.records@))
    }

    /// The snapshot that holds no job.
    pub fn new() -> (r: Snapshot)
        ensures
            r@ == Map::<Seq<char>, LinkView>::empty(),
    {
        let records: Vec<LinkData> = Vec::new();
        assert(views(records@) =~= Seq::<LinkView>::empty());
        Snapshot { records }
    }

    /// The snapshot that a run of records stands for: where an identifier
    /// occurs more than once, the last record that carries it is kept.
    pub fn from_records(list: &Vec<LinkData>) -> (r: Snapshot)
        ensures
            r@ == keyed(views(list@)),
    {
        let mut records: Vec<LinkData> = Vec::new();
        let mut i: usize = 0;
        assert(views(list@).subrange(0, 0) =~= Seq::<LinkView>::empty());
        assert(views(records@) =~= Seq::<LinkView>::empty());
        while i < list.len()
            invariant
                0 <= i <= list.len(),
                distinct(views(records@)),
                keyed(views(records@)) == keyed(views(list@).subrange(0, i as int)),
            decreases list.len() - i,
        {
            let rec = list[i].clone();
            let ghost before = views(records@);
            let ghost v = rec@;
            proof {
                let q = views(list@).subrange(0, i as int + 1);
                assert(q.drop_last() =~= views(list@).subrange(0, i as int));
                assert(q.last() == v);
            }
            match position(&records, &rec.gid) {
                Some(k) => {
                    records.set(k, rec);
                    proof {
                        lemma_keyed_update(before, k as int, v);
                        assert(views(records@) =~= before.update(k as int, v));
                    }
                },
                None => {
                    records.push(rec);
                    proof {
                        lemma_keyed_push(before, v);
                        assert(views(records@) =~= before.push(v));
                    }
                },
            }
            i = i + 1;
        }
        assert(views(list@).subrange(0, list.len() as int) =~= views(list@));
        Snapshot { records }
    }

    /// The number of jobs.
    pub fn len(&self) -> (r: usize)
        ensures
            self@.dom().finite(),
            r == self@.len(),
    {
        proof {
            use_type_invariant(self);
            lemma_keyed_len(views(self.records@));
        }
        self.records.len()
    }

    /// Whether the snapshot holds no job.
    pub fn is_empty(&self) -> (r: bool)
        ensures
            r == (self@ == Map::<Seq<char>, LinkView>::empty()),
    {
        proof {
            use_type_invariant(self);
            lemma_keyed_len(views(self.records@));
            if self.records@.len() == 0 {
                assert(self@ =~= Map::<Seq<char>, LinkView>::empty());
            }
        }
        self.records.len() == 0
    }

    /// Whether a job with this identifier is known.
    pub fn contains(&self, gid: &String) -> (r: bool)
        ensures
            r == self@.contains_key(gid@),
    {
        proof {
            lemma_keyed_domain(views(self.records@));
        }
        match position(&self.records, gid) {
            Some(i) => {
                assert(views(self.records@)[i as int].gid == gid@);
                true
            },
            None => false,
        }
    }

    /// The record of the job with this identifier, if it is known.
    pub fn get(&self, gid: &String) -> (r: Option<&LinkData>)
        ensures
            match r {
                Some(l) => self@.contains_key(gid@) && self@[gid@] == l@,
                None => !self@.contains_key(gid@),
            },
    {
        proof {
            use_type_invariant(self);
            lemma_keyed_domain(views(self.records@));
        }
        match position(&self.records, gid) {
            Some(i) => {
                proof {
                    lemma_keyed_at(views(self.records@), i as int);
                }
                Some(&self.records[i])
            },
            None => None,
        }
    }

    /// The snapshot with `rec` filed under its identifier: a new job is added,
    /// a known one has its record replaced, every other job stays as it is.
    pub fn with_record(&self, rec: LinkData) -> (r: Snapshot)
        ensures
            r@ == self@.insert(rec@.gid, rec@),
    {
        proof {
            use_type_invariant(self);
        }
        let mut records = clone_records(&self.records);
        let ghost before = views(records@);
        let ghost v = rec@;
        match position(&records, &rec.gid) {
            Some(k) => {
                records.set(k, rec);
                proof {
                    lemma_keyed_update(before, k as int, v);
                    assert(views(records@) =~= before.update(k as int, v));
                }
            },
            None => {
                records.push(rec);
                proof {
                    lemma_keyed_push(before, v);
                    assert(views(records@) =~= before.push(v));
                }
            },
        }
        Snapshot { records }
    }

    /// The snapshot without the job `gid`; the same snapshot where the job is
    /// not known.
    pub fn without(&self, gid: &String) -> (r: Snapshot)
        ensures
            r@ == self@.remove(gid@),
    {
        proof {
            use_type_invariant(self);
            lemma_keyed_domain(views(self.records@));
        }
        let mut records = clone_records(&self.records);
        let ghost before = views(records@);
        match position(&records, gid) {
            Some(k) => {
                records.remove(k);
                proof {
                    lemma_keyed_remove(before, k as int);
                    assert(views(records@) =~= before.remove(k as int));
                }
            },
            None => {
                assert(keyed(before).remove(gid@) =~= keyed(before));
            },
        }
        Snapshot { records }
    }

    /// The records as a list: each job once.
    pub fn records(&self) -> (r: Vec<LinkData>)
        ensures
            distinct(views(r@)),
            keyed(views(r@)) == self@,
            r.len() == self@.len(),
    {
        proof {
            use_type_invariant(self);
            lemma_keyed_len(views(self.records@));
        }
        clone_records(&self.records)
    }

    /// Whether two snapshots hold the same jobs with the same records.
    pub fn same_as(&self, other: &Snapshot) -> (r: bool)
        ensures
            r == (self@ == other@),
    {
        proof {
            use_type_invariant(self);
            use_type_invariant(other);
            lemma_keyed_len(views(self.records@));
            lemma_keyed_len(views(other.records@));
            lemma_keyed_domain(views(self.records@));
            lemma_keyed_domain(views(other.records@));
        }
        if self.records.len() != other.records.len() {
            return false;
        }
        let mut i: usize = 0;
        while i < self.records.len()
            invariant
                0 <= i <= self.records.len(),
                distinct(views(self.records@)),
                distinct(views(other.records@)),
                forall|g: Seq<char>| #[trigger]
                    other@.contains_key(g) <==> occurs(views(other.records@), g),
                forall|j: int|
                    0 <= j < i ==> other@.contains_key((#[trigger] views(self.records@)[j]).gid)
                        && other@[views(self.records@)[j].gid] == views(self.records@)[j],
            decreases self.records.len() - i,
        {
            let mine = &self.records[i];
            proof {
                lemma_keyed_at(views(self.records@), i as int);
                assert(views(self.records@)[i as int] == mine@);
            }
            match position(&other.records, &mine.gid) {
                Some(k) => {
                    proof {
                        lemma_keyed_at(views(other.records@), k as int);
                    }
                    if !mine.same(&other.records[k]) {
                        assert(self@[mine@.gid] != other@[mine@.gid]);
                        return false;
                    }
                },
                None => {
                    assert(self@.contains_key(mine@.gid) && !other@.contains_key(mine@.gid));
                    return false;
                },
            }
            i = i + 1;
        }
        proof {
            assert forall|g: Seq<char>| self@.contains_key(g) implies other@.contains_key(g)
                && other@[g] == self@[g] by {
                let j = choose|j: int|
                    0 <= j < self.records@.len() && (#[trigger] views(self.records@)[j]).gid == g;
                lemma_keyed_at(views(self.records@), j);
            }
            assert(self@.dom().subset_of(other@.dom()));
            lemma_subset_equality(self@.dom(), other@.dom());
            assert(self@ =~= other@);
        }
        true
    }
}

} // verus!
