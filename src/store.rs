//! The server's history of clipboard entries.
//!
//! Records are kept in increasing id order. Ids come from a counter that only
//! grows, so an id is never reused, also after deletions. After each save the
//! oldest unpinned records beyond `max_count` unpinned ones are dropped;
//! pinned records are neither counted nor dropped.

use crate::clipboard::ClipboardData;
use vstd::prelude::*;

verus! {

/// One stored entry.
pub struct HistoryRecord {
    pub id: i64,
    pub data: ClipboardData,
    pub pinned: bool,
    pub timestamp: String,
}

impl HistoryRecord {
    /// A copy of this record.
    pub fn duplicate(&self) -> (r: HistoryRecord)
        ensures
            r == *self,
    {
        HistoryRecord {
            id: self.id,
            data: self.data.duplicate(),
            pinned: self.pinned,
            timestamp: self.timestamp.clone(),
        }
    }
}

/// Ids strictly increase along the records.
pub open spec fn ids_increasing(s: Seq<HistoryRecord>) -> bool {
    forall|i: int, j: int| 0 <= i < j < s.len() ==> #[trigger] s[i].id < #[trigger] s[j].id
}

/// The number of unpinned records.
pub open spec fn unpinned_count(s: Seq<HistoryRecord>) -> nat
    decreases s.len(),
{
    if s.len() == 0 {
        0
    } else {
        (if s[0].pinned { 0nat } else { 1nat }) + unpinned_count(s.skip(1))
    }
}

/// The records without the `d` oldest unpinned ones.
pub open spec fn drop_oldest_unpinned(s: Seq<HistoryRecord>, d: nat) -> Seq<HistoryRecord>
    decreases s.len(),
{
    if s.len() == 0 {
        s
    } else if s[0].pinned {
        seq![s[0]] + drop_oldest_unpinned(s.skip(1), d)
    } else if d > 0 {
        drop_oldest_unpinned(s.skip(1), (d - 1) as nat)
    } else {
        seq![s[0]] + drop_oldest_unpinned(s.skip(1), 0)
    }
}

/// The ids of the `d` oldest unpinned records, oldest first.
pub open spec fn oldest_unpinned_ids(s: Seq<HistoryRecord>, d: nat) -> Seq<i64>
    decreases s.len(),
{
    if s.len() == 0 {
        Seq::empty()
    } else if s[0].pinned {
        oldest_unpinned_ids(s.skip(1), d)
    } else if d > 0 {
        seq![s[0].id] + oldest_unpinned_ids(s.skip(1), (d - 1) as nat)
    } else {
        oldest_unpinned_ids(s.skip(1), 0)
    }
}

/// How many unpinned records exceed `max_count` (none when it is 0, which
/// means no limit).
pub open spec fn excess(s: Seq<HistoryRecord>, max_count: u32) -> nat {
    if max_count > 0 && unpinned_count(s) > max_count {
        (unpinned_count(s) - max_count) as nat
    } else {
        0
    }
}

/// The records that retention keeps.
pub open spec fn retained(s: Seq<HistoryRecord>, max_count: u32) -> Seq<HistoryRecord> {
    drop_oldest_unpinned(s, excess(s, max_count))
}

/// The ids that retention removes, oldest first.
pub open spec fn evicted_ids(s: Seq<HistoryRecord>, max_count: u32) -> Seq<i64> {
    oldest_unpinned_ids(s, excess(s, max_count))
}

proof fn lemma_skip_subrange(s: Seq<HistoryRecord>, a: int, b: int)
    requires
        0 <= a < b <= s.len(),
    ensures
        s.subrange(a, b)[0] == s[a],
        s.subrange(a, b).skip(1) == s.subrange(a + 1, b),
        s.subrange(a, b).len() > 0,
{
    assert(s.subrange(a, b).skip(1) =~= s.subrange(a + 1, b));
}

proof fn lemma_count_concat(a: Seq<HistoryRecord>, b: Seq<HistoryRecord>)
    ensures
        unpinned_count(a + b) == unpinned_count(a) + unpinned_count(b),
    decreases a.len(),
{
    if a.len() > 0 {
        assert((a + b).skip(1) =~= a.skip(1) + b);
        assert((a + b)[0] == a[0]);
        lemma_count_concat(a.skip(1), b);
    } else {
        assert(a + b =~= b);
    }
}

proof fn lemma_count_single(x: HistoryRecord)
    ensures
        unpinned_count(seq![x]) == if x.pinned { 0nat } else { 1nat },
{
    assert(seq![x].skip(1) =~= Seq::<HistoryRecord>::empty());
    assert(unpinned_count(seq![x].skip(1)) == 0);
}

proof fn lemma_drop_count(s: Seq<HistoryRecord>, d: nat)
    requires
        d <= unpinned_count(s),
    ensures
        unpinned_count(drop_oldest_unpinned(s, d)) == unpinned_count(s) - d,
    decreases s.len(),
{
    if s.len() > 0 {
        let t = s.skip(1);
        if s[0].pinned {
            lemma_drop_count(t, d);
            lemma_count_concat(seq![s[0]], drop_oldest_unpinned(t, d));
            lemma_count_single(s[0]);
        } else if d > 0 {
            lemma_drop_count(t, (d - 1) as nat);
        } else {
            lemma_drop_count(t, 0);
            lemma_count_concat(seq![s[0]], drop_oldest_unpinned(t, 0));
            lemma_count_single(s[0]);
        }
    }
}

proof fn lemma_drop_keeps(s: Seq<HistoryRecord>, d: nat, k: int)
    requires
        0 <= k < s.len(),
    ensures
        s[k].pinned ==> drop_oldest_unpinned(s, d).contains(s[k]),
        !s[k].pinned && unpinned_count(s.subrange(0, k)) >= d ==> drop_oldest_unpinned(s, d).contains(s[k]),
        !s[k].pinned && unpinned_count(s.subrange(0, k)) < d ==> oldest_unpinned_ids(s, d).contains(s[k].id),
    decreases s.len(),
{
    let t = s.skip(1);
    if k == 0 {
        assert(s.subrange(0, 0) =~= Seq::<HistoryRecord>::empty());
        if s[0].pinned || d == 0 {
            assert((seq![s[0]] + drop_oldest_unpinned(t, d))[0] == s[0]);
        } else {
            assert((seq![s[0].id] + oldest_unpinned_ids(t, (d - 1) as nat))[0] == s[0].id);
        }
    } else {
        assert(s[k] == t[k - 1]);
        assert(s.subrange(0, k) =~= seq![s[0]] + t.subrange(0, k - 1));
        lemma_count_concat(seq![s[0]], t.subrange(0, k - 1));
        lemma_count_single(s[0]);
        if s[0].pinned {
            lemma_drop_keeps(t, d, k - 1);
            let r = drop_oldest_unpinned(t, d);
            if r.contains(s[k]) {
                let j = choose|j: int| 0 <= j < r.len() && r[j] == s[k];
                assert((seq![s[0]] + r)[j + 1] == s[k]);
            }
        } else if d > 0 {
            lemma_drop_keeps(t, (d - 1) as nat, k - 1);
            let q = oldest_unpinned_ids(t, (d - 1) as nat);
            if q.contains(s[k].id) {
                let j = choose|j: int| 0 <= j < q.len() && q[j] == s[k].id;
                assert((seq![s[0].id] + q)[j + 1] == s[k].id);
            }
        } else {
            lemma_drop_keeps(t, 0, k - 1);
            let r = drop_oldest_unpinned(t, 0);
            if r.contains(s[k]) {
                let j = choose|j: int| 0 <= j < r.len() && r[j] == s[k];
                assert((seq![s[0]] + r)[j + 1] == s[k]);
            }
        }
    }
}

proof fn lemma_split_count(s: Seq<HistoryRecord>, k: int)
    requires
        0 <= k < s.len(),
    ensures
        unpinned_count(s) == unpinned_count(s.subrange(0, k))
            + (if s[k].pinned { 0nat } else { 1nat }) + unpinned_count(s.skip(k + 1)),
{
    assert(s =~= s.subrange(0, k) + (seq![s[k]] + s.skip(k + 1)));
    lemma_count_concat(s.subrange(0, k), seq![s[k]] + s.skip(k + 1));
    lemma_count_concat(seq![s[k]], s.skip(k + 1));
    lemma_count_single(s[k]);
}

/// Retention with a positive `max_count` leaves exactly
/// `min(unpinned, max_count)` unpinned records; it keeps every pinned record
/// and every unpinned record with fewer than `max_count` unpinned records
/// after it (the most recent ones), and evicts every other unpinned record.
pub proof fn lemma_retention(s: Seq<HistoryRecord>, max_count: u32)
    requires
        max_count > 0,
    ensures
        unpinned_count(retained(s, max_count)) == if unpinned_count(s) > max_count {
            max_count as nat
        } else {
            unpinned_count(s)
        },
        forall|k: int| 0 <= k < s.len() && s[k].pinned ==> #[trigger] retained(s, max_count).contains(s[k]),
        forall|k: int| 0 <= k < s.len() && !s[k].pinned && unpinned_count(s.skip(k + 1)) < max_count
            ==> #[trigger] retained(s, max_count).contains(s[k]),
        forall|k: int| 0 <= k < s.len() && !s[k].pinned && unpinned_count(s.skip(k + 1)) >= max_count
            ==> #[trigger] evicted_ids(s, max_count).contains(s[k].id),
{
    let d = excess(s, max_count);
    lemma_drop_count(s, d);
    assert forall|k: int| 0 <= k < s.len() && !s[k].pinned && unpinned_count(s.skip(k + 1)) >= max_count
        implies #[trigger] evicted_ids(s, max_count).contains(s[k].id) by {
        lemma_split_count(s, k);
        lemma_drop_keeps(s, d, k);
    }
    assert forall|k: int| 0 <= k < s.len() && (s[k].pinned || unpinned_count(s.skip(k + 1)) < max_count)
        implies #[trigger] retained(s, max_count).contains(s[k]) by {
        lemma_split_count(s, k);
        lemma_drop_keeps(s, d, k);
    }
}

/// Records with increasing, positive ids, all below `next_id`.
pub open spec fn history_valid(s: Seq<HistoryRecord>, next_id: i64) -> bool {
    &&& ids_increasing(s)
    &&& next_id >= 1
    &&& forall|i: int| 0 <= i < s.len() ==> 1 <= #[trigger] s[i].id < next_id
}

/// Why a save did not happen.
pub enum StoreError {
    /// The id counter reached its largest value.
    IdsExhausted,
}

/// The id given to a saved entry and the ids that retention removed.
pub struct SaveOutcome {
    pub id: i64,
    pub evicted: Vec<i64>,
}

/// The clipboard history with its retention limit.
pub struct Database {
    records: Vec<HistoryRecord>,
    next_id: i64,
    max_count: u32,
}

impl Database {
    /// The records, oldest first.
    pub closed spec fn records(&self) -> Seq<HistoryRecord> {
        self.records@
    }

    /// The id that the next save will use.
    pub closed spec fn next_id(&self) -> i64 {
        self.next_id
    }

    /// How many unpinned records retention keeps (0: all).
    pub closed spec fn max_count(&self) -> u32 {
        self.max_count
    }

    /// The store's invariant: ids increase along the records, are positive,
    /// and are all below the counter (so a new id is above every earlier one).
    pub open spec fn wf(&self) -> bool {
        history_valid(self.records(), self.next_id())
    }

    /// An empty history keeping at most `max_count` unpinned records (0: no limit).
    pub fn new(max_count: u32) -> (r: Database)
        ensures
            r.wf(),
            r.records() == Seq::<HistoryRecord>::empty(),
            r.next_id() == 1,
            r.max_count() == max_count,
    {
        Database { records: Vec::new(), next_id: 1, max_count }
    }

    /// A history restored from persisted records, which must have positive,
    /// increasing ids; the counter continues after `next_id` and after every
    /// stored id.
    pub fn restore(records: Vec<HistoryRecord>, next_id: i64, max_count: u32) -> (r: Option<Database>)
        ensures
            r is Some <==> ids_increasing(records@) && (forall|i: int| 0 <= i < records@.len() ==> #[trigger] records@[i].id >= 1)
                && (records@.len() > 0 ==> records@.last().id < i64::MAX),
            r matches Some(db) ==> db.wf() && db.records() == records@ && db.max_count() == max_count
                && db.next_id() as int == (if records@.len() > 0 && records@.last().id + 1 > next_id {
                    records@.last().id + 1
                } else if next_id < 1 {
                    1int
                } else {
                    next_id as int
                }),
    {
        let n = records.len();
        let mut i: usize = 0;
        while i < n
            invariant
                n == records@.len(),
                i <= n,
                forall|a: int, b: int| 0 <= a < b < i ==> #[trigger] records@[a].id < #[trigger] records@[b].id,
                forall|a: int| 0 <= a < i ==> #[trigger] records@[a].id >= 1,
            decreases n - i,
        {
            if records[i].id < 1 {
                return None;
            }
            if i > 0 && records[i - 1].id >= records[i].id {
                assert(!ids_increasing(records@)) by {
                    assert(records@[i - 1].id >= records@[i as int].id);
                }
                return None;
            }
            i = i + 1;
        }
        let mut next = if next_id < 1 { 1 } else { next_id };
        if n > 0 {
            let last = records[n - 1].id;
            if last == i64::MAX {
                return None;
            }
            if last + 1 > next {
                next = last + 1;
            }
        }
        let db = Database { records, next_id: next, max_count };
        proof {
            assert forall|a: int| 0 <= a < db.records@.len() implies 1 <= #[trigger] db.records@[a].id < db.next_id by {
                if a < n - 1 {
                    assert(db.records@[a].id < db.records@[n - 1].id);
                }
            }
        }
        Some(db)
    }

    /// Appends `data` as a new unpinned record with the next id, then applies
    /// retention. Fails only when the id counter is exhausted.
    pub fn save(&mut self, data: ClipboardData, timestamp: String) -> (r: Result<SaveOutcome, StoreError>)
        requires
            old(self).wf(),
        ensures
            final(self).wf(),
            final(self).max_count() == old(self).max_count(),
            r is Err <==> old(self).next_id() == i64::MAX,
            r is Err ==> *final(self) == *old(self),
            r matches Ok(o) ==> {
                let added = old(self).records().push(HistoryRecord {
                    id: old(self).next_id(),
                    data,
                    pinned: false,
                    timestamp,
                });
                &&& o.id == old(self).next_id()
                &&& final(self).next_id() == old(self).next_id() + 1
                &&& final(self).records() == retained(added, old(self).max_count())
                &&& o.evicted@ == evicted_ids(added, old(self).max_count())
            },
    {
        if self.next_id == i64::MAX {
            return Err(StoreError::IdsExhausted);
        }
        let id = self.next_id;
        self.records.push(HistoryRecord { id, data, pinned: false, timestamp });
        self.next_id = id + 1;
        let ghost orig = self.records@;
        let n = self.records.len();
        proof {
            assert forall|a: int, b: int| 0 <= a < b < orig.len() implies #[trigger] orig[a].id < #[trigger] orig[b].id by {
                if b == orig.len() - 1 {
                    assert(orig[a] == old(self).records@[a]);
                } else {
                    assert(orig[a] == old(self).records@[a] && orig[b] == old(self).records@[b]);
                }
            }
            assert forall|a: int| 0 <= a < orig.len() implies 1 <= #[trigger] orig[a].id < id + 1 by {
                if a < orig.len() - 1 {
                    assert(orig[a] == old(self).records@[a]);
                }
            }
        }

        // Count the unpinned records, newest first.
        let mut unpinned: usize = 0;
        let mut j: usize = n;
        while j > 0
            invariant
                j <= n,
                n == orig.len(),
                self.records@ == orig,
                self.max_count == old(self).max_count,
                self.next_id == id + 1,
                unpinned == unpinned_count(orig.subrange(j as int, n as int)),
                unpinned <= n - j,
            decreases j,
        {
            proof {
                lemma_skip_subrange(orig, j - 1, n as int);
            }
            if !self.records[j - 1].pinned {
                unpinned = unpinned + 1;
            }
            j = j - 1;
        }
        assert(orig.subrange(0, n as int) == orig);
        let d: usize = if self.max_count > 0 && unpinned > self.max_count as usize {
            unpinned - self.max_count as usize
        } else {
            0
        };
        assert(d == excess(orig, self.max_count));

        // Drop the `d` oldest unpinned records.
        let mut evicted: Vec<i64> = Vec::new();
        let mut i: usize = 0;
        let mut rem: usize = d;
        let ghost mut done: int = 0;
        while i < self.records.len()
            invariant
                0 <= done <= n,
                n == orig.len(),
                i <= done,
                self.max_count == old(self).max_count,
                self.next_id == id + 1,
                d == excess(orig, self.max_count),
                self.records@.len() == i + (n - done),
                self.records@.subrange(i as int, self.records@.len() as int) == orig.subrange(done, n as int),
                drop_oldest_unpinned(orig, d as nat) == self.records@.subrange(0, i as int)
                    + drop_oldest_unpinned(orig.subrange(done, n as int), rem as nat),
                oldest_unpinned_ids(orig, d as nat) == evicted@
                    + oldest_unpinned_ids(orig.subrange(done, n as int), rem as nat),
            decreases n - done,
        {
            proof {
                lemma_skip_subrange(orig, done, n as int);
            }
            let ghost pre = self.records@;
            let ghost rest = orig.subrange(done, n as int);
            assert(pre[i as int] == rest[0]) by {
                assert(pre.subrange(i as int, pre.len() as int)[0] == pre[i as int]);
            }
            if !self.records[i].pinned && rem > 0 {
                let gone = self.records.remove(i);
                evicted.push(gone.id);
                rem = rem - 1;
                proof {
                    assert(self.records@.subrange(0, i as int) =~= pre.subrange(0, i as int));
                    assert(self.records@.subrange(i as int, self.records@.len() as int)
                        =~= pre.subrange(i + 1, pre.len() as int));
                    assert(pre.subrange(i + 1, pre.len() as int) =~= pre.subrange(i as int, pre.len() as int).skip(1));
                    assert(seq![gone.id] + oldest_unpinned_ids(rest.skip(1), rem as nat)
                        == oldest_unpinned_ids(rest, (rem + 1) as nat));
                    assert(evicted@ =~= (evicted@.drop_last()).push(gone.id));
                    assert(oldest_unpinned_ids(orig, d as nat) =~= evicted@
                        + oldest_unpinned_ids(orig.subrange(done + 1, n as int), rem as nat));
                }
            } else {
                i = i + 1;
                proof {
                    assert(self.records@.subrange(0, i as int) =~= pre.subrange(0, i - 1 as int).push(rest[0]));
                    assert(self.records@.subrange(i as int, self.records@.len() as int)
                        =~= pre.subrange(i - 1 as int, pre.len() as int).skip(1));
                    assert(drop_oldest_unpinned(rest, rem as nat)
                        == seq![rest[0]] + drop_oldest_unpinned(rest.skip(1), rem as nat));
                    assert(drop_oldest_unpinned(orig, d as nat) =~= self.records@.subrange(0, i as int)
                        + drop_oldest_unpinned(orig.subrange(done + 1, n as int), rem as nat));
                }
            }
            proof {
                done = done + 1;
            }
        }
        proof {
            assert(orig.subrange(n as int, n as int) =~= Seq::<HistoryRecord>::empty());
            assert(self.records@.subrange(0, i as int) =~= self.records@);
            assert(self.records@ =~= retained(orig, self.max_count));
            assert(evicted@ =~= evicted_ids(orig, self.max_count));
            lemma_retained_wf(orig, d as nat, self.next_id);
        }
        Ok(SaveOutcome { id, evicted })
    }
    /// The most recent entry, if any.
    pub fn get_latest(&self) -> (r: Option<ClipboardData>)
        ensures
            self.records().len() == 0 ==> r is None,
            self.records().len() > 0 ==> r == Some(self.records().last().data),
    {
        let n = self.records.len();
        if n == 0 {
            None
        } else {
            Some(self.records[n - 1].data.duplicate())
        }
    }

    /// The id of the most recent entry, if any: the long-poll cursor.
    pub fn get_latest_id(&self) -> (r: Option<i64>)
        ensures
            self.records().len() == 0 ==> r is None,
            self.records().len() > 0 ==> r == Some(self.records().last().id),
    {
        let n = self.records.len();
        if n == 0 {
            None
        } else {
            Some(self.records[n - 1].id)
        }
    }

    /// A page of the history: pinned records first, then the others, each
    /// newest first; `offset` records are skipped and at most `limit` returned.
    pub fn get_history(&self, limit: u32, offset: u32) -> (r: Vec<HistoryRecord>)
        ensures
            r@ == page(history_order(self.records()), offset as int, limit as int),
    {
        let mut order: Vec<HistoryRecord> = Vec::new();
        collect_newest_first(&self.records, true, &mut order);
        collect_newest_first(&self.records, false, &mut order);
        let n = order.len();
        let start: usize = if (offset as usize) < n { offset as usize } else { n };
        let end: usize = if (limit as usize) < n - start { start + limit as usize } else { n };
        let mut out: Vec<HistoryRecord> = Vec::new();
        let mut i: usize = start;
        while i < end
            invariant
                start <= i <= end <= n,
                n == order@.len(),
                out@ == order@.subrange(start as int, i as int),
            decreases end - i,
        {
            out.push(order[i].duplicate());
            i = i + 1;
            assert(out@ =~= order@.subrange(start as int, i as int));
        }
        out
    }

    /// Removes the record with this id; returns whether there was one.
    pub fn delete_history(&mut self, id: i64) -> (r: bool)
        requires
            old(self).wf(),
        ensures
            final(self).wf(),
            final(self).next_id() == old(self).next_id(),
            final(self).max_count() == old(self).max_count(),
            r == exists|k: int| 0 <= k < old(self).records().len() && #[trigger] old(self).records()[k].id == id,
            r ==> exists|k: int| 0 <= k < old(self).records().len() && #[trigger] old(self).records()[k].id == id
                && final(self).records() == old(self).records().remove(k),
            !r ==> final(self).records() == old(self).records(),
    {
        match self.position(id) {
            Some(k) => {
                let ghost pre = self.records@;
                let _gone = self.records.remove(k);
                proof {
                    let s = self.records@;
                    assert forall|a: int, b: int| 0 <= a < b < s.len() implies #[trigger] s[a].id < #[trigger] s[b].id by {
                        let a2 = if a < k { a } else { a + 1 };
                        let b2 = if b < k { b } else { b + 1 };
                        assert(s[a] == pre[a2] && s[b] == pre[b2]);
                    }
                    assert forall|a: int| 0 <= a < s.len() implies 1 <= #[trigger] s[a].id < self.next_id by {
                        let a2 = if a < k { a } else { a + 1 };
                        assert(s[a] == pre[a2]);
                    }
                }
                true
            },
            None => false,
        }
    }

    /// Pins or unpins the record with this id; returns whether there was one.
    pub fn set_pinned(&mut self, id: i64, pinned: bool) -> (r: bool)
        requires
            old(self).wf(),
        ensures
            final(self).wf(),
            final(self).next_id() == old(self).next_id(),
            final(self).max_count() == old(self).max_count(),
            r == exists|k: int| 0 <= k < old(self).records().len() && #[trigger] old(self).records()[k].id == id,
            r ==> exists|k: int| 0 <= k < old(self).records().len() && #[trigger] old(self).records()[k].id == id
                && final(self).records() == old(self).records().update(k, HistoryRecord {
                    pinned,
                    ..old(self).records()[k]
                }),
            !r ==> final(self).records() == old(self).records(),
    {
        match self.position(id) {
            Some(k) => {
                let ghost pre = self.records@;
                let mut rec = self.records.remove(k);
                rec.pinned = pinned;
                self.records.insert(k, rec);
                proof {
                    let s = self.records@;
                    assert(s =~= pre.update(k as int, HistoryRecord { pinned, ..pre[k as int] }));
                    assert forall|a: int, b: int| 0 <= a < b < s.len() implies #[trigger] s[a].id < #[trigger] s[b].id by {
                        assert(s[a].id == pre[a].id && s[b].id == pre[b].id);
                    }
                    assert forall|a: int| 0 <= a < s.len() implies 1 <= #[trigger] s[a].id < self.next_id by {
                        assert(s[a].id == pre[a].id);
                    }
                }
                true
            },
            None => false,
        }
    }

    /// The position of the record with this id, if any.
    fn position(&self, id: i64) -> (r: Option<usize>)
        ensures
            r matches Some(k) ==> k < self.records@.len() && self.records@[k as int].id == id,
            r is None ==> forall|k: int| 0 <= k < self.records@.len() ==> #[trigger] self.records@[k].id != id,
    {
        let mut i: usize = 0;
        while i < self.records.len()
            invariant
                i <= self.records@.len(),
                forall|k: int| 0 <= k < i ==> #[trigger] self.records@[k].id != id,
            decreases self.records@.len() - i,
        {
            if self.records[i].id == id {
                return Some(i);
            }
            i = i + 1;
        }
        None
    }
}

/// The records with the given pin state, newest first.
pub open spec fn newest_first(s: Seq<HistoryRecord>, pinned: bool) -> Seq<HistoryRecord>
    decreases s.len(),
{
    if s.len() == 0 {
        Seq::empty()
    } else {
        newest_first(s.skip(1), pinned) + if s[0].pinned == pinned { seq![s[0]] } else { Seq::empty() }
    }
}

/// The order in which the history is listed: pinned first, then newest first.
pub open spec fn history_order(s: Seq<HistoryRecord>) -> Seq<HistoryRecord> {
    newest_first(s, true) + newest_first(s, false)
}

/// Entries `offset ..` of `s`, at most `limit` of them.
pub open spec fn page(s: Seq<HistoryRecord>, offset: int, limit: int) -> Seq<HistoryRecord> {
    let start = if offset < s.len() { offset } else { s.len() as int };
    let end = if limit < s.len() - start { start + limit } else { s.len() as int };
    s.subrange(start, end)
}

/// Appends copies of the records with the given pin state, newest first.
fn collect_newest_first(records: &Vec<HistoryRecord>, pinned: bool, out: &mut Vec<HistoryRecord>)
    ensures
        final(out)@ == old(out)@ + newest_first(records@, pinned),
{
    let n = records.len();
    let mut j: usize = n;
    while j > 0
        invariant
            j <= n,
            n == records@.len(),
            out@ == old(out)@ + newest_first(records@.subrange(j as int, n as int), pinned),
        decreases j,
    {
        let ghost before = out@;
        proof {
            lemma_skip_subrange(records@, j - 1, n as int);
        }
        if records[j - 1].pinned == pinned {
            out.push(records[j - 1].duplicate());
        }
        j = j - 1;
        assert(out@ =~= old(out)@ + newest_first(records@.subrange(j as int, n as int), pinned));
    }
    assert(records@.subrange(0, n as int) == records@);
}


proof fn lemma_retained_wf(s: Seq<HistoryRecord>, d: nat, next: i64)
    requires
        ids_increasing(s),
        forall|i: int| 0 <= i < s.len() ==> 1 <= #[trigger] s[i].id < next,
    ensures
        ids_increasing(drop_oldest_unpinned(s, d)),
        forall|i: int| 0 <= i < drop_oldest_unpinned(s, d).len() ==> 1 <= #[trigger] drop_oldest_unpinned(s, d)[i].id < next,
        forall|i: int| 0 <= i < drop_oldest_unpinned(s, d).len() ==> s.len() > 0 && s[0].id <= #[trigger] drop_oldest_unpinned(s, d)[i].id,
    decreases s.len(),
{
    if s.len() > 0 {
        let t = s.skip(1);
        assert forall|a: int, b: int| 0 <= a < b < t.len() implies #[trigger] t[a].id < #[trigger] t[b].id by {
            assert(t[a] == s[a + 1] && t[b] == s[b + 1]);
        }
        assert forall|i: int| 0 <= i < t.len() implies 1 <= #[trigger] t[i].id < next by {
            assert(t[i] == s[i + 1]);
        }
        let dd: nat = if !s[0].pinned && d > 0 { (d - 1) as nat } else { d };
        lemma_retained_wf(t, dd, next);
        let r = drop_oldest_unpinned(t, dd);
        assert forall|i: int| 0 <= i < r.len() implies s[0].id < #[trigger] r[i].id by {
            assert(t.len() > 0 && t[0].id <= r[i].id);
            assert(t[0] == s[1]);
        }
        if s[0].pinned || d == 0 {
            let f = seq![s[0]] + r;
            assert(drop_oldest_unpinned(s, d) == f);
            assert forall|a: int, b: int| 0 <= a < b < f.len() implies #[trigger] f[a].id < #[trigger] f[b].id by {
                if a == 0 {
                    assert(f[b] == r[b - 1]);
                } else {
                    assert(f[a] == r[a - 1] && f[b] == r[b - 1]);
                }
            }
            assert forall|i: int| 0 <= i < f.len() implies 1 <= #[trigger] f[i].id < next && s[0].id <= f[i].id by {
                if i > 0 {
                    assert(f[i] == r[i - 1]);
                }
            }
        }
    }
}

} // verus!
