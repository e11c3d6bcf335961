//! The job table: the single shared relation the queue works over, modeled as
//! a sequence of rows. It offers exactly the primitives the queue's protocol
//! needs from a store: insert returning a generated id, selection of the top
//! pending row under `priority` descending then `id` ascending, a conditional
//! update and a conditional delete that report how many rows they touched, and
//! a capped count.
//!
//! Ids are generated by the table and increase monotonically, so ordering by
//! id is ordering by insertion time; the FIFO tie-break among equal-priority
//! rows rests on that.

use vstd::prelude::*;

use crate::command::DataValue;

verus! {

/// The mathematical model of one row of the job table.
pub ghost struct RowModel {
    /// Unique, monotonically increasing with insertion order.
    pub id: u64,
    /// The kind tag naming the command variant `data` decodes as.
    pub kind: Seq<char>,
    /// The stored payload.
    pub data: DataValue,
    /// Higher is served first.
    pub priority: u16,
    /// `None` while the job is pending; `Some` once a worker claimed it.
    pub started_at: Option<i64>,
}

/// One row of the job table.
pub struct JobRow {
    pub id: u64,
    pub kind: String,
    pub data: DataValue,
    pub priority: u16,
    pub started_at: Option<i64>,
}

impl View for JobRow {
    type V = RowModel;

    open spec fn view(&self) -> RowModel {
        RowModel {
            id: self.id,
            kind: self.kind@,
            data: self.data,
            priority: self.priority,
            started_at: self.started_at,
        }
    }
}

/// A row awaiting a worker.
pub open spec fn is_pending(r: RowModel) -> bool {
    r.started_at is None
}

/// A row a worker has claimed.
pub open spec fn is_started(r: RowModel) -> bool {
    r.started_at is Some
}

/// `r` claimed at time `t`.
pub open spec fn started(r: RowModel, t: i64) -> RowModel {
    RowModel { started_at: Some(t), ..r }
}

/// The serving order: strictly higher priority first, and among equal
/// priorities the smaller (older) id first.
pub open spec fn beats(a: RowModel, b: RowModel) -> bool {
    a.priority > b.priority || (a.priority == b.priority && a.id < b.id)
}

/// Some row is pending.
pub open spec fn has_pending(s: Seq<RowModel>) -> bool {
    exists|i: int| 0 <= i < s.len() && is_pending(#[trigger] s[i])
}

/// The row at `i` is pending and beats every other pending row: it is the one
/// a claim selects.
pub open spec fn is_top_pending(s: Seq<RowModel>, i: int) -> bool {
    &&& 0 <= i < s.len()
    &&& is_pending(s[i])
    &&& forall|j: int| 0 <= j < s.len() && is_pending(#[trigger] s[j]) && j != i ==> beats(s[i], s[j])
}

/// Some row carries `id` and is still pending, so a conditional start of `id`
/// would succeed.
pub open spec fn claimable(s: Seq<RowModel>, id: u64) -> bool {
    exists|i: int| 0 <= i < s.len() && (#[trigger] s[i]).id == id && is_pending(s[i])
}

/// Some row carries `id` and is claimed, so a conditional delete of `id`
/// would succeed.
pub open spec fn finishable(s: Seq<RowModel>, id: u64) -> bool {
    exists|i: int| 0 <= i < s.len() && (#[trigger] s[i]).id == id && is_started(s[i])
}

/// Ids strictly increase along the table, hence are unique and ordered by
/// insertion time.
pub open spec fn ids_increasing(s: Seq<RowModel>) -> bool {
    forall|i: int, j: int| 0 <= i < j < s.len() ==> (#[trigger] s[i]).id < (#[trigger] s[j]).id
}

/// How many rows are claimed.
pub open spec fn started_count(s: Seq<RowModel>) -> nat
    decreases s.len(),
{
    if s.len() == 0 {
        0
    } else {
        started_count(s.drop_last()) + if is_started(s.last()) {
            1nat
        } else {
            0nat
        }
    }
}

/// Distinct indexes hold distinct ids.
pub proof fn lemma_ids_unique(s: Seq<RowModel>, i: int, j: int)
    requires
        ids_increasing(s),
        0 <= i < s.len(),
        0 <= j < s.len(),
        i != j,
    ensures
        s[i].id != s[j].id,
{
    if i < j {
        assert(s[i].id < s[j].id);
    } else {
        assert(s[j].id < s[i].id);
    }
}

/// The job table.
pub struct JobTable {
    rows: Vec<JobRow>,
    next_id: u64,
}

impl View for JobTable {
    type V = Seq<RowModel>;

    closed spec fn view(&self) -> Seq<RowModel> {
        self.rows@.map_values(|r: JobRow| r@)
    }
}

impl JobTable {
    /// The id the next insertion will be given.
    pub closed spec fn spec_next_id(&self) -> u64 {
        self.next_id
    }

    /// Well-formedness: ids strictly increase along the table and stay below
    /// the id generator, so no generated id ever collides with a stored one.
    pub open spec fn inv(&self) -> bool {
        &&& ids_increasing(self@)
        &&& forall|i: int| 0 <= i < self@.len() ==> (#[trigger] self@[i]).id < self.spec_next_id()
    }

    /// An empty table.
    pub fn new() -> (t: JobTable)
        ensures
            t@ == Seq::<RowModel>::empty(),
            t.spec_next_id() == 0,
            t.inv(),
    {
        let t = JobTable { rows: Vec::new(), next_id: 0 };
        proof {
            assert(t@ =~= Seq::<RowModel>::empty());
        }
        t
    }

    /// The id the next insertion will be given.
    pub fn next_id(&self) -> (n: u64)
        ensures
            n == self.spec_next_id(),
    {
        self.next_id
    }

    /// How many rows the table holds.
    pub fn len(&self) -> (n: usize)
        ensures
            n == self@.len(),
    {
        self.rows.len()
    }

    /// Read one row.
    pub fn row(&self, i: usize) -> (r: &JobRow)
        requires
            i < self@.len(),
        ensures
            r@ == self@[i as int],
    {
        &self.rows[i]
    }

    /// Insert one pending row and return its generated id, which exceeds
    /// every id the table has ever given out.
    pub fn insert(&mut self, kind: String, data: DataValue, priority: u16) -> (id: u64)
        requires
            old(self).inv(),
            old(self).spec_next_id() < u64::MAX,
        ensures
            final(self).inv(),
            id == old(self).spec_next_id(),
            final(self).spec_next_id() == old(self).spec_next_id() + 1,
            final(self)@ == old(self)@.push(
                (RowModel { id, kind: kind@, data, priority, started_at: None }),
            ),
    {
        let id = self.next_id;
        self.next_id = self.next_id + 1;
        let row = JobRow { id, kind, data, priority, started_at: None };
        let ghost rm = row@;
        self.rows.push(row);
        proof {
            assert(self@ =~= old(self)@.push(rm));
            assert forall|i: int, j: int| 0 <= i < j < self@.len() implies (#[trigger] self@[i]).id
                < (#[trigger] self@[j]).id by {
                if j < old(self)@.len() {
                    assert(old(self)@[i].id < old(self)@[j].id);
                } else {
                    assert(self@[i].id < self.spec_next_id());
                }
            }
        }
        id
    }

    /// The index of the top pending row: the pending row that beats every
    /// other pending one under `priority` descending, id ascending. `None`
    /// exactly when no row is pending.
    pub fn find_top_pending(&self) -> (r: Option<usize>)
        requires
            self.inv(),
        ensures
            match r {
                Some(i) => is_top_pending(self@, i as int),
                None => !has_pending(self@),
            },
    {
        let n = self.rows.len();
        let mut best: Option<usize> = None;
        let mut i: usize = 0;
        while i < n
            invariant
                self.inv(),
                n == self@.len(),
                i <= n,
                match best {
                    Some(b) => b < i && is_top_pending(self@.take(i as int), b as int),
                    None => !has_pending(self@.take(i as int)),
                },
            decreases n - i,
        {
            let cand = &self.rows[i];
            if cand.started_at.is_none() {
                let take_it = match best {
                    None => true,
                    Some(b) => {
                        let cur = &self.rows[b];
                        cand.priority > cur.priority || (cand.priority == cur.priority
                            && cand.id < cur.id)
                    },
                };
                if take_it {
                    best = Some(i);
                }
            }
            proof {
                let pre = self@.take(i as int);
                let post = self@.take(i + 1 as int);
                assert(post.drop_last() =~= pre);
                assert(post.last() == self@[i as int]);
                match best {
                    Some(b) => {
                        assert forall|j: int|
                            0 <= j < post.len() && is_pending(#[trigger] post[j]) && j != b
                            implies beats(post[b as int], post[j]) by {
                            if j < i {
                                if b == i as int {
                                    // the candidate displaced (or preceded) every
                                    // pending row of the prefix
                                    if !beats(post[b as int], post[j]) {
                                        lemma_ids_unique(self@, b as int, j);
                                        assert(beats(post[j], post[b as int]));
                                    }
                                } else {
                                    assert(is_top_pending(pre, b as int));
                                }
                            } else {
                                // j == i: the kept best beats the candidate
                                lemma_ids_unique(self@, b as int, j);
                            }
                        }
                    },
                    None => {},
                }
            }
            i = i + 1;
        }
        proof {
            assert(self@.take(n as int) =~= self@);
        }
        best
    }

    /// The index of the pending row carrying `id`, if any: the row a
    /// conditional start of `id` would touch.
    fn find_claimable(&self, id: u64) -> (r: Option<usize>)
        ensures
            match r {
                Some(k) => k < self@.len() && self@[k as int].id == id && is_pending(
                    self@[k as int],
                ),
                None => !claimable(self@, id),
            },
    {
        let n = self.rows.len();
        let mut k: usize = 0;
        while k < n
            invariant
                n == self@.len(),
                k <= n,
                forall|j: int|
                    0 <= j < k ==> !((#[trigger] self@[j]).id == id && is_pending(self@[j])),
            decreases n - k,
        {
            let row = &self.rows[k];
            if row.id == id && row.started_at.is_none() {
                return Some(k);
            }
            k = k + 1;
        }
        None
    }

    /// The index of the claimed row carrying `id`, if any: the row a
    /// conditional delete of `id` would touch.
    fn find_finishable(&self, id: u64) -> (r: Option<usize>)
        ensures
            match r {
                Some(k) => k < self@.len() && self@[k as int].id == id && is_started(
                    self@[k as int],
                ),
                None => !finishable(self@, id),
            },
    {
        let n = self.rows.len();
        let mut k: usize = 0;
        while k < n
            invariant
                n == self@.len(),
                k <= n,
                forall|j: int|
                    0 <= j < k ==> !((#[trigger] self@[j]).id == id && is_started(self@[j])),
            decreases n - k,
        {
            let row = &self.rows[k];
            if row.id == id && row.started_at.is_some() {
                return Some(k);
            }
            k = k + 1;
        }
        None
    }

    /// The conditional update at the heart of the claim protocol: set
    /// `started_at = now` where the id matches and `started_at` is still
    /// null, atomically, and report how many rows that touched. It succeeds
    /// exactly when a pending row carries `id`; every other row is untouched.
    pub fn start(&mut self, id: u64, now: i64) -> (n: usize)
        requires
            old(self).inv(),
        ensures
            final(self).inv(),
            final(self).spec_next_id() == old(self).spec_next_id(),
            final(self)@.len() == old(self)@.len(),
            n <= 1,
            (n == 1) == claimable(old(self)@, id),
            forall|j: int|
                0 <= j < old(self)@.len() ==> #[trigger] final(self)@[j] == (
                if old(self)@[j].id == id && is_pending(old(self)@[j]) {
                    started(old(self)@[j], now)
                } else {
                    old(self)@[j]
                }),
    {
        match self.find_claimable(id) {
            Some(k) => {
                let row = &mut self.rows[k];
                row.started_at = Some(now);
                proof {
                    assert(self@ =~= old(self)@.update(
                        k as int,
                        started(old(self)@[k as int], now),
                    ));
                    assert forall|j: int|
                        0 <= j < old(self)@.len() implies #[trigger] self@[j] == (
                    if old(self)@[j].id == id && is_pending(old(self)@[j]) {
                        started(old(self)@[j], now)
                    } else {
                        old(self)@[j]
                    }) by {
                        if j != k {
                            lemma_ids_unique(old(self)@, j, k as int);
                        }
                    }
                    assert forall|i: int, j: int| 0 <= i < j < self@.len() implies (
                    #[trigger] self@[i]).id < (#[trigger] self@[j]).id by {
                        assert(self@[i].id == old(self)@[i].id);
                        assert(self@[j].id == old(self)@[j].id);
                    }
                }
                1
            },
            None => 0,
        }
    }

    /// The conditional delete behind completion: remove the row where the id
    /// matches and `started_at` is not null, and report how many rows that
    /// touched. It succeeds exactly when a claimed row carries `id`.
    pub fn delete_started(&mut self, id: u64) -> (n: usize)
        requires
            old(self).inv(),
        ensures
            final(self).inv(),
            final(self).spec_next_id() == old(self).spec_next_id(),
            n <= 1,
            (n == 1) == finishable(old(self)@, id),
            n == 0 ==> final(self)@ == old(self)@,
            n == 1 ==> exists|k: int|
                0 <= k < old(self)@.len() && (#[trigger] old(self)@[k]).id == id && is_started(
                    old(self)@[k],
                ) && final(self)@ == old(self)@.remove(k),
    {
        match self.find_finishable(id) {
            Some(k) => {
                self.rows.remove(k);
                proof {
                    assert(self@ =~= old(self)@.remove(k as int));
                    assert forall|i: int, j: int| 0 <= i < j < self@.len() implies (
                    #[trigger] self@[i]).id < (#[trigger] self@[j]).id by {
                        let oi = if i < k as int {
                            i
                        } else {
                            i + 1
                        };
                        let oj = if j < k as int {
                            j
                        } else {
                            j + 1
                        };
                        assert(self@[i] == old(self)@[oi]);
                        assert(self@[j] == old(self)@[oj]);
                    }
                    assert forall|i: int| 0 <= i < self@.len() implies (#[trigger] self@[i]).id
                        < self.spec_next_id() by {
                        let oi = if i < k as int {
                            i
                        } else {
                            i + 1
                        };
                        assert(self@[i] == old(self)@[oi]);
                    }
                }
                1
            },
            None => 0,
        }
    }

    /// Count the claimed rows, capped at `max` for cost control.
    pub fn count_started(&self, max: usize) -> (n: usize)
        ensures
            n == if started_count(self@) <= max {
                started_count(self@)
            } else {
                max as nat
            },
    {
        let len = self.rows.len();
        let mut cnt: usize = 0;
        let mut i: usize = 0;
        while i < len
            invariant
                len == self@.len(),
                i <= len,
                cnt <= i,
                cnt == started_count(self@.take(i as int)),
            decreases len - i,
        {
            proof {
                let post = self@.take(i + 1 as int);
                assert(post.drop_last() =~= self@.take(i as int));
                assert(post.last() == self@[i as int]);
            }
            if self.rows[i].started_at.is_some() {
                cnt = cnt + 1;
            }
            i = i + 1;
        }
        proof {
            assert(self@.take(len as int) =~= self@);
        }
        if cnt <= max {
            cnt
        } else {
            max
        }
    }
}

} // verus!
