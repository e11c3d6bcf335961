//! The queue service: enqueue, claim ("fetch and start"), complete
//! ("finish") and an approximate pending-count probe over the shared job
//! table. The claiming protocol is optimistic: select the top pending row,
//! then attempt the atomic conditional update, and retry from the selection
//! if another worker claimed the row in between. Correctness rests entirely
//! on that single-row conditional update; the service takes no lock.

use vstd::prelude::*;

use crate::command::{spec_decode, spec_kind, spec_payload, DecodeError, JobCommand};
use crate::table::{
    claimable, finishable, has_pending, is_pending, is_top_pending, lemma_ids_unique, started,
    started_count, JobTable, RowModel,
};

verus! {

/// A reference to a job row: a unique identifier that increases with
/// insertion order, so ordering by id is ordering by creation time.
pub type JobRef = u64;

/// The priority a job is enqueued with when the producer names none.
pub const DEFAULT_PRIORITY: u16 = 100;

/// A fetched snapshot of one claimed job, handed to the worker that won the
/// claim.
#[derive(Debug, Clone, Copy, PartialEq, Eq, Structural)]
pub struct Job {
    pub id: JobRef,
    pub command: JobCommand,
}

/// The queue's own error.
#[derive(Debug, Clone, Copy, PartialEq, Eq, Structural)]
pub enum JobQueueError {
    /// Completion found no claimed row under the id: the job was already
    /// finished by another caller, or was never claimed. Recoverable; the
    /// caller treats it as nothing to do.
    JobAborted(JobRef),
}

/// Relies on `time::OffsetDateTime::now_utc` for the wall clock, read as
/// seconds since the Unix epoch through `unix_timestamp`. Nothing is promised
/// of the value: it depends on the clock alone.
#[verifier::external_body]
fn now_unix_seconds() -> i64 {
    time::OffsetDateTime::now_utc().unix_timestamp()
}

/// The queue service over the shared job table.
pub struct JobQueue {
    db: JobTable,
}

impl View for JobQueue {
    type V = Seq<RowModel>;

    closed spec fn view(&self) -> Seq<RowModel> {
        self.db@
    }
}

impl JobQueue {
    /// The id the next enqueued job will be given.
    pub closed spec fn spec_next_id(&self) -> u64 {
        self.db.spec_next_id()
    }

    /// Well-formedness of the underlying table.
    pub closed spec fn inv(&self) -> bool {
        self.db.inv()
    }

    /// A queue over the given table.
    pub fn new(db: JobTable) -> (q: JobQueue)
        requires
            db.inv(),
        ensures
            q@ == db@,
            q.spec_next_id() == db.spec_next_id(),
            q.inv(),
    {
        JobQueue { db }
    }

    /// Enqueue a command at the default priority.
    pub fn enqueue(&mut self, job: JobCommand)
        requires
            old(self).inv(),
            old(self).spec_next_id() < u64::MAX,
        ensures
            final(self).inv(),
            final(self).spec_next_id() == old(self).spec_next_id() + 1,
            final(self)@ == old(self)@.push(
                (RowModel {
                    id: old(self).spec_next_id(),
                    kind: spec_kind(job),
                    data: spec_payload(job),
                    priority: DEFAULT_PRIORITY,
                    started_at: None,
                }),
            ),
    {
        self.enqueue_with_priority(job, DEFAULT_PRIORITY)
    }

    /// Enqueue a command: serialize it and insert one pending row under a
    /// fresh id. Higher priority is served sooner.
    pub fn enqueue_with_priority(&mut self, job: JobCommand, priority: u16)
        requires
            old(self).inv(),
            old(self).spec_next_id() < u64::MAX,
        ensures
            final(self).inv(),
            final(self).spec_next_id() == old(self).spec_next_id() + 1,
            final(self)@ == old(self)@.push(
                (RowModel {
                    id: old(self).spec_next_id(),
                    kind: spec_kind(job),
                    data: spec_payload(job),
                    priority,
                    started_at: None,
                }),
            ),
    {
        let (kind, data) = job.serialize();
        let _id = self.db.insert(kind, data, priority);
    }

    /// Claim one job: select the pending row that priority descending, id
    /// ascending puts first, mark it started through the atomic conditional
    /// update, decode its command and hand it out. `Ok(None)` when no row is
    /// pending; a `DecodeError` when the claimed row's payload does not
    /// decode under its kind (the row stays claimed, as the update came
    /// first). A worker that loses the conditional update to a rival restarts
    /// from the selection.
    pub fn fetch_and_start(&mut self) -> (r: Result<Option<Job>, DecodeError>)
        requires
            old(self).inv(),
        ensures
            final(self).inv(),
            final(self).spec_next_id() == old(self).spec_next_id(),
            !has_pending(old(self)@) ==> r == Ok::<Option<Job>, DecodeError>(None)
                && final(self)@ == old(self)@,
            has_pending(old(self)@) ==> exists|i: int|
                {
                    &&& #[trigger] is_top_pending(old(self)@, i)
                    &&& exists|t: i64|
                        final(self)@ == old(self)@.update(i, started(old(self)@[i], t))
                    &&& match spec_decode(old(self)@[i].kind, old(self)@[i].data) {
                        Ok(c) => r == Ok::<Option<Job>, DecodeError>(
                            Some((Job { id: old(self)@[i].id, command: c })),
                        ),
                        Err(e) => r == Err::<Option<Job>, DecodeError>(e),
                    }
                },
    {
        let ghost s0: Seq<RowModel> = self@;
        let now = now_unix_seconds();
        loop
            invariant
                self.inv(),
                s0 == old(self)@,
                self@ == s0,
                self.spec_next_id() == old(self).spec_next_id(),
            decreases 0nat,
        {
            // select the pending row served first
            let found = self.db.find_top_pending();
            match found {
                None => {
                    return Ok(None);
                },
                Some(i) => {
                    let id = self.db.row(i).id;
                    // the compare-and-swap: succeeds only if no rival claimed
                    // the row between the select and this update
                    let cols = self.db.start(id, now);
                    if cols == 0 {
                        // a rival won the race; discard and restart
                        proof {
                            assert(s0[i as int].id == id && is_pending(s0[i as int]));
                            assert(claimable(s0, id));
                            assert(false);
                        }
                        continue;
                    }
                    proof {
                        assert forall|j: int| 0 <= j < s0.len() && j != i as int implies self@[j]
                            == s0[j] by {
                            lemma_ids_unique(s0, j, i as int);
                        }
                        assert(self@ =~= s0.update(i as int, started(s0[i as int], now)));
                    }
                    let row = self.db.row(i);
                    let cmd = JobCommand::deserialize(row.kind.as_str(), &row.data);
                    match cmd {
                        Ok(c) => {
                            return Ok(Some(Job { id, command: c }));
                        },
                        Err(e) => {
                            return Err(e);
                        },
                    }
                },
            }
        }
    }

    /// Complete a claimed job: delete the row where the id matches and
    /// `started_at` is not null. Fails with `JobAborted` exactly when no such
    /// row exists — the job was already finished by another caller, or was
    /// never claimed.
    pub fn finish_job(&mut self, id: JobRef) -> (r: Result<(), JobQueueError>)
        requires
            old(self).inv(),
        ensures
            final(self).inv(),
            final(self).spec_next_id() == old(self).spec_next_id(),
            finishable(old(self)@, id) ==> r == Ok::<(), JobQueueError>(()) && exists|k: int|
                0 <= k < old(self)@.len() && (#[trigger] old(self)@[k]).id == id && crate::table::is_started(
                    old(self)@[k],
                ) && final(self)@ == old(self)@.remove(k),
            !finishable(old(self)@, id) ==> r == Err::<(), JobQueueError>(
                JobQueueError::JobAborted(id),
            ) && final(self)@ == old(self)@,
    {
        let cols = self.db.delete_started(id);
        if cols == 0 {
            // already finished by another worker, or never claimed
            Err(JobQueueError::JobAborted(id))
        } else {
            Ok(())
        }
    }

    /// The approximate number of currently claimed rows, capped at `max` for
    /// cost control. A monitoring probe only: it is stale the instant it is
    /// read.
    pub fn count_pending(&self, max: usize) -> (n: usize)
        ensures
            n == if started_count(self@) <= max {
                started_count(self@)
            } else {
                max as nat
            },
    {
        self.db.count_started(max)
    }

    /// The id the next enqueued job will be given. Ids never repeat, so this
    /// also bounds every id the queue has handed out.
    pub fn next_id(&self) -> (n: u64)
        ensures
            n == self.spec_next_id(),
    {
        self.db.next_id()
    }

    /// How many rows the table holds, pending and claimed together.
    pub fn len(&self) -> (n: usize)
        ensures
            n == self@.len(),
    {
        self.db.len()
    }
}

} // verus!
