//! The queue as a mathematical object: a sequence of job records in claiming
//! order, the next identifier to hand out, and a capacity. Every operation of
//! the store is defined here as a function on that object.

use crate::models::{CreateJobView, JobStatus, JobView};
use crate::scan::{first_index, lemma_filter_origin, lemma_first_index};
use crate::time::Timestamp;
use vstd::prelude::*;

verus! {

/// `a` is claimed before `b`: it weighs more, or as much and was submitted
/// earlier.
pub open spec fn precedes(a: JobView, b: JobView) -> bool {
    a.rank() > b.rank() || (a.rank() == b.rank() && a.job_id < b.job_id)
}

/// Every record of `jobs` is claimed before each one behind it.
pub open spec fn in_claim_order(jobs: Seq<JobView>) -> bool {
    forall|i: int, j: int| 0 <= i < j < jobs.len() ==> precedes(#[trigger] jobs[i], #[trigger] jobs[j])
}

/// No two records of `jobs` have the same identifier.
pub open spec fn distinct_ids(jobs: Seq<JobView>) -> bool {
    forall|i: int, j: int|
        0 <= i < j < jobs.len() ==> (#[trigger] jobs[i]).job_id != (#[trigger] jobs[j]).job_id
}

/// The state of a queue.
#[verifier::ext_equal]
pub struct QueueView {
    /// The tracked jobs, whatever their status, in claiming order.
    pub jobs: Seq<JobView>,
    /// The identifier that the next accepted submission receives.
    pub next_id: u64,
    /// The number of jobs that the queue tracks at most.
    pub capacity: usize,
}

impl QueueView {
    /// The queue with room for `capacity` jobs that has seen no submission.
    pub open spec fn empty(capacity: usize) -> QueueView {
        QueueView { jobs: Seq::empty(), next_id: 1, capacity }
    }

    /// What holds of every queue: it stays within its capacity; the
    /// identifiers handed out start at 1 and lie below the next one; no
    /// identifier occurs twice; no job has used more retries than it was
    /// given; and the jobs stand in claiming order.
    pub open spec fn wf(self) -> bool {
        &&& self.next_id >= 1
        &&& self.jobs.len() <= self.capacity
        &&& forall|i: int|
            0 <= i < self.jobs.len() ==> 1 <= (#[trigger] self.jobs[i]).job_id < self.next_id
        &&& forall|i: int|
            0 <= i < self.jobs.len() ==> (#[trigger] self.jobs[i]).retries <= self.jobs[i].max_retries
        &&& distinct_ids(self.jobs)
        &&& in_claim_order(self.jobs)
    }

    /// No further job can be accepted.
    pub open spec fn is_full(self) -> bool {
        self.jobs.len() >= self.capacity
    }

    /// The place of the job `job_id` in the queue; the number of jobs where
    /// the queue does not track it.
    pub open spec fn position(self, job_id: u64) -> int {
        first_index(self.jobs, |j: JobView| j.job_id == job_id)
    }

    /// The queue tracks a job `job_id`.
    pub open spec fn has(self, job_id: u64) -> bool {
        self.position(job_id) < self.jobs.len()
    }

    /// The record of the job `job_id`, if the queue tracks it.
    pub open spec fn find(self, job_id: u64) -> Option<JobView> {
        if self.has(job_id) {
            Some(self.jobs[self.position(job_id)])
        } else {
            None
        }
    }

    /// Where a new job of weight `rank` goes: behind every job that weighs
    /// at least as much, in front of the first that weighs less.
    pub open spec fn slot(self, rank: int) -> int {
        first_index(self.jobs, |j: JobView| j.rank() < rank)
    }

    /// The queue after it has accepted `request` at `now`.
    pub open spec fn submit(self, request: CreateJobView, now: Timestamp) -> QueueView {
        let job = request.fresh_job(self.next_id, now);
        QueueView {
            jobs: self.jobs.insert(self.slot(job.rank()), job),
            next_id: (self.next_id + 1) as u64,
            capacity: self.capacity,
        }
    }

    /// The queue without the jobs whose time to live has run out at `now`.
    pub open spec fn purge(self, now: Timestamp) -> QueueView {
        QueueView { jobs: self.jobs.filter(|j: JobView| !j.expired_at(now)), ..self }
    }

    /// The place of the first pending job; the number of jobs where none is
    /// pending.
    pub open spec fn next_pending(self) -> int {
        first_index(self.jobs, |j: JobView| j.status == JobStatus::Pending)
    }

    /// The queue after its first pending job, if any, was handed to a worker
    /// at `now`.
    pub open spec fn hand_out(self, now: Timestamp) -> QueueView {
        let k = self.next_pending();
        if k < self.jobs.len() {
            QueueView { jobs: self.jobs.update(k, self.jobs[k].claimed(now)), ..self }
        } else {
            self
        }
    }

    /// The job that `hand_out` hands to the worker, if any.
    pub open spec fn handed_out(self, now: Timestamp) -> Option<JobView> {
        let k = self.next_pending();
        if k < self.jobs.len() {
            Some(self.jobs[k].claimed(now))
        } else {
            None
        }
    }

    /// The queue after a claim at `now`: expired jobs are dropped, then the
    /// first pending job among the rest starts running.
    pub open spec fn claim(self, now: Timestamp) -> QueueView {
        self.purge(now).hand_out(now)
    }

    /// The job that a claim at `now` returns, if any.
    pub open spec fn claimed(self, now: Timestamp) -> Option<JobView> {
        self.purge(now).handed_out(now)
    }

    /// The queue after the outcome of job `job_id` was put on record at
    /// `now`; the same queue where it does not track that job.
    pub open spec fn report(
        self,
        job_id: u64,
        status: JobStatus,
        result: Option<Seq<char>>,
        now: Timestamp,
    ) -> QueueView {
        let k = self.position(job_id);
        if k < self.jobs.len() {
            QueueView { jobs: self.jobs.update(k, self.jobs[k].reported(status, result, now)), ..self }
        } else {
            self
        }
    }

    /// The queue tracks job `job_id`, and the job has retries left.
    pub open spec fn can_retry(self, job_id: u64) -> bool {
        let k = self.position(job_id);
        k < self.jobs.len() && self.jobs[k].retries < self.jobs[k].max_retries
    }

    /// The queue after job `job_id` was sent back for another attempt at
    /// `now`; the same queue where the job is unknown or has no retry left.
    pub open spec fn retry(self, job_id: u64, now: Timestamp) -> QueueView {
        let k = self.position(job_id);
        if self.can_retry(job_id) {
            QueueView { jobs: self.jobs.update(k, self.jobs[k].retried(now)), ..self }
        } else {
            self
        }
    }
}

/// One call of an operation that changes the queue, with its arguments and
/// the time at which it is made.
pub enum QueueOp {
    Submit { request: CreateJobView, now: Timestamp },
    Claim { now: Timestamp },
    Report { job_id: u64, status: JobStatus, result: Option<Seq<char>>, now: Timestamp },
    Retry { job_id: u64, now: Timestamp },
}

impl QueueView {
    /// The queue after `op`. A submission that meets a full queue leaves it
    /// as it is.
    pub open spec fn apply(self, op: QueueOp) -> QueueView {
        match op {
            QueueOp::Submit { request, now } => if self.is_full() {
                self
            } else {
                self.submit(request, now)
            },
            QueueOp::Claim { now } => self.claim(now),
            QueueOp::Report { job_id, status, result, now } => self.report(
                job_id,
                status,
                result,
                now,
            ),
            QueueOp::Retry { job_id, now } => self.retry(job_id, now),
        }
    }

    /// The queue takes the call `op`: it is no submission, or the queue is
    /// full and turns it down, or an identifier is left for the new job.
    pub open spec fn admits(self, op: QueueOp) -> bool {
        op is Submit ==> self.is_full() || self.next_id < u64::MAX
    }

    /// The queue takes the calls of `ops`, one after the other.
    pub open spec fn admits_all(self, ops: Seq<QueueOp>) -> bool
        decreases ops.len(),
    {
        ops.len() == 0 || (self.admits_all(ops.drop_last()) && self.run(ops.drop_last()).admits(
            ops.last(),
        ))
    }

    /// The queue after the calls of `ops`, one after the other.
    pub open spec fn run(self, ops: Seq<QueueOp>) -> QueueView
        decreases ops.len(),
    {
        if ops.len() == 0 {
            self
        } else {
            self.run(ops.drop_last()).apply(ops.last())
        }
    }

    /// The identifier that `op` hands to its caller: that of the new job,
    /// where `op` is a submission and the queue has room.
    pub open spec fn issued(self, op: QueueOp) -> Option<u64> {
        match op {
            QueueOp::Submit { .. } => if self.is_full() {
                None
            } else {
                Some(self.next_id)
            },
            _ => None,
        }
    }

    /// The job that `op` hands to its caller: the claimed one, where `op` is
    /// a claim and finds a job.
    pub open spec fn handed(self, op: QueueOp) -> Option<JobView> {
        match op {
            QueueOp::Claim { now } => self.claimed(now),
            _ => None,
        }
    }
}

/// Accepting a submission keeps a queue well formed, as long as it has room
/// and identifiers are left.
pub proof fn lemma_submit_keeps_wf(q: QueueView, request: CreateJobView, now: Timestamp)
    requires
        q.wf(),
        !q.is_full(),
        q.next_id < u64::MAX,
    ensures
        q.submit(request, now).wf(),
        0 <= q.slot(request.fresh_job(q.next_id, now).rank()) <= q.jobs.len(),
{
    let job = request.fresh_job(q.next_id, now);
    let below = |j: JobView| j.rank() < job.rank();
    let k = q.slot(job.rank());
    lemma_first_index(q.jobs, below);
    let after = q.submit(request, now);
    assert forall|i: int, j: int| 0 <= i < j < after.jobs.len() implies precedes(
        #[trigger] after.jobs[i],
        #[trigger] after.jobs[j],
    ) by {
        if j < k {
            assert(precedes(q.jobs[i], q.jobs[j]));
        } else if j == k {
            assert(!below(q.jobs[i]));
        } else if i < k {
            assert(precedes(q.jobs[i], q.jobs[j - 1]));
        } else if i == k {
            assert(below(q.jobs[k]));
            if j - 1 > k {
                assert(precedes(q.jobs[k], q.jobs[j - 1]));
            }
        } else {
            assert(precedes(q.jobs[i - 1], q.jobs[j - 1]));
        }
    }
    assert forall|i: int| 0 <= i < after.jobs.len() implies 1 <= (#[trigger] after.jobs[i]).job_id
        < after.next_id && after.jobs[i].retries <= after.jobs[i].max_retries by {
        if i < k {
            assert(after.jobs[i] == q.jobs[i]);
        } else if i > k {
            assert(after.jobs[i] == q.jobs[i - 1]);
        }
    }
    assert forall|i: int, j: int| 0 <= i < j < after.jobs.len() implies (#[trigger] after.jobs[i]).job_id
        != (#[trigger] after.jobs[j]).job_id by {
        let a = if i < k { i } else { i - 1 };
        let b = if j < k { j } else { j - 1 };
        if i != k && j != k {
            assert(q.jobs[a].job_id != q.jobs[b].job_id);
        } else if i == k {
            assert(q.jobs[b].job_id < q.next_id);
        } else {
            assert(q.jobs[a].job_id < q.next_id);
        }
    }
}

/// Dropping the expired jobs keeps a queue well formed; what is left has not
/// expired, and every job that has not expired is left.
pub proof fn lemma_purge_keeps_wf(q: QueueView, now: Timestamp)
    requires
        q.wf(),
    ensures
        q.purge(now).wf(),
        forall|i: int|
            0 <= i < q.purge(now).jobs.len() ==> !(#[trigger] q.purge(now).jobs[i]).expired_at(now)
                && q.jobs.contains(q.purge(now).jobs[i]),
        forall|i: int|
            0 <= i < q.jobs.len() && !q.jobs[i].expired_at(now) ==> q.purge(now).jobs.contains(
                #[trigger] q.jobs[i],
            ),
{
    let live = |j: JobView| !j.expired_at(now);
    let after = q.purge(now);
    lemma_filter_origin(q.jobs, live);
    q.jobs.lemma_filter_len(live);
    assert forall|i: int, j: int| 0 <= i < j < after.jobs.len() implies precedes(
        #[trigger] after.jobs[i],
        #[trigger] after.jobs[j],
    ) by {
        let (a, b) = choose|a: int, b: int|
            0 <= a < b < q.jobs.len() && q.jobs[a] == after.jobs[i] && q.jobs[b] == after.jobs[j];
        assert(precedes(q.jobs[a], q.jobs[b]));
    }
    assert forall|i: int, j: int| 0 <= i < j < after.jobs.len() implies (#[trigger] after.jobs[i]).job_id
        != (#[trigger] after.jobs[j]).job_id by {
        let (a, b) = choose|a: int, b: int|
            0 <= a < b < q.jobs.len() && q.jobs[a] == after.jobs[i] && q.jobs[b] == after.jobs[j];
        assert(q.jobs[a].job_id != q.jobs[b].job_id);
    }
    assert forall|i: int| 0 <= i < after.jobs.len() implies 1 <= (#[trigger] after.jobs[i]).job_id
        < after.next_id && after.jobs[i].retries <= after.jobs[i].max_retries by {
        assert(q.jobs.contains(after.jobs[i]));
        let a = choose|a: int| 0 <= a < q.jobs.len() && q.jobs[a] == after.jobs[i];
        assert(q.jobs[a].job_id < q.next_id);
    }
}

/// Changing the record at one place keeps a queue well formed, as long as
/// the new record has the identifier and the weight of the old one and has
/// not used more retries than it was given.
pub proof fn lemma_update_keeps_wf(q: QueueView, k: int, job: JobView)
    requires
        q.wf(),
        0 <= k < q.jobs.len(),
        job.job_id == q.jobs[k].job_id,
        job.rank() == q.jobs[k].rank(),
        job.retries <= job.max_retries,
    ensures
        (QueueView { jobs: q.jobs.update(k, job), ..q }).wf(),
{
    let after = QueueView { jobs: q.jobs.update(k, job), ..q };
    assert forall|i: int, j: int| 0 <= i < j < after.jobs.len() implies precedes(
        #[trigger] after.jobs[i],
        #[trigger] after.jobs[j],
    ) by {
        assert(precedes(q.jobs[i], q.jobs[j]));
    }
    assert forall|i: int, j: int| 0 <= i < j < after.jobs.len() implies (#[trigger] after.jobs[i]).job_id
        != (#[trigger] after.jobs[j]).job_id by {
        assert(q.jobs[i].job_id != q.jobs[j].job_id);
    }
    assert forall|i: int| 0 <= i < after.jobs.len() implies 1 <= (#[trigger] after.jobs[i]).job_id
        < after.next_id && after.jobs[i].retries <= after.jobs[i].max_retries by {
        assert(q.jobs[i].job_id < q.next_id);
    }
}

/// Handing out the first pending job keeps a queue well formed.
pub proof fn lemma_hand_out_keeps_wf(q: QueueView, now: Timestamp)
    requires
        q.wf(),
    ensures
        q.hand_out(now).wf(),
{
    let k = q.next_pending();
    lemma_first_index(q.jobs, |j: JobView| j.status == JobStatus::Pending);
    if k < q.jobs.len() {
        lemma_update_keeps_wf(q, k, q.jobs[k].claimed(now));
    }
}

/// A claim keeps a queue well formed.
pub proof fn lemma_claim_keeps_wf(q: QueueView, now: Timestamp)
    requires
        q.wf(),
    ensures
        q.claim(now).wf(),
{
    lemma_purge_keeps_wf(q, now);
    lemma_hand_out_keeps_wf(q.purge(now), now);
}

/// Putting an outcome on record keeps a queue well formed.
pub proof fn lemma_report_keeps_wf(
    q: QueueView,
    job_id: u64,
    status: JobStatus,
    result: Option<Seq<char>>,
    now: Timestamp,
)
    requires
        q.wf(),
    ensures
        q.report(job_id, status, result, now).wf(),
{
    let k = q.position(job_id);
    lemma_first_index(q.jobs, |j: JobView| j.job_id == job_id);
    if k < q.jobs.len() {
        lemma_update_keeps_wf(q, k, q.jobs[k].reported(status, result, now));
    }
}

/// Sending a job back for another attempt keeps a queue well formed.
pub proof fn lemma_retry_keeps_wf(q: QueueView, job_id: u64, now: Timestamp)
    requires
        q.wf(),
    ensures
        q.retry(job_id, now).wf(),
{
    let k = q.position(job_id);
    lemma_first_index(q.jobs, |j: JobView| j.job_id == job_id);
    if q.can_retry(job_id) {
        lemma_update_keeps_wf(q, k, q.jobs[k].retried(now));
    }
}

} // verus!
