//! The store: the one owner of the job records. Every change to a record
//! goes through one of its operations.
//!
//! Expired jobs are dropped by the next claim, whatever their status. A job
//! that is running when its time runs out is not stopped: its record goes,
//! and what its worker reports later is passed over.

use crate::jobs::model::{
    lemma_claim_keeps_wf, lemma_report_keeps_wf, lemma_retry_keeps_wf, lemma_submit_keeps_wf,
    QueueView,
};
use crate::models::{
    priority_weight, text_of, CreateJob, Job, JobStatus, JobView, DEFAULT_MAX_RETRIES,
};
use crate::scan::{first_from, first_index};
use crate::time::Timestamp;
use vstd::prelude::*;
use vstd::string::StringExecFns;

verus! {

/// Why the queue turned a submission down.
#[derive(Clone, Copy, Debug, PartialEq, Eq, Structural)]
pub enum QueueError {
    /// The queue tracks as many jobs as it has room for.
    QueueFull,
}

impl QueueError {
    /// The error in words.
    pub open spec fn text(self) -> Seq<char> {
        match self {
            QueueError::QueueFull => "Queue is full"@,
        }
    }

    /// Computes `text`.
    pub fn message(&self) -> (message: String)
        ensures
            message@ == self.text(),
    {
        match self {
            QueueError::QueueFull => String::from_str("Queue is full"),
        }
    }
}

/// The records of `jobs`, each by its view.
pub open spec fn views(jobs: Seq<Job>) -> Seq<JobView> {
    jobs.map_values(|j: Job| j@)
}

/// A bounded queue of jobs, ordered by priority and, within a priority, by
/// submission.
#[derive(Debug)]
pub struct JobQueue {
    jobs: Vec<Job>,
    next_id: u64,
    max_queue_size: usize,
}

impl View for JobQueue {
    type V = QueueView;

    closed spec fn view(&self) -> QueueView {
        QueueView {
            jobs: views(self.jobs@),
            next_id: self.next_id,
            capacity: self.max_queue_size,
        }
    }
}

impl JobQueue {
    #[verifier::type_invariant]
    spec fn valid(self) -> bool {
        self@.wf()
    }

    /// An empty queue with room for `max_queue_size` jobs. The first job
    /// that it accepts gets the identifier 1.
    pub fn new(max_queue_size: usize) -> (queue: JobQueue)
        ensures
            queue@ == QueueView::empty(max_queue_size),
            queue@.wf(),
    {
        let queue = JobQueue { jobs: Vec::new(), next_id: 1, max_queue_size };
        assert(queue@.jobs =~= Seq::empty());
        queue
    }

    /// The number of jobs that the queue tracks.
    pub fn len(&self) -> (n: usize)
        ensures
            n == self@.jobs.len(),
    {
        self.jobs.len()
    }

    /// The number of jobs that the queue tracks at most.
    pub fn max_queue_size(&self) -> (n: usize)
        ensures
            n == self@.capacity,
    {
        self.max_queue_size
    }

    /// The identifier that the next accepted submission receives.
    pub fn next_id(&self) -> (id: u64)
        ensures
            id == self@.next_id,
    {
        self.next_id
    }

    /// Submits a job at `now`. A full queue turns it down and stays as it
    /// is. Otherwise the job gets the next identifier, starts out pending,
    /// and takes its place behind the jobs of at least its priority; a copy
    /// of its record is returned.
    pub fn add_job_at(&mut self, create_job: CreateJob, now: Timestamp) -> (res: Result<
        Job,
        QueueError,
    >)
        requires
            old(self)@.is_full() || old(self)@.next_id < u64::MAX,
        ensures
            final(self)@.wf(),
            match res {
                Ok(job) => {
                    &&& !old(self)@.is_full()
                    &&& job@ == create_job@.fresh_job(old(self)@.next_id, now)
                    &&& final(self)@ == old(self)@.submit(create_job@, now)
                },
                Err(e) => {
                    &&& old(self)@.is_full()
                    &&& e == QueueError::QueueFull
                    &&& final(self)@ == old(self)@
                },
            },
    {
        proof {
            use_type_invariant(&*self);
        }
        if self.jobs.len() >= self.max_queue_size {
            return Err(QueueError::QueueFull);
        }
        proof {
            lemma_submit_keeps_wf(self@, create_job@, now);
        }
        let job_id = self.next_id;
        let job = Job {
            job_id,
            status: JobStatus::Pending,
            payload: create_job.payload,
            result: None,
            priority: create_job.priority,
            retries: 0,
            max_retries: match create_job.max_retries {
                Some(n) => n,
                None => DEFAULT_MAX_RETRIES,
            },
            created_at: now,
            updated_at: now,
            expires_at: match create_job.ttl_seconds {
                Some(ttl) => Some(now.add_seconds(ttl)),
                None => None,
            },
        };
        let copy = job.clone();
        let mut jobs: Vec<Job> = Vec::new();
        core::mem::swap(&mut self.jobs, &mut jobs);
        let slot = find_slot(&jobs, priority_weight(&job.priority));
        jobs.insert(slot, job);
        assert(views(jobs@) =~= old(self)@.submit(create_job@, now).jobs);
        self.next_id = job_id + 1;
        self.jobs = jobs;
        Ok(copy)
    }

    /// Submits a job at the time that the system clock shows. See
    /// `add_job_at`.
    pub fn add_job(&mut self, create_job: CreateJob) -> (res: Result<Job, QueueError>)
        requires
            old(self)@.is_full() || old(self)@.next_id < u64::MAX,
        ensures
            final(self)@.wf(),
            match res {
                Ok(job) => {
                    &&& !old(self)@.is_full()
                    &&& exists|now: Timestamp|
                        job@ == create_job@.fresh_job(old(self)@.next_id, now) && final(self)@
                            == #[trigger] old(self)@.submit(create_job@, now)
                },
                Err(e) => {
                    &&& old(self)@.is_full()
                    &&& e == QueueError::QueueFull
                    &&& final(self)@ == old(self)@
                },
            },
    {
        let now = Timestamp::now();
        self.add_job_at(create_job, now)
    }

    /// A copy of the record of job `job_id`, whatever its status, if the
    /// queue tracks it.
    pub fn get_job(&self, job_id: u64) -> (res: Option<Job>)
        ensures
            match res {
                Some(job) => self@.find(job_id) == Some(job@),
                None => self@.find(job_id) is None,
            },
    {
        let k = find_job(&self.jobs, job_id);
        if k < self.jobs.len() {
            Some(self.jobs[k].clone())
        } else {
            None
        }
    }

    /// Copies of all records, whatever their status, in the order of the
    /// queue.
    pub fn get_all_jobs(&self) -> (all: Vec<Job>)
        ensures
            views(all@) == self@.jobs,
    {
        let mut all: Vec<Job> = Vec::new();
        let mut i: usize = 0;
        while i < self.jobs.len()
            invariant
                i <= self.jobs.len(),
                all.len() == i,
                forall|k: int| 0 <= k < i ==> all[k] == self.jobs[k],
            decreases self.jobs.len() - i,
        {
            all.push(self.jobs[i].clone());
            i += 1;
        }
        assert(views(all@) =~= self@.jobs);
        all
    }

    /// Claims the next job at `now`. First every job whose time to live has
    /// run out is dropped, whatever its status. Then the first pending job
    /// among the rest starts running, and a copy of its record is returned;
    /// where none is pending, nothing else changes.
    pub fn get_next_pending_job_at(&mut self, now: Timestamp) -> (res: Option<Job>)
        ensures
            final(self)@ == old(self)@.claim(now),
            final(self)@.wf(),
            match res {
                Some(job) => old(self)@.claimed(now) == Some(job@),
                None => old(self)@.claimed(now) is None,
            },
    {
        proof {
            use_type_invariant(&*self);
            lemma_claim_keeps_wf(self@, now);
        }
        let mut jobs: Vec<Job> = Vec::new();
        core::mem::swap(&mut self.jobs, &mut jobs);
        let mut live = drop_expired(jobs, now);
        let k = find_pending(&live);
        let res = if k < live.len() {
            live[k].status = JobStatus::Running;
            live[k].updated_at = now;
            Some(live[k].clone())
        } else {
            None
        };
        assert(views(live@) =~= old(self)@.claim(now).jobs);
        self.jobs = live;
        res
    }

    /// Claims the next job at the time that the system clock shows. See
    /// `get_next_pending_job_at`.
    pub fn get_next_pending_job(&mut self) -> (res: Option<Job>)
        ensures
            final(self)@.wf(),
            exists|now: Timestamp|
                final(self)@ == #[trigger] old(self)@.claim(now) && match res {
                    Some(job) => old(self)@.claimed(now) == Some(job@),
                    None => old(self)@.claimed(now) is None,
                },
    {
        let now = Timestamp::now();
        self.get_next_pending_job_at(now)
    }

    /// Sets status and result of job `job_id` at `now`. A job that the queue
    /// does not track (any more) is passed over: the queue stays as it is.
    pub fn update_job_status_at(
        &mut self,
        job_id: u64,
        status: JobStatus,
        result: Option<String>,
        now: Timestamp,
    )
        ensures
            final(self)@ == old(self)@.report(job_id, status, text_of(result), now),
            final(self)@.wf(),
    {
        proof {
            use_type_invariant(&*self);
            lemma_report_keeps_wf(self@, job_id, status, text_of(result), now);
        }
        let mut jobs: Vec<Job> = Vec::new();
        core::mem::swap(&mut self.jobs, &mut jobs);
        let k = find_job(&jobs, job_id);
        if k < jobs.len() {
            jobs[k].status = status;
            jobs[k].result = result;
            jobs[k].updated_at = now;
        }
        assert(views(jobs@) =~= old(self)@.report(job_id, status, text_of(result), now).jobs);
        self.jobs = jobs;
    }

    /// Sets status and result of job `job_id` at the time that the system
    /// clock shows. See `update_job_status_at`.
    pub fn update_job_status(&mut self, job_id: u64, status: JobStatus, result: Option<String>)
        ensures
            final(self)@.wf(),
            exists|now: Timestamp|
                final(self)@ == #[trigger] old(self)@.report(job_id, status, text_of(result), now),
    {
        let now = Timestamp::now();
        self.update_job_status_at(job_id, status, result, now)
    }

    /// Sends job `job_id` back for another attempt at `now`, if the queue
    /// tracks it and it has retries left: one more retry counts as used and
    /// the job is pending again. Says whether it did so; where it did not,
    /// the queue stays as it is.
    pub fn retry_job_at(&mut self, job_id: u64, now: Timestamp) -> (retried: bool)
        ensures
            retried == old(self)@.can_retry(job_id),
            final(self)@ == old(self)@.retry(job_id, now),
            final(self)@.wf(),
    {
        proof {
            use_type_invariant(&*self);
            lemma_retry_keeps_wf(self@, job_id, now);
        }
        let mut jobs: Vec<Job> = Vec::new();
        core::mem::swap(&mut self.jobs, &mut jobs);
        let k = find_job(&jobs, job_id);
        let retried = k < jobs.len() && jobs[k].retries < jobs[k].max_retries;
        if retried {
            jobs[k].retries = jobs[k].retries + 1;
            jobs[k].status = JobStatus::Pending;
            jobs[k].updated_at = now;
        }
        assert(views(jobs@) =~= old(self)@.retry(job_id, now).jobs);
        self.jobs = jobs;
        retried
    }

    /// Sends job `job_id` back for another attempt at the time that the
    /// system clock shows. See `retry_job_at`.
    pub fn retry_job(&mut self, job_id: u64) -> (retried: bool)
        ensures
            retried == old(self)@.can_retry(job_id),
            final(self)@.wf(),
            exists|now: Timestamp| final(self)@ == #[trigger] old(self)@.retry(job_id, now),
    {
        let now = Timestamp::now();
        self.retry_job_at(job_id, now)
    }
}

/// The place of job `job_id` in `jobs`; their number where it is not among
/// them.
fn find_job(jobs: &Vec<Job>, job_id: u64) -> (k: usize)
    ensures
        k == first_index(views(jobs@), |j: JobView| j.job_id == job_id),
        k <= jobs.len(),
{
    let ghost wanted = |j: JobView| j.job_id == job_id;
    let mut k: usize = 0;
    while k < jobs.len() && jobs[k].job_id != job_id
        invariant
            k <= jobs.len(),
            wanted == (|j: JobView| j.job_id == job_id),
            first_index(views(jobs@), wanted) == first_from(views(jobs@), wanted, k as int),
        decreases jobs.len() - k,
    {
        k += 1;
    }
    k
}

/// The place of the first pending job of `jobs`; their number where none is
/// pending.
fn find_pending(jobs: &Vec<Job>) -> (k: usize)
    ensures
        k == first_index(views(jobs@), |j: JobView| j.status == JobStatus::Pending),
        k <= jobs.len(),
{
    let ghost wanted = |j: JobView| j.status == JobStatus::Pending;
    let mut k: usize = 0;
    while k < jobs.len() && jobs[k].status != JobStatus::Pending
        invariant
            k <= jobs.len(),
            wanted == (|j: JobView| j.status == JobStatus::Pending),
            first_index(views(jobs@), wanted) == first_from(views(jobs@), wanted, k as int),
        decreases jobs.len() - k,
    {
        k += 1;
    }
    k
}

/// The place of the first job of `jobs` that weighs less than `weight`;
/// their number where none does.
fn find_slot(jobs: &Vec<Job>, weight: u8) -> (k: usize)
    ensures
        k == first_index(views(jobs@), |j: JobView| j.rank() < weight as int),
        k <= jobs.len(),
{
    let ghost wanted = |j: JobView| j.rank() < weight as int;
    let mut k: usize = 0;
    while k < jobs.len() && priority_weight(&jobs[k].priority) >= weight
        invariant
            k <= jobs.len(),
            wanted == (|j: JobView| j.rank() < weight as int),
            first_index(views(jobs@), wanted) == first_from(views(jobs@), wanted, k as int),
        decreases jobs.len() - k,
    {
        k += 1;
    }
    k
}

/// The jobs of `jobs` whose time to live has not run out at `now`, in their
/// order.
fn drop_expired(jobs: Vec<Job>, now: Timestamp) -> (live: Vec<Job>)
    ensures
        views(live@) == views(jobs@).filter(|j: JobView| !j.expired_at(now)),
{
    let ghost keep = |j: JobView| !j.expired_at(now);
    let mut live: Vec<Job> = Vec::new();
    assert(views(jobs@).take(0) =~= Seq::empty());
    assert(views(live@) =~= Seq::empty());
    proof {
        reveal(Seq::filter);
    }
    for job in it: jobs
        invariant
            keep == (|j: JobView| !j.expired_at(now)),
            views(live@) == views(jobs@).take(it.index() as int).filter(keep),
    {
        proof {
            let done = views(jobs@).take(it.index() as int);
            assert(views(jobs@).take(it.index() + 1) =~= done.push(job@));
            done.lemma_filter_push(job@, keep);
        }
        let expired = match job.expires_at {
            Some(deadline) => !now.is_before(&deadline),
            None => false,
        };
        if !expired {
            let ghost before = live@;
            let ghost record = job@;
            live.push(job);
            assert(views(live@) =~= views(before).push(record));
        }
    }
    assert(views(jobs@).take(jobs@.len() as int) =~= views(jobs@));
    live
}

} // verus!
