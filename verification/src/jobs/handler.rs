//! What the request layer answers to its callers, as plain values: it only
//! has to put them on the wire.

use crate::jobs::queue::{views, JobQueue, QueueError};
use crate::models::{CreateJob, Job, JobStatus, JobView, StatusJobQuery};
use crate::text::{decimal, push_decimal};
use crate::time::Timestamp;
use vstd::prelude::*;
use vstd::string::StringExecFns;

verus! {

/// The answer to a request.
#[derive(Debug)]
pub enum JobReply {
    /// The job was queued.
    Created { message: String, job_id: u64, status: JobStatus },
    /// The queue turned the job down.
    BadRequest { error: String },
    /// The record that was asked for.
    Found(Job),
    /// No such job.
    NotFound { error: String },
    /// The records that were asked for.
    Listing(Vec<Job>),
}

impl JobReply {
    /// The HTTP status that goes with the answer.
    pub open spec fn code(self) -> int {
        match self {
            JobReply::Created { .. } => 201,
            JobReply::BadRequest { .. } => 400,
            JobReply::Found(_) => 200,
            JobReply::NotFound { .. } => 404,
            JobReply::Listing(_) => 200,
        }
    }

    /// Computes `code`.
    pub fn status_code(&self) -> (code: u16)
        ensures
            code == self.code(),
    {
        match self {
            JobReply::Created { .. } => 201,
            JobReply::BadRequest { .. } => 400,
            JobReply::Found(_) => 200,
            JobReply::NotFound { .. } => 404,
            JobReply::Listing(_) => 200,
        }
    }
}

/// What a caller is told who asks for a job that the queue does not track.
pub open spec fn not_found_message(job_id: u64) -> Seq<char> {
    "Job with id "@ + decimal(job_id as nat) + " not found"@
}

/// Submits `request` to `queue` at `now` and says how it went: the
/// identifier and status of the new job, or that the queue is full.
pub fn create_job_at(queue: &mut JobQueue, request: CreateJob, now: Timestamp) -> (reply: JobReply)
    requires
        old(queue)@.is_full() || old(queue)@.next_id < u64::MAX,
    ensures
        final(queue)@.wf(),
        match reply {
            JobReply::Created { message, job_id, status } => {
                &&& !old(queue)@.is_full()
                &&& final(queue)@ == old(queue)@.submit(request@, now)
                &&& message@ == "Job created successfully"@
                &&& job_id == old(queue)@.next_id
                &&& status == JobStatus::Pending
            },
            JobReply::BadRequest { error } => {
                &&& old(queue)@.is_full()
                &&& final(queue)@ == old(queue)@
                &&& error@ == QueueError::QueueFull.text()
            },
            _ => false,
        },
{
    match queue.add_job_at(request, now) {
        Ok(job) => JobReply::Created {
            message: String::from_str("Job created successfully"),
            job_id: job.job_id,
            status: job.status,
        },
        Err(e) => JobReply::BadRequest { error: e.message() },
    }
}

/// Submits `request` to `queue` at the time that the system clock shows.
/// See `create_job_at`.
pub fn create_job(queue: &mut JobQueue, request: CreateJob) -> (reply: JobReply)
    requires
        old(queue)@.is_full() || old(queue)@.next_id < u64::MAX,
    ensures
        final(queue)@.wf(),
        match reply {
            JobReply::Created { message, job_id, status } => {
                &&& !old(queue)@.is_full()
                &&& exists|now: Timestamp|
                    final(queue)@ == #[trigger] old(queue)@.submit(request@, now)
                &&& message@ == "Job created successfully"@
                &&& job_id == old(queue)@.next_id
                &&& status == JobStatus::Pending
            },
            JobReply::BadRequest { error } => {
                &&& old(queue)@.is_full()
                &&& final(queue)@ == old(queue)@
                &&& error@ == QueueError::QueueFull.text()
            },
            _ => false,
        },
{
    let now = Timestamp::now();
    create_job_at(queue, request, now)
}

/// The record of job `job_id`, or word that `queue` does not track it.
pub fn get_job(queue: &JobQueue, job_id: u64) -> (reply: JobReply)
    ensures
        match reply {
            JobReply::Found(job) => queue@.find(job_id) == Some(job@),
            JobReply::NotFound { error } => {
                &&& queue@.find(job_id) is None
                &&& error@ == not_found_message(job_id)
            },
            _ => false,
        },
{
    match queue.get_job(job_id) {
        Some(job) => JobReply::Found(job),
        None => {
            let mut error = String::from_str("Job with id ");
            push_decimal(&mut error, job_id);
            error.append(" not found");
            JobReply::NotFound { error }
        },
    }
}

/// All records of `queue`, in its order.
pub fn list_jobs(queue: &JobQueue) -> (reply: JobReply)
    ensures
        match reply {
            JobReply::Listing(jobs) => views(jobs@) == queue@.jobs,
            _ => false,
        },
{
    JobReply::Listing(queue.get_all_jobs())
}

/// The jobs of `jobs` that have the status `status`, in their order.
pub open spec fn with_status(jobs: Seq<JobView>, status: JobStatus) -> Seq<JobView> {
    jobs.filter(|j: JobView| j.status == status)
}

/// The records of `queue` that have the status that `query` names, in the
/// order of the queue.
pub fn list_jobs_by_status(queue: &JobQueue, query: &StatusJobQuery) -> (reply: JobReply)
    ensures
        match reply {
            JobReply::Listing(jobs) => views(jobs@) == with_status(queue@.jobs, query.status),
            _ => false,
        },
{
    let all = queue.get_all_jobs();
    let ghost wanted = |j: JobView| j.status == query.status;
    let mut filtered: Vec<Job> = Vec::new();
    assert(views(all@).take(0) =~= Seq::empty());
    assert(views(filtered@) =~= Seq::empty());
    proof {
        reveal(Seq::filter);
    }
    for job in it: all
        invariant
            wanted == (|j: JobView| j.status == query.status),
            views(filtered@) == views(all@).take(it.index() as int).filter(wanted),
    {
        proof {
            let done = views(all@).take(it.index() as int);
            assert(views(all@).take(it.index() + 1) =~= done.push(job@));
            done.lemma_filter_push(job@, wanted);
        }
        if job.status == query.status {
            let ghost before = filtered@;
            let ghost record = job@;
            filtered.push(job);
            assert(views(filtered@) =~= views(before).push(record));
        }
    }
    assert(views(all@).take(all@.len() as int) =~= views(all@));
    JobReply::Listing(filtered)
}

} // verus!
