//! The records that the queue tracks, and what callers hand in to create them.

use crate::time::Timestamp;
use vstd::prelude::*;

verus! {

/// Where a job stands in its life.
#[derive(Clone, Copy, Debug, PartialEq, Eq, Structural)]
pub enum JobStatus {
    Pending,
    Running,
    Completed,
    Failed,
}

/// How urgent a job is. Only the order among pending jobs depends on it.
#[derive(Clone, Copy, Debug, PartialEq, Eq, PartialOrd, Ord, Structural)]
pub enum JobPriority {
    Low,
    Medium,
    High,
}

impl JobPriority {
    /// The weight of a priority: a job of greater weight is claimed first.
    pub open spec fn rank(self) -> int {
        match self {
            JobPriority::Low => 0,
            JobPriority::Medium => 1,
            JobPriority::High => 2,
        }
    }

    /// Computes `rank`.
    pub fn weight(&self) -> (w: u8)
        ensures
            w == self.rank(),
    {
        match self {
            JobPriority::Low => 0,
            JobPriority::Medium => 1,
            JobPriority::High => 2,
        }
    }
}

/// The weight that orders a job: that of its priority, and that of `Medium`
/// where it has none.
pub open spec fn priority_rank(priority: Option<JobPriority>) -> int {
    match priority {
        Some(p) => p.rank(),
        None => JobPriority::Medium.rank(),
    }
}

/// Computes `priority_rank`.
pub fn priority_weight(priority: &Option<JobPriority>) -> (w: u8)
    ensures
        w == priority_rank(*priority),
{
    match priority {
        Some(p) => p.weight(),
        None => JobPriority::Medium.weight(),
    }
}

/// The text of an optional string.
pub open spec fn text_of(s: Option<String>) -> Option<Seq<char>> {
    match s {
        Some(s) => Some(s@),
        None => None,
    }
}

/// One unit of work and the state of its life.
#[derive(Debug)]
pub struct Job {
    pub job_id: u64,
    pub status: JobStatus,
    pub payload: String,
    pub result: Option<String>,
    pub priority: Option<JobPriority>,
    pub retries: u32,
    pub max_retries: u32,
    pub created_at: Timestamp,
    pub updated_at: Timestamp,
    pub expires_at: Option<Timestamp>,
}

/// What a `Job` holds, with its strings as sequences of characters.
#[verifier::ext_equal]
pub struct JobView {
    pub job_id: u64,
    pub status: JobStatus,
    pub payload: Seq<char>,
    pub result: Option<Seq<char>>,
    pub priority: Option<JobPriority>,
    pub retries: u32,
    pub max_retries: u32,
    pub created_at: Timestamp,
    pub updated_at: Timestamp,
    pub expires_at: Option<Timestamp>,
}

impl View for Job {
    type V = JobView;

    open spec fn view(&self) -> JobView {
        JobView {
            job_id: self.job_id,
            status: self.status,
            payload: self.payload@,
            result: text_of(self.result),
            priority: self.priority,
            retries: self.retries,
            max_retries: self.max_retries,
            created_at: self.created_at,
            updated_at: self.updated_at,
            expires_at: self.expires_at,
        }
    }
}

impl Clone for Job {
    fn clone(&self) -> (copy: Job)
        ensures
            copy == *self,
    {
        Job {
            job_id: self.job_id,
            status: self.status,
            payload: self.payload.clone(),
            result: match &self.result {
                Some(text) => Some(text.clone()),
                None => None,
            },
            priority: self.priority,
            retries: self.retries,
            max_retries: self.max_retries,
            created_at: self.created_at,
            updated_at: self.updated_at,
            expires_at: self.expires_at,
        }
    }
}

impl JobView {
    /// The weight by which the job is ordered among the pending jobs.
    pub open spec fn rank(self) -> int {
        priority_rank(self.priority)
    }

    /// The job's time to live has run out at `now`: it has an expiry, and
    /// `now` is not before it.
    pub open spec fn expired_at(self, now: Timestamp) -> bool {
        match self.expires_at {
            Some(deadline) => !now.before(deadline),
            None => false,
        }
    }

    /// The job as a worker receives it: running, stamped with `now`.
    pub open spec fn claimed(self, now: Timestamp) -> JobView {
        JobView { status: JobStatus::Running, updated_at: now, ..self }
    }

    /// The job with an outcome on record, stamped with `now`.
    pub open spec fn reported(self, status: JobStatus, result: Option<Seq<char>>, now: Timestamp) -> JobView {
        JobView { status, result, updated_at: now, ..self }
    }

    /// The job back among the pending ones with one more retry used, stamped
    /// with `now`.
    pub open spec fn retried(self, now: Timestamp) -> JobView {
        JobView {
            status: JobStatus::Pending,
            retries: (self.retries + 1) as u32,
            updated_at: now,
            ..self
        }
    }
}

/// The number of retries that a job gets where its submission names none.
pub const DEFAULT_MAX_RETRIES: u32 = 3;

/// A request to queue a job.
#[derive(Debug)]
pub struct CreateJob {
    pub payload: String,
    pub priority: Option<JobPriority>,
    pub max_retries: Option<u32>,
    /// Time to live in seconds, from the moment of submission.
    pub ttl_seconds: Option<i64>,
}

/// What a `CreateJob` holds, with its payload as a sequence of characters.
#[verifier::ext_equal]
pub struct CreateJobView {
    pub payload: Seq<char>,
    pub priority: Option<JobPriority>,
    pub max_retries: Option<u32>,
    pub ttl_seconds: Option<i64>,
}

impl View for CreateJob {
    type V = CreateJobView;

    open spec fn view(&self) -> CreateJobView {
        CreateJobView {
            payload: self.payload@,
            priority: self.priority,
            max_retries: self.max_retries,
            ttl_seconds: self.ttl_seconds,
        }
    }
}

impl CreateJobView {
    /// The record of a job submitted with this request at `now`, under the
    /// identifier `job_id`.
    pub open spec fn fresh_job(self, job_id: u64, now: Timestamp) -> JobView {
        JobView {
            job_id,
            status: JobStatus::Pending,
            payload: self.payload,
            result: None,
            priority: self.priority,
            retries: 0,
            max_retries: match self.max_retries {
                Some(n) => n,
                None => DEFAULT_MAX_RETRIES,
            },
            created_at: now,
            updated_at: now,
            expires_at: match self.ttl_seconds {
                Some(ttl) => Some(now.plus_seconds(ttl)),
                None => None,
            },
        }
    }
}

/// The status that a listing of jobs is narrowed to.
#[derive(Debug)]
pub struct StatusJobQuery {
    pub status: JobStatus,
}

} // verus!
