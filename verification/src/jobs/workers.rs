//! Workers: what one of them decides on each turn at the queue, and what it
//! makes of a payload. Waiting, and running the turns side by side, is left
//! to whoever drives the workers.

use crate::jobs::model::QueueView;
use crate::jobs::queue::JobQueue;
use crate::models::{Job, JobStatus};
use crate::random::random_in_range;
use crate::scan::lemma_first_index;
use crate::text::{decimal, push_decimal, same_text, second_field, second_field_of, starts_with};
use crate::time::Timestamp;
use vstd::prelude::*;
use vstd::string::StringExecFns;

verus! {

/// How long a worker that found nothing to claim waits before it looks
/// again, in milliseconds.
pub const IDLE_POLL_MILLIS: u64 = 100;

/// The least time that a task is made to take, in seconds.
pub const MIN_TASK_SECONDS: u64 = 2;

/// The most time that a task is made to take, in seconds.
pub const MAX_TASK_SECONDS: u64 = 5;

/// What a task makes of `payload`: a report for the user named behind
/// `generate_report_for_user:`, a mail to the address behind `send_email:`,
/// a failure for the payload `fail`, and an echo of anything else.
pub open spec fn task_result(payload: Seq<char>) -> Result<Seq<char>, Seq<char>> {
    if "generate_report_for_user:"@.is_prefix_of(payload) {
        match second_field(payload) {
            Some(user) => Ok("Report generated for user "@ + user),
            None => Err("Invalid payload format"@),
        }
    } else if "send_email:"@.is_prefix_of(payload) {
        match second_field(payload) {
            Some(address) => Ok("Email sent to "@ + address),
            None => Err("Invalid payload format"@),
        }
    } else if payload == "fail"@ {
        Err("Simulated failure"@)
    } else {
        Ok("Processed: "@ + payload)
    }
}

/// A task fails on the payload `fail` and on no other: a payload that names
/// a report or a mail always holds the colon behind which its second field
/// begins.
pub proof fn lemma_task_fails_on_fail_only(payload: Seq<char>)
    ensures
        task_result(payload) is Err <==> payload == "fail"@,
        payload == "fail"@ ==> task_result(payload) == Err::<Seq<char>, Seq<char>>(
            "Simulated failure"@,
        ),
{
    reveal_strlit("generate_report_for_user:");
    reveal_strlit("send_email:");
    reveal_strlit("fail");
    let colon = |c: char| c == ':';
    lemma_first_index(payload, colon);
    if "generate_report_for_user:"@.is_prefix_of(payload) {
        assert(payload.subrange(0, 25)[24] == ':');
        assert(colon(payload[24]));
    } else if "send_email:"@.is_prefix_of(payload) {
        assert(payload.subrange(0, 11)[10] == ':');
        assert(colon(payload[10]));
    } else if payload == "fail"@ {
    } else {
        assert(!("fail"@ =~= payload));
    }
    if payload == "fail"@ {
        assert(!"generate_report_for_user:"@.is_prefix_of(payload));
        assert(!"send_email:"@.is_prefix_of(payload));
    }
}

/// The result on record for a job that failed with `error` and had no retry
/// left out of `max_retries`.
pub open spec fn failure_message(max_retries: u32, error: Seq<char>) -> Seq<char> {
    "Failed after "@ + decimal(max_retries as nat) + " retries: "@ + error
}

/// The text of a task's outcome.
pub open spec fn outcome_text(outcome: Result<String, String>) -> Result<Seq<char>, Seq<char>> {
    match outcome {
        Ok(output) => Ok(output@),
        Err(error) => Err(error@),
    }
}

/// The queue after a worker has settled job `job_id` at `now`. Success is
/// put on record. After a failure the job goes back for another attempt if
/// it has a retry left; if it has none, the failure is put on record, with
/// the number of retries that the job was given.
pub open spec fn settled(
    q: QueueView,
    job_id: u64,
    max_retries: u32,
    outcome: Result<Seq<char>, Seq<char>>,
    now: Timestamp,
) -> QueueView {
    match outcome {
        Ok(output) => q.report(job_id, JobStatus::Completed, Some(output), now),
        Err(error) => if q.can_retry(job_id) {
            q.retry(job_id, now)
        } else {
            q.report(job_id, JobStatus::Failed, Some(failure_message(max_retries, error)), now)
        },
    }
}

/// What became of a job that a worker has settled.
#[derive(Clone, Copy, Debug, PartialEq, Eq, Structural)]
pub enum Settlement {
    /// The task succeeded.
    Completed,
    /// The task failed, and the job is pending again.
    Retried,
    /// The task failed, and no retry was left.
    Failed,
}

/// Which way `settled` goes.
pub open spec fn settlement(
    q: QueueView,
    job_id: u64,
    outcome: Result<Seq<char>, Seq<char>>,
) -> Settlement {
    match outcome {
        Ok(_) => Settlement::Completed,
        Err(_) => if q.can_retry(job_id) {
            Settlement::Retried
        } else {
            Settlement::Failed
        },
    }
}

/// What a worker does after a turn at the queue.
#[derive(Debug)]
pub enum WorkerStep {
    /// Run the task on the payload of this job, then settle the job.
    Execute(Job),
    /// Nothing was pending: wait this many milliseconds, then take another
    /// turn.
    Idle { wait_millis: u64 },
}

/// One of the workers that drain a queue.
#[derive(Debug)]
pub struct Worker {
    pub id: usize,
}

impl Worker {
    /// The worker with the number `id`.
    pub fn new(id: usize) -> (worker: Worker)
        ensures
            worker.id == id,
    {
        Worker { id }
    }

    /// Takes a turn at `queue` at `now`: claims the next job, if there is
    /// one, and says what to do next. Where nothing was pending, that is to
    /// wait `IDLE_POLL_MILLIS`.
    pub fn poll_at(&self, queue: &mut JobQueue, now: Timestamp) -> (step: WorkerStep)
        ensures
            final(queue)@ == old(queue)@.claim(now),
            final(queue)@.wf(),
            match step {
                WorkerStep::Execute(job) => old(queue)@.claimed(now) == Some(job@),
                WorkerStep::Idle { wait_millis } => {
                    &&& old(queue)@.claimed(now) is None
                    &&& wait_millis == IDLE_POLL_MILLIS
                },
            },
    {
        match queue.get_next_pending_job_at(now) {
            Some(job) => WorkerStep::Execute(job),
            None => WorkerStep::Idle { wait_millis: IDLE_POLL_MILLIS },
        }
    }

    /// Takes a turn at `queue` at the time that the system clock shows. See
    /// `poll_at`.
    pub fn poll(&self, queue: &mut JobQueue) -> (step: WorkerStep)
        ensures
            final(queue)@.wf(),
            exists|now: Timestamp|
                final(queue)@ == #[trigger] old(queue)@.claim(now) && match step {
                    WorkerStep::Execute(job) => old(queue)@.claimed(now) == Some(job@),
                    WorkerStep::Idle { wait_millis } => {
                        &&& old(queue)@.claimed(now) is None
                        &&& wait_millis == IDLE_POLL_MILLIS
                    },
                },
    {
        let now = Timestamp::now();
        self.poll_at(queue, now)
    }

    /// The number of seconds that the task about to run is made to take:
    /// any number from `MIN_TASK_SECONDS` to `MAX_TASK_SECONDS`.
    pub fn task_seconds(&self) -> (seconds: u64)
        ensures
            MIN_TASK_SECONDS <= seconds <= MAX_TASK_SECONDS,
    {
        random_in_range(MIN_TASK_SECONDS as i64, MAX_TASK_SECONDS as i64) as u64
    }

    /// Runs the task on `payload`.
    pub fn process_job(&self, payload: &str) -> (outcome: Result<String, String>)
        ensures
            outcome_text(outcome) == task_result(payload@),
    {
        if starts_with(payload, "generate_report_for_user:") {
            match second_field_of(payload) {
                Some(user) => Ok(String::from_str("Report generated for user ").concat(user)),
                None => Err(String::from_str("Invalid payload format")),
            }
        } else if starts_with(payload, "send_email:") {
            match second_field_of(payload) {
                Some(address) => Ok(String::from_str("Email sent to ").concat(address)),
                None => Err(String::from_str("Invalid payload format")),
            }
        } else if same_text(payload, "fail") {
            Err(String::from_str("Simulated failure"))
        } else {
            Ok(String::from_str("Processed: ").concat(payload))
        }
    }

    /// Settles `job`, which this worker had claimed from `queue`, at `now`,
    /// with the outcome of its task.
    pub fn finish_at(
        &self,
        queue: &mut JobQueue,
        job: &Job,
        outcome: Result<String, String>,
        now: Timestamp,
    ) -> (done: Settlement)
        ensures
            final(queue)@ == settled(
                old(queue)@,
                job.job_id,
                job.max_retries,
                outcome_text(outcome),
                now,
            ),
            final(queue)@.wf(),
            done == settlement(old(queue)@, job.job_id, outcome_text(outcome)),
    {
        match outcome {
            Ok(output) => {
                queue.update_job_status_at(job.job_id, JobStatus::Completed, Some(output), now);
                Settlement::Completed
            },
            Err(error) => {
                if queue.retry_job_at(job.job_id, now) {
                    Settlement::Retried
                } else {
                    let message = failure_text(job.max_retries, error.as_str());
                    queue.update_job_status_at(job.job_id, JobStatus::Failed, Some(message), now);
                    Settlement::Failed
                }
            },
        }
    }

    /// Settles `job` at the time that the system clock shows. See
    /// `finish_at`.
    pub fn finish(&self, queue: &mut JobQueue, job: &Job, outcome: Result<String, String>) -> (done:
        Settlement)
        ensures
            final(queue)@.wf(),
            done == settlement(old(queue)@, job.job_id, outcome_text(outcome)),
            exists|now: Timestamp|
                final(queue)@ == #[trigger] settled(
                    old(queue)@,
                    job.job_id,
                    job.max_retries,
                    outcome_text(outcome),
                    now,
                ),
    {
        let now = Timestamp::now();
        self.finish_at(queue, job, outcome, now)
    }
}

/// Computes `failure_message`.
pub fn failure_text(max_retries: u32, error: &str) -> (message: String)
    ensures
        message@ == failure_message(max_retries, error@),
{
    let mut message = String::from_str("Failed after ");
    push_decimal(&mut message, max_retries as u64);
    message.append(" retries: ");
    message.append(error);
    message
}

/// The workers of a pool of `num_workers`, numbered from 0, each to be run
/// on its own against one shared queue.
pub fn spawn_workers(num_workers: usize) -> (workers: Vec<Worker>)
    ensures
        workers.len() == num_workers,
        forall|i: int| 0 <= i < num_workers ==> (#[trigger] workers[i]).id == i,
{
    let mut workers: Vec<Worker> = Vec::new();
    let mut id: usize = 0;
    while id < num_workers
        invariant
            id <= num_workers,
            workers.len() == id,
            forall|i: int| 0 <= i < id ==> (#[trigger] workers[i]).id == i,
        decreases num_workers - id,
    {
        workers.push(Worker::new(id));
        id += 1;
    }
    workers
}

} // verus!
