//! What holds of every queue, whatever was done to it.

use crate::jobs::model::{
    lemma_claim_keeps_wf, lemma_purge_keeps_wf, lemma_report_keeps_wf, lemma_retry_keeps_wf,
    lemma_submit_keeps_wf, precedes, QueueOp, QueueView,
};
use crate::jobs::workers::{failure_message, settled};
use crate::models::{CreateJobView, JobStatus, JobView};
use crate::scan::{lemma_filter_origin, lemma_first_index, lemma_first_index_unique};
use crate::time::Timestamp;
use vstd::prelude::*;

verus! {

/// A job that a claim at `now` may take: it is pending, and its time to live
/// has not run out.
pub open spec fn eligible(job: JobView, now: Timestamp) -> bool {
    job.status == JobStatus::Pending && !job.expired_at(now)
}

/// At most one job of `jobs` is pending.
pub open spec fn at_most_one_pending(jobs: Seq<JobView>) -> bool {
    forall|i: int, j: int|
        0 <= i < jobs.len() && 0 <= j < jobs.len() && (#[trigger] jobs[i]).status
            == JobStatus::Pending && (#[trigger] jobs[j]).status == JobStatus::Pending ==> i == j
}

/// No job of `jobs` is pending.
pub open spec fn none_pending(jobs: Seq<JobView>) -> bool {
    forall|i: int| 0 <= i < jobs.len() ==> (#[trigger] jobs[i]).status != JobStatus::Pending
}

/// Every call of `ops` is a claim.
pub open spec fn all_claims(ops: Seq<QueueOp>) -> bool {
    forall|i: int| 0 <= i < ops.len() ==> (#[trigger] ops[i]) is Claim
}

/// A well-formed queue finds a job by its identifier exactly where a record
/// with that identifier stands.
pub proof fn lemma_position(q: QueueView, k: int)
    requires
        q.wf(),
        0 <= k < q.jobs.len(),
    ensures
        q.position(q.jobs[k].job_id) == k,
        q.has(q.jobs[k].job_id),
        q.find(q.jobs[k].job_id) == Some(q.jobs[k]),
{
    let id = q.jobs[k].job_id;
    let wanted = |j: JobView| j.job_id == id;
    assert forall|i: int| 0 <= i < k implies !wanted(#[trigger] q.jobs[i]) by {
        assert(q.jobs[i].job_id != q.jobs[k].job_id);
    }
    lemma_first_index_unique(q.jobs, wanted, k);
}

/// A queue tracks a job exactly if one of its records has the identifier.
pub proof fn lemma_has(q: QueueView, job_id: u64)
    ensures
        q.has(job_id) <==> exists|i: int| 0 <= i < q.jobs.len() && (#[trigger] q.jobs[i]).job_id == job_id,
        q.has(job_id) ==> 0 <= q.position(job_id) < q.jobs.len() && q.jobs[q.position(
            job_id,
        )].job_id == job_id,
{
    let wanted = |j: JobView| j.job_id == job_id;
    lemma_first_index(q.jobs, wanted);
    if q.has(job_id) {
        assert(wanted(q.jobs[q.position(job_id)]));
    } else {
        assert forall|i: int| 0 <= i < q.jobs.len() implies (#[trigger] q.jobs[i]).job_id
            != job_id by {
            assert(!wanted(q.jobs[i]));
        }
    }
}

/// Running the first `k` calls of `ops` and then the rest is running `ops`,
/// and the queue takes all of `ops` exactly if it takes the first `k` and,
/// after them, the rest.
pub proof fn lemma_run_split(q: QueueView, ops: Seq<QueueOp>, k: int)
    requires
        0 <= k <= ops.len(),
    ensures
        q.run(ops) == q.run(ops.take(k)).run(ops.skip(k)),
        q.admits_all(ops) <==> q.admits_all(ops.take(k)) && q.run(ops.take(k)).admits_all(
            ops.skip(k),
        ),
    decreases ops.len(),
{
    if k == ops.len() {
        assert(ops.take(k) =~= ops);
        assert(ops.skip(k) =~= Seq::empty());
    } else {
        lemma_run_split(q, ops.drop_last(), k);
        assert(ops.drop_last().take(k) =~= ops.take(k));
        assert(ops.drop_last().skip(k) =~= ops.skip(k).drop_last());
        assert(ops.skip(k).last() == ops.last());
    }
}

/// Running one call more is applying it to what the calls before it left.
pub proof fn lemma_run_step(q: QueueView, ops: Seq<QueueOp>, k: int)
    requires
        0 <= k < ops.len(),
    ensures
        q.run(ops.take(k + 1)) == q.run(ops.take(k)).apply(ops[k]),
        q.admits_all(ops.take(k + 1)) <==> q.admits_all(ops.take(k)) && q.run(ops.take(k)).admits(
            ops[k],
        ),
{
    assert(ops.take(k + 1).drop_last() =~= ops.take(k));
    assert(ops.take(k + 1).last() == ops[k]);
}

/// One call that a well-formed queue takes keeps it well formed. The next
/// identifier never goes down, and goes up by one exactly where the call
/// hands an identifier out.
pub proof fn lemma_apply_keeps_wf(q: QueueView, op: QueueOp)
    requires
        q.wf(),
        q.admits(op),
    ensures
        q.apply(op).wf(),
        q.issued(op) is Some ==> q.apply(op).next_id == q.next_id + 1,
        q.issued(op) is None ==> q.apply(op).next_id == q.next_id,
        q.apply(op).capacity == q.capacity,
{
    match op {
        QueueOp::Submit { request, now } => {
            if !q.is_full() {
                lemma_submit_keeps_wf(q, request, now);
            }
        },
        QueueOp::Claim { now } => {
            lemma_claim_keeps_wf(q, now);
        },
        QueueOp::Report { job_id, status, result, now } => {
            lemma_report_keeps_wf(q, job_id, status, result, now);
        },
        QueueOp::Retry { job_id, now } => {
            lemma_retry_keeps_wf(q, job_id, now);
        },
    }
}

/// Whatever is done to a well-formed queue, in whatever order, it stays
/// well formed: no job ever has more retries on record than it was given,
/// no identifier occurs twice, and the jobs stand in claiming order. The
/// next identifier never goes down, and the capacity stays.
pub proof fn lemma_run_keeps_wf(q: QueueView, ops: Seq<QueueOp>)
    requires
        q.wf(),
        q.admits_all(ops),
    ensures
        q.run(ops).wf(),
        q.next_id <= q.run(ops).next_id,
        q.run(ops).capacity == q.capacity,
    decreases ops.len(),
{
    if ops.len() > 0 {
        lemma_run_keeps_wf(q, ops.drop_last());
        lemma_apply_keeps_wf(q.run(ops.drop_last()), ops.last());
    }
}

/// The identifiers that submissions return are strictly increasing, so that
/// no two of them are the same: of two accepted submissions, whatever else
/// is done to the queue before, between and after them, the later one gets
/// the larger identifier.
pub proof fn lemma_ids_strictly_increase(q: QueueView, ops: Seq<QueueOp>, i: int, j: int)
    requires
        q.wf(),
        q.admits_all(ops),
        0 <= i < j < ops.len(),
        q.run(ops.take(i)).issued(ops[i]) is Some,
        q.run(ops.take(j)).issued(ops[j]) is Some,
    ensures
        q.run(ops.take(i)).issued(ops[i])->Some_0 < q.run(ops.take(j)).issued(ops[j])->Some_0,
{
    let before_i = q.run(ops.take(i));
    let after_i = q.run(ops.take(i + 1));
    lemma_run_split(q, ops, j);
    lemma_run_split(q, ops.take(j), i + 1);
    assert(ops.take(j).take(i + 1) =~= ops.take(i + 1));
    lemma_run_step(q, ops, i);
    lemma_run_keeps_wf(q, ops.take(i));
    lemma_apply_keeps_wf(before_i, ops[i]);
    lemma_run_keeps_wf(after_i, ops.take(j).skip(i + 1));
}

/// A submission to a queue that is full is turned down and changes nothing.
pub proof fn lemma_full_queue_refuses(q: QueueView, request: CreateJobView, now: Timestamp)
    requires
        q.is_full(),
    ensures
        q.issued(QueueOp::Submit { request, now }) is None,
        q.apply(QueueOp::Submit { request, now }) == q,
{
}

/// A claim takes the best job there is: the claimed job was tracked,
/// pending and not expired; it is handed out running; and every other job
/// that was pending and not expired weighs less, or weighs as much and was
/// submitted later. Where nothing is handed out, no job was pending and not
/// expired.
pub proof fn lemma_claim_takes_best(q: QueueView, now: Timestamp)
    requires
        q.wf(),
    ensures
        match q.claimed(now) {
            Some(job) => {
                &&& q.find(job.job_id) is Some
                &&& eligible(q.find(job.job_id)->Some_0, now)
                &&& job == q.find(job.job_id)->Some_0.claimed(now)
                &&& job.status == JobStatus::Running
                &&& q.claim(now).find(job.job_id) == Some(job)
                &&& forall|i: int|
                    0 <= i < q.jobs.len() && eligible(#[trigger] q.jobs[i], now) && q.jobs[i].job_id
                        != job.job_id ==> precedes(job, q.jobs[i])
            },
            None => forall|i: int| 0 <= i < q.jobs.len() ==> !eligible(#[trigger] q.jobs[i], now),
        },
{
    let live = q.purge(now);
    let pending = |j: JobView| j.status == JobStatus::Pending;
    let k = live.next_pending();
    lemma_purge_keeps_wf(q, now);
    lemma_claim_keeps_wf(q, now);
    lemma_first_index(live.jobs, pending);
    if k < live.jobs.len() {
        let job = live.jobs[k].claimed(now);
        assert(q.jobs.contains(live.jobs[k]));
        let a = choose|a: int| 0 <= a < q.jobs.len() && q.jobs[a] == live.jobs[k];
        lemma_position(q, a);
        assert(q.claim(now).jobs[k] == job);
        lemma_position(q.claim(now), k);
        assert forall|i: int|
            0 <= i < q.jobs.len() && eligible(#[trigger] q.jobs[i], now) && q.jobs[i].job_id
                != job.job_id implies precedes(job, q.jobs[i]) by {
            assert(live.jobs.contains(q.jobs[i]));
            let b = choose|b: int| 0 <= b < live.jobs.len() && live.jobs[b] == q.jobs[i];
            assert(pending(live.jobs[b]));
            if b < k {
                assert(!pending(live.jobs[b]));
            }
            assert(precedes(live.jobs[k], live.jobs[b]));
        }
    } else {
        assert forall|i: int| 0 <= i < q.jobs.len() implies !eligible(#[trigger] q.jobs[i], now) by {
            if eligible(q.jobs[i], now) {
                assert(live.jobs.contains(q.jobs[i]));
                let b = choose|b: int| 0 <= b < live.jobs.len() && live.jobs[b] == q.jobs[i];
                assert(!pending(live.jobs[b]));
            }
        }
    }
}

/// Changing the record at one place and keeping its identifier leaves every
/// job where it was found before.
pub proof fn lemma_update_keeps_positions(q: QueueView, k: int, job: JobView, job_id: u64)
    requires
        0 <= k < q.jobs.len(),
        job.job_id == q.jobs[k].job_id,
    ensures
        (QueueView { jobs: q.jobs.update(k, job), ..q }).position(job_id) == q.position(job_id),
{
    let after = QueueView { jobs: q.jobs.update(k, job), ..q };
    let wanted = |j: JobView| j.job_id == job_id;
    lemma_first_index(q.jobs, wanted);
    let p = q.position(job_id);
    assert forall|i: int| 0 <= i < p implies !wanted(#[trigger] after.jobs[i]) by {
        assert(!wanted(q.jobs[i]));
    }
    if p < q.jobs.len() {
        assert(wanted(q.jobs[p]));
    }
    lemma_first_index_unique(after.jobs, wanted, p);
}

/// Changing the record at one place and keeping its identifier changes what
/// is found under that identifier, and nothing else.
pub proof fn lemma_update_effect(q: QueueView, k: int, job: JobView)
    requires
        q.wf(),
        0 <= k < q.jobs.len(),
        job.job_id == q.jobs[k].job_id,
    ensures
        (QueueView { jobs: q.jobs.update(k, job), ..q }).find(job.job_id) == Some(job),
        forall|other: u64|
            other != job.job_id ==> #[trigger] (QueueView {
                jobs: q.jobs.update(k, job),
                ..q
            }).find(other) == q.find(other),
{
    let after = QueueView { jobs: q.jobs.update(k, job), ..q };
    lemma_position(q, k);
    lemma_update_keeps_positions(q, k, job, job.job_id);
    assert forall|other: u64| other != job.job_id implies #[trigger] after.find(other) == q.find(
        other,
    ) by {
        lemma_update_keeps_positions(q, k, job, other);
        lemma_has(q, other);
    }
}

/// What a report does to a tracked job: it sets status and result, stamps
/// the job, and leaves the rest of it, and every other job, as they were.
pub proof fn lemma_report_effect(
    q: QueueView,
    job_id: u64,
    status: JobStatus,
    result: Option<Seq<char>>,
    now: Timestamp,
)
    requires
        q.wf(),
        q.has(job_id),
    ensures
        q.report(job_id, status, result, now).find(job_id) == Some(
            JobView { status, result, updated_at: now, ..q.find(job_id)->Some_0 },
        ),
        forall|other: u64|
            other != job_id ==> #[trigger] q.report(job_id, status, result, now).find(other)
                == q.find(other),
{
    lemma_has(q, job_id);
    let k = q.position(job_id);
    lemma_update_effect(q, k, q.jobs[k].reported(status, result, now));
}

/// What a retry does to a tracked job. With a retry left, the retry is
/// granted: the job has one more retry on record, is pending again, and is
/// otherwise as it was. With none left, the retry is refused and the queue
/// stays as it is. Either way every other job stays as it was.
pub proof fn lemma_retry_effect(q: QueueView, job_id: u64, now: Timestamp)
    requires
        q.wf(),
        q.has(job_id),
    ensures
        ({
            let job = q.find(job_id)->Some_0;
            if job.retries < job.max_retries {
                &&& q.can_retry(job_id)
                &&& q.retry(job_id, now).find(job_id) == Some(
                    JobView {
                        retries: (job.retries + 1) as u32,
                        status: JobStatus::Pending,
                        updated_at: now,
                        ..job
                    },
                )
            } else {
                &&& job.retries == job.max_retries
                &&& !q.can_retry(job_id)
                &&& q.retry(job_id, now) == q
            }
        }),
        forall|other: u64|
            other != job_id ==> #[trigger] q.retry(job_id, now).find(other) == q.find(other),
{
    lemma_has(q, job_id);
    let k = q.position(job_id);
    let job = q.jobs[k];
    if job.retries < job.max_retries {
        lemma_update_effect(q, k, job.retried(now));
    }
}

/// What a worker does to the job that it settles. Success goes on record as
/// completed, with the output of the task. A failure with a retry left
/// sends the job back among the pending ones, with one more retry on
/// record. A failure with no retry left goes on record as failed, with the
/// number of retries that the job was given and the error of the task.
/// Every other job stays as it was.
pub proof fn lemma_settle_effect(
    q: QueueView,
    job_id: u64,
    max_retries: u32,
    outcome: Result<Seq<char>, Seq<char>>,
    now: Timestamp,
)
    requires
        q.wf(),
        q.has(job_id),
    ensures
        ({
            let job = q.find(job_id)->Some_0;
            settled(q, job_id, max_retries, outcome, now).find(job_id) == Some(
                match outcome {
                    Ok(output) => JobView {
                        status: JobStatus::Completed,
                        result: Some(output),
                        updated_at: now,
                        ..job
                    },
                    Err(error) => if job.retries < job.max_retries {
                        JobView {
                            retries: (job.retries + 1) as u32,
                            status: JobStatus::Pending,
                            updated_at: now,
                            ..job
                        }
                    } else {
                        JobView {
                            status: JobStatus::Failed,
                            result: Some(failure_message(max_retries, error)),
                            updated_at: now,
                            ..job
                        }
                    },
                },
            )
        }),
        forall|other: u64|
            other != job_id ==> #[trigger] settled(q, job_id, max_retries, outcome, now).find(other)
                == q.find(other),
{
    lemma_retry_effect(q, job_id, now);
    match outcome {
        Ok(output) => {
            lemma_report_effect(q, job_id, JobStatus::Completed, Some(output), now);
        },
        Err(error) => {
            lemma_report_effect(
                q,
                job_id,
                JobStatus::Failed,
                Some(failure_message(max_retries, error)),
                now,
            );
        },
    }
}

/// What a submission does to a queue with room: the new job is found under
/// the identifier that it was given, and every job that was tracked stays
/// as it was.
pub proof fn lemma_submit_effect(q: QueueView, request: CreateJobView, now: Timestamp)
    requires
        q.wf(),
        !q.is_full(),
        q.next_id < u64::MAX,
    ensures
        q.submit(request, now).find(q.next_id) == Some(request.fresh_job(q.next_id, now)),
        q.submit(request, now).jobs.len() == q.jobs.len() + 1,
        forall|job_id: u64|
            q.has(job_id) ==> #[trigger] q.submit(request, now).find(job_id) == q.find(job_id),
{
    let after = q.submit(request, now);
    let slot = q.slot(request.fresh_job(q.next_id, now).rank());
    lemma_submit_keeps_wf(q, request, now);
    lemma_position(after, slot);
    assert forall|job_id: u64| q.has(job_id) implies #[trigger] after.find(job_id) == q.find(
        job_id,
    ) by {
        lemma_has(q, job_id);
        let k = q.position(job_id);
        lemma_position(q, k);
        if k < slot {
            assert(after.jobs[k] == q.jobs[k]);
            lemma_position(after, k);
        } else {
            assert(after.jobs[k + 1] == q.jobs[k]);
            lemma_position(after, k + 1);
        }
    }
}

/// A claim leaves every job as it was, but for the one that it hands out
/// and those whose time to live has run out.
pub proof fn lemma_claim_keeps_other_jobs(q: QueueView, now: Timestamp, job_id: u64)
    requires
        q.wf(),
        q.has(job_id),
        !q.find(job_id)->Some_0.expired_at(now),
        q.claimed(now) is Some ==> q.claimed(now)->Some_0.job_id != job_id,
    ensures
        q.claim(now).find(job_id) == q.find(job_id),
{
    let live = q.purge(now);
    let after = q.claim(now);
    lemma_has(q, job_id);
    let k = q.position(job_id);
    lemma_purge_keeps_wf(q, now);
    lemma_claim_keeps_wf(q, now);
    lemma_first_index(live.jobs, |j: JobView| j.status == JobStatus::Pending);
    assert(live.jobs.contains(q.jobs[k]));
    let b = choose|b: int| 0 <= b < live.jobs.len() && live.jobs[b] == q.jobs[k];
    assert(after.jobs[b] == q.jobs[k]);
    lemma_position(after, b);
}

/// To report on a job that the queue does not track, or to ask for a retry
/// of it, is no error and changes nothing.
pub proof fn lemma_unknown_job_is_passed_over(
    q: QueueView,
    job_id: u64,
    status: JobStatus,
    result: Option<Seq<char>>,
    now: Timestamp,
)
    requires
        !q.has(job_id),
    ensures
        q.report(job_id, status, result, now) == q,
        !q.can_retry(job_id),
        q.retry(job_id, now) == q,
{
}

/// A job whose time to live has run out is gone after the next claim: the
/// claim does not hand it out, and afterwards the queue neither finds it nor
/// lists it.
pub proof fn lemma_expired_job_is_gone(q: QueueView, now: Timestamp, i: int)
    requires
        q.wf(),
        0 <= i < q.jobs.len(),
        q.jobs[i].expired_at(now),
    ensures
        q.claimed(now) is Some ==> q.claimed(now)->Some_0.job_id != q.jobs[i].job_id,
        !q.claim(now).has(q.jobs[i].job_id),
        q.claim(now).find(q.jobs[i].job_id) is None,
        forall|k: int|
            0 <= k < q.claim(now).jobs.len() ==> (#[trigger] q.claim(now).jobs[k]).job_id
                != q.jobs[i].job_id,
{
    let id = q.jobs[i].job_id;
    let live = q.purge(now);
    let after = q.claim(now);
    lemma_purge_keeps_wf(q, now);
    lemma_first_index(live.jobs, |j: JobView| j.status == JobStatus::Pending);
    assert forall|k: int| 0 <= k < live.jobs.len() implies (#[trigger] live.jobs[k]).job_id
        != id by {
        assert(q.jobs.contains(live.jobs[k]));
        let a = choose|a: int| 0 <= a < q.jobs.len() && q.jobs[a] == live.jobs[k];
        if a != i {
            if a < i {
                assert(q.jobs[a].job_id != q.jobs[i].job_id);
            } else {
                assert(q.jobs[i].job_id != q.jobs[a].job_id);
            }
        }
    }
    assert forall|k: int| 0 <= k < after.jobs.len() implies (#[trigger] after.jobs[k]).job_id
        != id by {
        assert(live.jobs[k].job_id != id);
    }
    lemma_has(after, id);
}

/// A claim on a queue without a pending job hands out nothing and leaves it
/// without a pending job.
pub proof fn lemma_claim_without_pending(q: QueueView, now: Timestamp)
    requires
        none_pending(q.jobs),
    ensures
        q.claimed(now) is None,
        none_pending(q.claim(now).jobs),
{
    let live = q.purge(now);
    let pending = |j: JobView| j.status == JobStatus::Pending;
    lemma_filter_origin(q.jobs, |j: JobView| !j.expired_at(now));
    lemma_first_index(live.jobs, pending);
    assert forall|k: int| 0 <= k < live.jobs.len() implies (#[trigger] live.jobs[k]).status
        != JobStatus::Pending by {
        assert(q.jobs.contains(live.jobs[k]));
    }
    if live.next_pending() < live.jobs.len() {
        assert(pending(live.jobs[live.next_pending()]));
    }
}

/// A claim on a queue with at most one pending job leaves it with at most
/// one, and with none where the claim handed a job out.
pub proof fn lemma_claim_with_one_pending(q: QueueView, now: Timestamp)
    requires
        at_most_one_pending(q.jobs),
    ensures
        at_most_one_pending(q.claim(now).jobs),
        q.claimed(now) is Some ==> none_pending(q.claim(now).jobs),
{
    let live = q.purge(now);
    let after = q.claim(now);
    let pending = |j: JobView| j.status == JobStatus::Pending;
    lemma_filter_origin(q.jobs, |j: JobView| !j.expired_at(now));
    lemma_first_index(live.jobs, pending);
    assert forall|i: int, j: int|
        0 <= i < j < live.jobs.len() && (#[trigger] live.jobs[i]).status == JobStatus::Pending
        implies (#[trigger] live.jobs[j]).status != JobStatus::Pending by {
        let (a, b) = choose|a: int, b: int|
            0 <= a < b < q.jobs.len() && q.jobs[a] == live.jobs[i] && q.jobs[b] == live.jobs[j];
        if q.jobs[b].status == JobStatus::Pending {
            assert(q.jobs[a].status == JobStatus::Pending);
        }
    }
    let k = live.next_pending();
    if k < live.jobs.len() {
        assert(pending(live.jobs[k]));
        assert forall|i: int| 0 <= i < after.jobs.len() implies (#[trigger] after.jobs[i]).status
            != JobStatus::Pending by {
            if i < k {
                assert(!pending(live.jobs[i]));
            } else if i > k {
                assert(live.jobs[k].status == JobStatus::Pending);
                assert(live.jobs[i].status != JobStatus::Pending);
            }
        }
    } else {
        assert forall|i: int, j: int|
            0 <= i < after.jobs.len() && 0 <= j < after.jobs.len() && (#[trigger] after.jobs[i]).status
                == JobStatus::Pending && (#[trigger] after.jobs[j]).status
                == JobStatus::Pending implies i == j by {
            assert(!pending(live.jobs[i]));
        }
    }
}

/// The one pending job of a queue goes to the first claim that comes before
/// its time to live has run out.
pub proof fn lemma_only_pending_job_goes_to_next_claim(q: QueueView, now: Timestamp, k: int)
    requires
        q.wf(),
        at_most_one_pending(q.jobs),
        0 <= k < q.jobs.len(),
        eligible(q.jobs[k], now),
    ensures
        q.claimed(now) == Some(q.jobs[k].claimed(now)),
{
    lemma_claim_takes_best(q, now);
    let job = q.claimed(now)->Some_0;
    lemma_has(q, job.job_id);
    lemma_position(q, k);
}

/// Claims on a queue without a pending job leave it without one.
pub proof fn lemma_claims_without_pending(q: QueueView, ops: Seq<QueueOp>)
    requires
        none_pending(q.jobs),
        all_claims(ops),
    ensures
        none_pending(q.run(ops).jobs),
    decreases ops.len(),
{
    if ops.len() > 0 {
        assert(all_claims(ops.drop_last())) by {
            assert forall|i: int| 0 <= i < ops.drop_last().len() implies (
            #[trigger] ops.drop_last()[i]) is Claim by {
                assert(ops[i] is Claim);
            }
        }
        lemma_claims_without_pending(q, ops.drop_last());
        assert(ops[ops.len() - 1] is Claim);
        lemma_claim_without_pending(q.run(ops.drop_last()), ops.last()->Claim_now);
    }
}

/// Claims on a queue with at most one pending job leave it with at most one.
pub proof fn lemma_claims_with_one_pending(q: QueueView, ops: Seq<QueueOp>)
    requires
        at_most_one_pending(q.jobs),
        all_claims(ops),
    ensures
        at_most_one_pending(q.run(ops).jobs),
    decreases ops.len(),
{
    if ops.len() > 0 {
        assert(all_claims(ops.drop_last())) by {
            assert forall|i: int| 0 <= i < ops.drop_last().len() implies (
            #[trigger] ops.drop_last()[i]) is Claim by {
                assert(ops[i] is Claim);
            }
        }
        lemma_claims_with_one_pending(q, ops.drop_last());
        assert(ops[ops.len() - 1] is Claim);
        lemma_claim_with_one_pending(q.run(ops.drop_last()), ops.last()->Claim_now);
    }
}

/// One pending job goes to one claimer: of the claims made one after the
/// other on a queue with at most one pending job, at whatever times, no two
/// are handed a job.
pub proof fn lemma_one_pending_job_is_claimed_once(
    q: QueueView,
    ops: Seq<QueueOp>,
    i: int,
    j: int,
)
    requires
        at_most_one_pending(q.jobs),
        all_claims(ops),
        0 <= i < j < ops.len(),
    ensures
        !(q.run(ops.take(i)).handed(ops[i]) is Some && q.run(ops.take(j)).handed(ops[j]) is Some),
{
    let before_i = q.run(ops.take(i));
    let after_i = q.run(ops.take(i + 1));
    let before_j = q.run(ops.take(j));
    assert(ops[i] is Claim && ops[j] is Claim);
    if before_i.handed(ops[i]) is Some {
        assert(all_claims(ops.take(i)));
        lemma_claims_with_one_pending(q, ops.take(i));
        lemma_run_step(q, ops, i);
        lemma_claim_with_one_pending(before_i, ops[i]->Claim_now);
        lemma_run_split(q, ops.take(j), i + 1);
        assert(ops.take(j).take(i + 1) =~= ops.take(i + 1));
        assert(all_claims(ops.take(j).skip(i + 1)));
        lemma_claims_without_pending(after_i, ops.take(j).skip(i + 1));
        lemma_claim_without_pending(before_j, ops[j]->Claim_now);
    }
}

} // verus!
