use job_queue::jobs::queue::JobQueue;
use job_queue::models::{CreateJob, JobPriority, JobStatus, DEFAULT_MAX_RETRIES};
use job_queue::time::Timestamp;

fn request(payload: &str, priority: Option<JobPriority>, ttl_seconds: Option<i64>) -> CreateJob {
    CreateJob { payload: payload.to_string(), priority, max_retries: None, ttl_seconds }
}

fn ids(queue: &JobQueue) -> Vec<u64> {
    queue.get_all_jobs().iter().map(|j| j.job_id).collect()
}

#[test]
fn new_queue_is_empty() {
    let queue = JobQueue::new(7);
    assert_eq!(queue.len(), 0);
    assert_eq!(queue.max_queue_size(), 7);
    assert_eq!(queue.next_id(), 1);
    assert!(queue.get_all_jobs().is_empty());
    assert!(queue.get_job(1).is_none());
}

#[test]
fn identifiers_go_up_one_by_one() {
    let mut queue = JobQueue::new(100);
    let priorities = [Some(JobPriority::Low), None, Some(JobPriority::High), Some(JobPriority::Medium)];
    let mut last = 0;
    for round in 0..40u64 {
        let job = queue
            .add_job_at(
                request("work", priorities[(round % 4) as usize], None),
                Timestamp::new(round as i64, 0),
            )
            .unwrap();
        assert_eq!(job.job_id, round + 1);
        assert!(job.job_id > last);
        last = job.job_id;
        if round % 5 == 0 {
            let _ = queue.get_next_pending_job_at(Timestamp::new(round as i64, 1));
        }
    }
    let mut seen = ids(&queue);
    seen.sort();
    seen.dedup();
    assert_eq!(seen.len(), 40);
    assert_eq!(queue.next_id(), 41);
}

#[test]
fn refused_submission_uses_no_identifier() {
    let mut queue = JobQueue::new(1);
    let t = Timestamp::new(0, 0);
    assert_eq!(queue.add_job_at(request("a", None, None), t).unwrap().job_id, 1);
    assert!(queue.add_job_at(request("b", None, None), t).is_err());
    assert!(queue.add_job_at(request("c", None, Some(-1)), t).is_err());
    assert_eq!(queue.next_id(), 2);
}

#[test]
fn submitted_job_starts_out_pending() {
    let mut queue = JobQueue::new(3);
    let now = Timestamp::new(1_700_000_000, 123_456_789);
    let job = queue
        .add_job_at(
            CreateJob {
                payload: "send_email:someone@example.org".to_string(),
                priority: Some(JobPriority::Low),
                max_retries: Some(7),
                ttl_seconds: Some(90),
            },
            now,
        )
        .unwrap();
    assert_eq!(job.job_id, 1);
    assert_eq!(job.status, JobStatus::Pending);
    assert_eq!(job.payload, "send_email:someone@example.org");
    assert_eq!(job.result, None);
    assert_eq!(job.priority, Some(JobPriority::Low));
    assert_eq!(job.retries, 0);
    assert_eq!(job.max_retries, 7);
    assert_eq!(job.created_at, now);
    assert_eq!(job.updated_at, now);
    assert_eq!(job.expires_at, Some(Timestamp::new(1_700_000_090, 123_456_789)));

    let stored = queue.get_job(1).unwrap();
    assert_eq!(stored.payload, job.payload);
    assert_eq!(stored.expires_at, job.expires_at);
}

#[test]
fn retries_default_to_three() {
    let mut queue = JobQueue::new(3);
    let job = queue.add_job_at(request("x", None, None), Timestamp::new(0, 0)).unwrap();
    assert_eq!(DEFAULT_MAX_RETRIES, 3);
    assert_eq!(job.max_retries, 3);
    assert_eq!(job.expires_at, None);
}

#[test]
fn queue_keeps_claiming_order() {
    let mut queue = JobQueue::new(10);
    let t = Timestamp::new(0, 0);
    // identifiers:            1          2           3     4           5          6
    for priority in [
        Some(JobPriority::Low),
        Some(JobPriority::High),
        None,
        Some(JobPriority::Medium),
        Some(JobPriority::High),
        Some(JobPriority::Low),
    ] {
        queue.add_job_at(request("w", priority, None), t).unwrap();
    }
    assert_eq!(ids(&queue), vec![2, 5, 3, 4, 1, 6]);
}

#[test]
fn job_without_priority_counts_as_medium() {
    let mut queue = JobQueue::new(10);
    let t = Timestamp::new(0, 0);
    queue.add_job_at(request("medium", Some(JobPriority::Medium), None), t).unwrap();
    queue.add_job_at(request("none", None, None), t).unwrap();
    queue.add_job_at(request("medium again", Some(JobPriority::Medium), None), t).unwrap();
    queue.add_job_at(request("low", Some(JobPriority::Low), None), t).unwrap();
    assert_eq!(ids(&queue), vec![1, 2, 3, 4]);
}

#[test]
fn claims_take_ties_in_submission_order() {
    let mut queue = JobQueue::new(10);
    let t = Timestamp::new(0, 0);
    for payload in ["a", "b", "c"] {
        queue.add_job_at(request(payload, Some(JobPriority::High), None), t).unwrap();
    }
    let claimed: Vec<String> = (0..3)
        .map(|_| queue.get_next_pending_job_at(t).unwrap().payload)
        .collect();
    assert_eq!(claimed, vec!["a", "b", "c"]);
}

#[test]
fn claim_passes_over_running_and_finished_jobs() {
    let mut queue = JobQueue::new(10);
    let t = Timestamp::new(0, 0);
    queue.add_job_at(request("a", Some(JobPriority::High), None), t).unwrap();
    queue.add_job_at(request("b", Some(JobPriority::High), None), t).unwrap();
    queue.add_job_at(request("c", Some(JobPriority::Low), None), t).unwrap();
    assert_eq!(queue.get_next_pending_job_at(t).unwrap().job_id, 1);
    queue.update_job_status_at(2, JobStatus::Completed, Some("done".to_string()), t);
    assert_eq!(queue.get_next_pending_job_at(t).unwrap().job_id, 3);
    assert!(queue.get_next_pending_job_at(t).is_none());
    let statuses: Vec<JobStatus> = queue.get_all_jobs().iter().map(|j| j.status).collect();
    assert_eq!(statuses, vec![JobStatus::Running, JobStatus::Completed, JobStatus::Running]);
}

#[test]
fn later_job_of_higher_priority_is_claimed_first() {
    let mut queue = JobQueue::new(10);
    let t = Timestamp::new(0, 0);
    queue.add_job_at(request("low", Some(JobPriority::Low), None), t).unwrap();
    assert_eq!(queue.get_next_pending_job_at(t).unwrap().job_id, 1);
    queue.add_job_at(request("medium", None, None), t).unwrap();
    queue.add_job_at(request("high", Some(JobPriority::High), None), t).unwrap();
    assert_eq!(ids(&queue), vec![3, 2, 1]);
    assert_eq!(queue.get_next_pending_job_at(t).unwrap().job_id, 3);
    assert_eq!(queue.get_next_pending_job_at(t).unwrap().job_id, 2);
}

#[test]
fn one_pending_job_goes_to_one_claimer() {
    let mut queue = JobQueue::new(10);
    let t = Timestamp::new(0, 0);
    queue.add_job_at(request("only", None, None), t).unwrap();
    let handed: Vec<Option<u64>> = (0..5)
        .map(|turn| queue.get_next_pending_job_at(Timestamp::new(turn, 0)).map(|j| j.job_id))
        .collect();
    assert_eq!(handed, vec![Some(1), None, None, None, None]);
}

#[test]
fn retry_counts_up_until_none_is_left() {
    let mut queue = JobQueue::new(10);
    let t = Timestamp::new(10, 0);
    queue
        .add_job_at(
            CreateJob {
                payload: "p".to_string(),
                priority: None,
                max_retries: Some(2),
                ttl_seconds: None,
            },
            t,
        )
        .unwrap();
    queue.get_next_pending_job_at(t).unwrap();

    assert!(queue.retry_job_at(1, Timestamp::new(11, 0)));
    let job = queue.get_job(1).unwrap();
    assert_eq!((job.retries, job.status, job.updated_at), (1, JobStatus::Pending, Timestamp::new(11, 0)));

    queue.get_next_pending_job_at(t).unwrap();
    assert!(queue.retry_job_at(1, Timestamp::new(12, 0)));
    let job = queue.get_job(1).unwrap();
    assert_eq!((job.retries, job.status), (2, JobStatus::Pending));

    queue.get_next_pending_job_at(Timestamp::new(13, 0)).unwrap();
    assert!(!queue.retry_job_at(1, Timestamp::new(14, 0)));
    let job = queue.get_job(1).unwrap();
    assert_eq!(
        (job.retries, job.status, job.updated_at),
        (2, JobStatus::Running, Timestamp::new(13, 0))
    );
}

#[test]
fn job_without_retries_cannot_be_retried() {
    let mut queue = JobQueue::new(10);
    let t = Timestamp::new(0, 0);
    queue
        .add_job_at(
            CreateJob {
                payload: "p".to_string(),
                priority: None,
                max_retries: Some(0),
                ttl_seconds: None,
            },
            t,
        )
        .unwrap();
    assert!(!queue.retry_job_at(1, t));
    assert_eq!(queue.get_job(1).unwrap().retries, 0);
}

#[test]
fn unknown_job_is_passed_over() {
    let mut queue = JobQueue::new(10);
    let t = Timestamp::new(0, 0);
    queue.add_job_at(request("a", None, None), t).unwrap();
    queue.update_job_status_at(99, JobStatus::Failed, Some("x".to_string()), Timestamp::new(1, 0));
    assert!(!queue.retry_job_at(99, Timestamp::new(1, 0)));
    let job = queue.get_job(1).unwrap();
    assert_eq!((job.status, job.result, job.updated_at, job.retries), (JobStatus::Pending, None, t, 0));
    assert_eq!(queue.len(), 1);
}

#[test]
fn report_after_expiry_changes_nothing() {
    let mut queue = JobQueue::new(10);
    queue.add_job_at(request("a", None, Some(10)), Timestamp::new(0, 0)).unwrap();
    queue.add_job_at(request("b", None, None), Timestamp::new(0, 0)).unwrap();
    let claimed = queue.get_next_pending_job_at(Timestamp::new(5, 0)).unwrap();
    assert_eq!(claimed.job_id, 1);
    // The next claim comes after the first job's time has run out.
    let next = queue.get_next_pending_job_at(Timestamp::new(10, 0)).unwrap();
    assert_eq!(next.job_id, 2);
    assert_eq!(ids(&queue), vec![2]);
    queue.update_job_status_at(1, JobStatus::Completed, Some("late".to_string()), Timestamp::new(11, 0));
    assert_eq!(ids(&queue), vec![2]);
    assert!(queue.get_job(1).is_none());
    assert_eq!(queue.get_job(2).unwrap().status, JobStatus::Running);
}

#[test]
fn report_sets_status_result_and_time() {
    let mut queue = JobQueue::new(10);
    queue.add_job_at(request("a", None, None), Timestamp::new(0, 0)).unwrap();
    queue.add_job_at(request("b", None, None), Timestamp::new(0, 0)).unwrap();
    queue.update_job_status_at(2, JobStatus::Completed, Some("out".to_string()), Timestamp::new(3, 4));
    let job = queue.get_job(2).unwrap();
    assert_eq!(job.status, JobStatus::Completed);
    assert_eq!(job.result, Some("out".to_string()));
    assert_eq!(job.updated_at, Timestamp::new(3, 4));
    assert_eq!(job.created_at, Timestamp::new(0, 0));
    assert_eq!(queue.get_job(1).unwrap().status, JobStatus::Pending);
}

#[test]
fn expiry_is_decided_to_the_nanosecond() {
    let mut queue = JobQueue::new(10);
    queue.add_job_at(request("a", None, Some(1)), Timestamp::new(100, 500)).unwrap();
    // One nanosecond before the expiry the job is still there.
    assert_eq!(queue.get_next_pending_job_at(Timestamp::new(101, 499)).unwrap().job_id, 1);
    assert_eq!(queue.len(), 1);
    // At the expiry it goes, although it is running.
    assert!(queue.get_next_pending_job_at(Timestamp::new(101, 500)).is_none());
    assert_eq!(queue.len(), 0);
}

#[test]
fn purge_drops_expired_jobs_of_any_status() {
    let mut queue = JobQueue::new(10);
    let t = Timestamp::new(0, 0);
    queue.add_job_at(request("a", Some(JobPriority::High), Some(5)), t).unwrap();
    queue.add_job_at(request("b", None, Some(5)), t).unwrap();
    queue.add_job_at(request("c", None, Some(50)), t).unwrap();
    queue.add_job_at(request("d", Some(JobPriority::Low), None), t).unwrap();
    assert_eq!(queue.get_next_pending_job_at(t).unwrap().job_id, 1);
    queue.update_job_status_at(2, JobStatus::Completed, None, t);
    let claimed = queue.get_next_pending_job_at(Timestamp::new(6, 0)).unwrap();
    assert_eq!(claimed.job_id, 3);
    assert_eq!(ids(&queue), vec![3, 4]);
}

#[test]
fn purge_makes_room() {
    let mut queue = JobQueue::new(1);
    queue.add_job_at(request("a", None, Some(1)), Timestamp::new(0, 0)).unwrap();
    assert!(queue.add_job_at(request("b", None, None), Timestamp::new(5, 0)).is_err());
    assert!(queue.get_next_pending_job_at(Timestamp::new(5, 0)).is_none());
    let job = queue.add_job_at(request("b", None, None), Timestamp::new(5, 0)).unwrap();
    assert_eq!(job.job_id, 2);
}

#[test]
fn clock_stamps_submissions() {
    let mut queue = JobQueue::new(4);
    let job = queue.add_job(request("a", None, Some(60))).unwrap();
    assert_eq!(job.created_at, job.updated_at);
    assert_eq!(job.expires_at, Some(job.created_at.add_seconds(60)));
    // Some time in this century.
    assert!(job.created_at.secs > 1_600_000_000 && job.created_at.secs < 4_102_444_800);
    assert!(job.created_at.nanos < 1_000_000_000);

    let claimed = queue.get_next_pending_job().unwrap();
    assert_eq!(claimed.job_id, job.job_id);
    assert!(queue.retry_job(job.job_id));
    queue.update_job_status(job.job_id, JobStatus::Completed, Some("ok".to_string()));
    let stored = queue.get_job(job.job_id).unwrap();
    assert_eq!((stored.status, stored.retries), (JobStatus::Completed, 1));
    assert_eq!(stored.result, Some("ok".to_string()));
}
