use job_queue::jobs::handler::{
    create_job, create_job_at, get_job, list_jobs, list_jobs_by_status, JobReply,
};
use job_queue::jobs::queue::JobQueue;
use job_queue::models::{CreateJob, JobPriority, JobStatus, StatusJobQuery};
use job_queue::time::Timestamp;

fn request(payload: &str, priority: Option<JobPriority>) -> CreateJob {
    CreateJob { payload: payload.to_string(), priority, max_retries: None, ttl_seconds: None }
}

#[test]
fn created_job_is_announced() {
    let mut queue = JobQueue::new(2);
    let reply = create_job_at(&mut queue, request("a", None), Timestamp::new(0, 0));
    assert_eq!(reply.status_code(), 201);
    match reply {
        JobReply::Created { message, job_id, status } => {
            assert_eq!(message, "Job created successfully");
            assert_eq!(job_id, 1);
            assert_eq!(status, JobStatus::Pending);
        }
        other => panic!("unexpected reply {:?}", other),
    }
    assert_eq!(queue.len(), 1);
}

#[test]
fn full_queue_is_a_bad_request() {
    let mut queue = JobQueue::new(1);
    create_job_at(&mut queue, request("a", None), Timestamp::new(0, 0));
    let reply = create_job_at(&mut queue, request("b", None), Timestamp::new(0, 0));
    assert_eq!(reply.status_code(), 400);
    match reply {
        JobReply::BadRequest { error } => assert_eq!(error, "Queue is full"),
        other => panic!("unexpected reply {:?}", other),
    }
    assert_eq!(queue.len(), 1);
    let reply = create_job(&mut queue, request("c", None));
    assert_eq!(reply.status_code(), 400);
}

#[test]
fn create_job_reads_the_clock() {
    let mut queue = JobQueue::new(1);
    let reply = create_job(&mut queue, request("a", None));
    assert_eq!(reply.status_code(), 201);
    let job = queue.get_job(1).unwrap();
    assert!(job.created_at.secs > 1_600_000_000);
}

#[test]
fn known_job_is_found() {
    let mut queue = JobQueue::new(2);
    create_job_at(&mut queue, request("a", Some(JobPriority::High)), Timestamp::new(4, 2));
    let reply = get_job(&queue, 1);
    assert_eq!(reply.status_code(), 200);
    match reply {
        JobReply::Found(job) => {
            assert_eq!(job.job_id, 1);
            assert_eq!(job.payload, "a");
            assert_eq!(job.priority, Some(JobPriority::High));
            assert_eq!(job.created_at, Timestamp::new(4, 2));
        }
        other => panic!("unexpected reply {:?}", other),
    }
}

#[test]
fn unknown_job_is_not_found() {
    let queue = JobQueue::new(2);
    let reply = get_job(&queue, 1234567890123);
    assert_eq!(reply.status_code(), 404);
    match reply {
        JobReply::NotFound { error } => assert_eq!(error, "Job with id 1234567890123 not found"),
        other => panic!("unexpected reply {:?}", other),
    }
    match get_job(&queue, 0) {
        JobReply::NotFound { error } => assert_eq!(error, "Job with id 0 not found"),
        other => panic!("unexpected reply {:?}", other),
    }
    match get_job(&queue, u64::MAX) {
        JobReply::NotFound { error } => {
            assert_eq!(error, "Job with id 18446744073709551615 not found")
        }
        other => panic!("unexpected reply {:?}", other),
    }
}

#[test]
fn listing_follows_the_queue() {
    let mut queue = JobQueue::new(5);
    let t = Timestamp::new(0, 0);
    create_job_at(&mut queue, request("a", Some(JobPriority::Low)), t);
    create_job_at(&mut queue, request("b", Some(JobPriority::High)), t);
    create_job_at(&mut queue, request("c", None), t);
    let reply = list_jobs(&queue);
    assert_eq!(reply.status_code(), 200);
    match reply {
        JobReply::Listing(jobs) => {
            let payloads: Vec<&str> = jobs.iter().map(|j| j.payload.as_str()).collect();
            assert_eq!(payloads, vec!["b", "c", "a"]);
        }
        other => panic!("unexpected reply {:?}", other),
    }
    match list_jobs(&JobQueue::new(5)) {
        JobReply::Listing(jobs) => assert!(jobs.is_empty()),
        other => panic!("unexpected reply {:?}", other),
    }
}

#[test]
fn listing_by_status_keeps_the_order() {
    let mut queue = JobQueue::new(5);
    let t = Timestamp::new(0, 0);
    create_job_at(&mut queue, request("a", Some(JobPriority::Low)), t);
    create_job_at(&mut queue, request("b", Some(JobPriority::High)), t);
    create_job_at(&mut queue, request("c", None), t);
    create_job_at(&mut queue, request("d", None), t);
    queue.get_next_pending_job_at(t).unwrap();
    queue.update_job_status_at(4, JobStatus::Failed, Some("no".to_string()), t);

    let ids_with = |status: JobStatus| -> Vec<u64> {
        match list_jobs_by_status(&queue, &StatusJobQuery { status }) {
            JobReply::Listing(jobs) => {
                assert!(jobs.iter().all(|j| j.status == status));
                jobs.iter().map(|j| j.job_id).collect()
            }
            other => panic!("unexpected reply {:?}", other),
        }
    };
    assert_eq!(ids_with(JobStatus::Pending), vec![3, 1]);
    assert_eq!(ids_with(JobStatus::Running), vec![2]);
    assert_eq!(ids_with(JobStatus::Failed), vec![4]);
    assert_eq!(ids_with(JobStatus::Completed), Vec::<u64>::new());
}
