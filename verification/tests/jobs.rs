use mailkeep::adapters::jobs::{backoff_seconds, is_expired, is_outstanding, ClaimLoop, ClaimStep, JobRepositoryAdapter};
use mailkeep::entities::jobs::{job_status_to_str, str_to_job_status, JobStatus, Model};
use mailkeep::format::UtcTime;

fn t(secs: i64) -> UtcTime {
    UtcTime { secs, nanos: 0 }
}

fn job() -> Model {
    Model::new_pending(1, "process_import".into(), "{\"import_job_id\":42}".into(), 1, t(100), t(100))
}

#[test]
fn new_job_defaults() {
    let j = job();
    assert_eq!(j.status, JobStatus::Pending);
    assert_eq!(j.attempt, 0);
    assert_eq!(j.max_attempts, 3);
    assert_eq!(j.version, 0);
    assert_eq!(j.priority, 1);
}

#[test]
fn backoff_doubles_and_caps() {
    assert_eq!(backoff_seconds(0), 30);
    assert_eq!(backoff_seconds(1), 60);
    assert_eq!(backoff_seconds(3), 240);
    assert_eq!(backoff_seconds(20), 30 * (1 << 20));
    assert_eq!(backoff_seconds(25), 30 * (1 << 20));
}

#[test]
fn version_bumps_through_a_life() {
    let q = JobRepositoryAdapter::new();
    let j = job();
    let claimed = q.claimed(&j, t(200));
    assert_eq!(claimed.status, JobStatus::Running);
    assert_eq!(claimed.attempt, 1);
    assert_eq!(claimed.started_at, Some(t(200)));
    assert_eq!(claimed.version, 1);
    let done = q.completed(&claimed, t(300));
    assert_eq!(done.status, JobStatus::Completed);
    assert_eq!(done.completed_at, Some(t(300)));
    assert_eq!(done.version, 2);
}

#[test]
fn failure_retries_then_gives_up() {
    let q = JobRepositoryAdapter::new();
    let claimed = q.claimed(&job(), t(200));
    let retried = q.failed(&claimed, "boom".into(), t(250));
    assert_eq!(retried.status, JobStatus::Pending);
    assert_eq!(retried.scheduled_at, t(250 + 60));
    assert_eq!(retried.error_message.as_deref(), Some("boom"));
    let mut exhausted = claimed.clone();
    exhausted.attempt = 3;
    let failed = q.failed(&exhausted, "again".into(), t(400));
    assert_eq!(failed.status, JobStatus::Failed);
    assert_eq!(failed.completed_at, Some(t(400)));
    let terminal = q.failed_terminal(&claimed, "fatal".into(), t(500));
    assert_eq!(terminal.status, JobStatus::Failed);
    assert_eq!(terminal.attempt, 1);
    let reset = q.reset_to_pending(&claimed, t(600));
    assert_eq!(reset.status, JobStatus::Pending);
    assert_eq!(reset.version, claimed.version + 1);
}

#[test]
fn status_names_round_trip() {
    for s in [JobStatus::Pending, JobStatus::Running, JobStatus::Completed, JobStatus::Failed] {
        assert_eq!(str_to_job_status(job_status_to_str(&s)), s);
    }
    assert!(is_outstanding(JobStatus::Running));
    assert!(!is_outstanding(JobStatus::Failed));
}

#[test]
fn expiry_needs_a_finished_job_before_the_cutoff() {
    let q = JobRepositoryAdapter::new();
    let done = q.completed(&q.claimed(&job(), t(1)), t(10));
    assert!(is_expired(&done, t(11)));
    assert!(!is_expired(&done, t(10)));
    assert!(!is_expired(&job(), t(1_000)));
}

#[test]
fn claim_gives_up_after_five_lost_races() {
    let (mut c, step) = ClaimLoop::start();
    assert_eq!(step, ClaimStep::Select);
    let mut selects = 1;
    loop {
        match c.on_candidate(Some((7, 3))) {
            ClaimStep::TryClaim { id, version } => {
                assert_eq!((id, version), (7, 3));
                match c.on_claim(id, 0) {
                    ClaimStep::Select => selects += 1,
                    ClaimStep::NoJob => break,
                    other => panic!("unexpected {other:?}"),
                }
            }
            other => panic!("unexpected {other:?}"),
        }
    }
    assert_eq!(selects, 5);
    let (mut c, _) = ClaimLoop::start();
    assert_eq!(c.on_candidate(None), ClaimStep::NoJob);
    assert_eq!(c.on_claim(7, 1), ClaimStep::Fetch(7));
}
