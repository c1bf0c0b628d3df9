//! The `jobs` table: the background work queue.

use vstd::prelude::*;

use crate::format::UtcTime;
use crate::text::str_eq;

verus! {

/// Where a job is in its life.
#[derive(Clone, Copy, Debug, PartialEq, Eq)]
pub enum JobStatus {
    Pending,
    Running,
    Completed,
    Failed,
}

/// One row of the queue.
#[derive(Clone, Debug, PartialEq)]
pub struct Model {
    pub id: i64,
    pub job_type: String,
    /// The job's arguments as JSON text.
    pub payload: String,
    pub status: JobStatus,
    pub priority: i16,
    pub attempt: i16,
    pub max_attempts: i16,
    pub version: i32,
    pub scheduled_at: UtcTime,
    pub started_at: Option<UtcTime>,
    pub completed_at: Option<UtcTime>,
    pub error_message: Option<String>,
    pub created_at: UtcTime,
    pub updated_at: UtcTime,
}

pub open spec fn status_name(s: JobStatus) -> Seq<char> {
    match s {
        JobStatus::Pending => "Pending"@,
        JobStatus::Running => "Running"@,
        JobStatus::Completed => "Completed"@,
        JobStatus::Failed => "Failed"@,
    }
}

/// The status as stored.
pub fn job_status_to_str(status: &JobStatus) -> (r: &'static str)
    ensures
        r@ == status_name(*status),
{
    match status {
        JobStatus::Pending => "Pending",
        JobStatus::Running => "Running",
        JobStatus::Completed => "Completed",
        JobStatus::Failed => "Failed",
    }
}

/// A stored status name; the table holds no other.
pub open spec fn is_status_name(s: Seq<char>) -> bool {
    exists|st: JobStatus| status_name(st) == s
}

/// The status a stored name stands for.
pub fn str_to_job_status(s: &str) -> (r: JobStatus)
    requires
        is_status_name(s@),
    ensures
        status_name(r) == s@,
{
    proof {
        let st = choose|st: JobStatus| status_name(st) == s@;
        reveal_strlit("Pending");
        reveal_strlit("Running");
        reveal_strlit("Completed");
        reveal_strlit("Failed");
        assert(status_name(st) == s@);
    }
    if str_eq(s, "Pending") {
        JobStatus::Pending
    } else if str_eq(s, "Running") {
        JobStatus::Running
    } else if str_eq(s, "Completed") {
        JobStatus::Completed
    } else {
        JobStatus::Failed
    }
}

/// Reading back a stored status gives the status that was stored.
pub proof fn lemma_status_round_trip(st: JobStatus)
    ensures
        is_status_name(status_name(st)),
        forall|t: JobStatus| status_name(t) == status_name(st) ==> t == st,
{
    reveal_strlit("Pending");
    reveal_strlit("Running");
    reveal_strlit("Completed");
    reveal_strlit("Failed");
    assert forall|t: JobStatus| status_name(t) == status_name(st) implies t == st by {
        if t != st {
            assert(status_name(t).len() != status_name(st).len() || status_name(t)[0] != status_name(st)[0]);
        }
    }
}

/// Default retry budget of a new job.
pub const DEFAULT_MAX_ATTEMPTS: i16 = 3;

impl Model {
    /// A new pending job, runnable from `scheduled_at`, with no attempt made
    /// and the default retry budget.
    pub fn new_pending(
        id: i64,
        job_type: String,
        payload: String,
        priority: i16,
        scheduled_at: UtcTime,
        now: UtcTime,
    ) -> (r: Model)
        ensures
            r.id == id,
            r.job_type == job_type,
            r.payload == payload,
            r.status == JobStatus::Pending,
            r.priority == priority,
            r.attempt == 0,
            r.max_attempts == DEFAULT_MAX_ATTEMPTS,
            r.version == 0,
            r.scheduled_at == scheduled_at,
            r.started_at is None,
            r.completed_at is None,
            r.error_message is None,
            r.created_at == now,
            r.updated_at == now,
    {
        Model {
            id,
            job_type,
            payload,
            status: JobStatus::Pending,
            priority,
            attempt: 0,
            max_attempts: DEFAULT_MAX_ATTEMPTS,
            version: 0,
            scheduled_at,
            started_at: None,
            completed_at: None,
            error_message: None,
            created_at: now,
            updated_at: now,
        }
    }
}

} // verus!
