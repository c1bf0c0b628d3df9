//! The job queue's rules: how a job is claimed, finished, retried with
//! exponential backoff or given up, and how many candidates a claim tries.

use vstd::prelude::*;

use crate::entities::jobs::{JobStatus, Model};
use crate::format::UtcTime;
use crate::text::clone_opt_string;

verus! {

/// The queue's storage adapter.
pub struct JobRepositoryAdapter;

impl JobRepositoryAdapter {
    pub fn new() -> (r: Self) {
        JobRepositoryAdapter
    }
}

/// Base delay before a failed job is retried, in seconds.
pub const BACKOFF_BASE_SECS: i64 = 30;

/// The backoff doubles per attempt up to this many doublings.
pub const MAX_BACKOFF_SHIFT: i16 = 20;

/// How many candidates one claim tries before giving up.
pub const MAX_CLAIM_ATTEMPTS: u32 = 5;

pub open spec fn two_pow(n: nat) -> nat
    decreases n,
{
    if n == 0 {
        1
    } else {
        2 * two_pow((n - 1) as nat)
    }
}

proof fn lemma_two_pow_mono(a: nat, b: nat)
    requires
        a <= b,
    ensures
        two_pow(a) <= two_pow(b),
    decreases b,
{
    if a < b {
        lemma_two_pow_mono(a, (b - 1) as nat);
    }
}

/// The retry delay after attempt `attempt`: 30 s doubled per attempt, at
/// most 20 times.
pub open spec fn backoff_spec(attempt: int) -> int {
    (30 * two_pow((if attempt < 20 { attempt } else { 20 }) as nat)) as int
}

/// The retry delay, in seconds, after attempt `attempt`.
pub fn backoff_seconds(attempt: i16) -> (r: i64)
    requires
        attempt >= 0,
    ensures
        r == backoff_spec(attempt as int),
{
    let shift: i16 = if attempt < MAX_BACKOFF_SHIFT { attempt } else { MAX_BACKOFF_SHIFT };
    let mut p: i64 = 1;
    let mut i: i16 = 0;
    proof {
        reveal_with_fuel(two_pow, 21);
    }
    while i < shift
        invariant
            0 <= i <= shift <= 20,
            p == two_pow(i as nat),
        decreases shift - i,
    {
        proof {
            lemma_two_pow_mono((i + 1) as nat, 20);
            reveal_with_fuel(two_pow, 21);
        }
        p = p * 2;
        i = i + 1;
    }
    proof {
        lemma_two_pow_mono(shift as nat, 20);
        reveal_with_fuel(two_pow, 21);
    }
    BACKOFF_BASE_SECS * p
}

/// The backoff never shrinks from one attempt to the next, and never
/// exceeds 30 · 2^20 seconds.
pub proof fn lemma_backoff_monotone_capped(a: int, b: int)
    requires
        0 <= a <= b,
    ensures
        backoff_spec(a) <= backoff_spec(b),
        backoff_spec(b) <= 30 * two_pow(20),
        backoff_spec(a) >= 30,
{
    let sa: nat = (if a < 20 { a } else { 20 }) as nat;
    let sb: nat = (if b < 20 { b } else { 20 }) as nat;
    lemma_two_pow_mono(sa, sb);
    lemma_two_pow_mono(sb, 20);
    lemma_two_pow_mono(0, sa);
}

/// `t` moved by `secs` whole seconds.
pub open spec fn plus_secs(t: UtcTime, secs: int) -> UtcTime {
    UtcTime { secs: (t.secs + secs) as i64, nanos: t.nanos }
}

/// The row after a successful claim at `now`.
pub open spec fn claimed_spec(job: Model, now: UtcTime) -> Model {
    Model {
        status: JobStatus::Running,
        attempt: (job.attempt + 1) as i16,
        started_at: Some(now),
        version: (job.version + 1) as i32,
        updated_at: now,
        ..job
    }
}

/// The row after completion at `now`.
pub open spec fn completed_spec(job: Model, now: UtcTime) -> Model {
    Model {
        status: JobStatus::Completed,
        completed_at: Some(now),
        version: (job.version + 1) as i32,
        updated_at: now,
        ..job
    }
}

/// The row after a failure at `now`: back to pending after the backoff while
/// attempts remain, else failed for good.
pub open spec fn failed_spec(job: Model, error: String, now: UtcTime) -> Model {
    if job.attempt < job.max_attempts {
        Model {
            status: JobStatus::Pending,
            scheduled_at: plus_secs(now, backoff_spec(job.attempt as int)),
            error_message: Some(error),
            version: (job.version + 1) as i32,
            updated_at: now,
            ..job
        }
    } else {
        failed_terminal_spec(job, error, now)
    }
}

/// The row after a failure that must not be retried.
pub open spec fn failed_terminal_spec(job: Model, error: String, now: UtcTime) -> Model {
    Model {
        status: JobStatus::Failed,
        completed_at: Some(now),
        error_message: Some(error),
        version: (job.version + 1) as i32,
        updated_at: now,
        ..job
    }
}

/// A running job put back in the queue (after a restart).
pub open spec fn reset_spec(job: Model, now: UtcTime) -> Model {
    Model { status: JobStatus::Pending, version: (job.version + 1) as i32, updated_at: now, ..job }
}

fn copy_job(job: &Model) -> (r: Model)
    ensures
        r == *job,
{
    Model {
        id: job.id,
        job_type: job.job_type.clone(),
        payload: job.payload.clone(),
        status: job.status,
        priority: job.priority,
        attempt: job.attempt,
        max_attempts: job.max_attempts,
        version: job.version,
        scheduled_at: job.scheduled_at,
        started_at: job.started_at,
        completed_at: job.completed_at,
        error_message: clone_opt_string(&job.error_message),
        created_at: job.created_at,
        updated_at: job.updated_at,
    }
}

impl JobRepositoryAdapter {
    /// The row a successful claim leaves: running, one more attempt, started
    /// now.
    pub fn claimed(&self, job: &Model, now: UtcTime) -> (r: Model)
        requires
            job.attempt < i16::MAX,
            job.version < i32::MAX,
        ensures
            r == claimed_spec(*job, now),
    {
        let mut r = copy_job(job);
        r.status = JobStatus::Running;
        r.attempt = job.attempt + 1;
        r.started_at = Some(now);
        r.version = job.version + 1;
        r.updated_at = now;
        r
    }

    /// The row completion leaves.
    pub fn completed(&self, job: &Model, now: UtcTime) -> (r: Model)
        requires
            job.version < i32::MAX,
        ensures
            r == completed_spec(*job, now),
    {
        let mut r = copy_job(job);
        r.status = JobStatus::Completed;
        r.completed_at = Some(now);
        r.version = job.version + 1;
        r.updated_at = now;
        r
    }

    /// The row a failure leaves: rescheduled after the backoff while
    /// attempts remain, else failed for good.
    pub fn failed(&self, job: &Model, error: String, now: UtcTime) -> (r: Model)
        requires
            job.version < i32::MAX,
            job.attempt >= 0,
            now.secs + 30 * two_pow(20) < i64::MAX,
        ensures
            r == failed_spec(*job, error, now),
    {
        if job.attempt < job.max_attempts {
            let delay = backoff_seconds(job.attempt);
            proof {
                lemma_backoff_monotone_capped(job.attempt as int, job.attempt as int);
            }
            let mut r = copy_job(job);
            r.status = JobStatus::Pending;
            r.scheduled_at = UtcTime { secs: now.secs + delay, nanos: now.nanos };
            r.error_message = Some(error);
            r.version = job.version + 1;
            r.updated_at = now;
            r
        } else {
            self.failed_terminal(job, error, now)
        }
    }

    /// The row a failure that must not be retried leaves.
    pub fn failed_terminal(&self, job: &Model, error: String, now: UtcTime) -> (r: Model)
        requires
            job.version < i32::MAX,
        ensures
            r == failed_terminal_spec(*job, error, now),
    {
        let mut r = copy_job(job);
        r.status = JobStatus::Failed;
        r.completed_at = Some(now);
        r.error_message = Some(error);
        r.version = job.version + 1;
        r.updated_at = now;
        r
    }

    /// The row a running job is reset to when the worker restarts.
    pub fn reset_to_pending(&self, job: &Model, now: UtcTime) -> (r: Model)
        requires
            job.version < i32::MAX,
        ensures
            r == reset_spec(*job, now),
    {
        let mut r = copy_job(job);
        r.status = JobStatus::Pending;
        r.version = job.version + 1;
        r.updated_at = now;
        r
    }
}

/// A job is counted as outstanding while pending or running.
pub fn is_outstanding(status: JobStatus) -> (r: bool)
    ensures
        r == (status == JobStatus::Pending || status == JobStatus::Running),
{
    match status {
        JobStatus::Pending | JobStatus::Running => true,
        _ => false,
    }
}

/// `a` comes before `b` (instants ordered by second, then by fraction).
pub open spec fn earlier(a: UtcTime, b: UtcTime) -> bool {
    a.secs < b.secs || (a.secs == b.secs && a.nanos < b.nanos)
}

/// A finished job (completed or failed) that finished before `cutoff` may be
/// deleted.
pub fn is_expired(job: &Model, cutoff: UtcTime) -> (r: bool)
    ensures
        r == ((job.status == JobStatus::Completed || job.status == JobStatus::Failed) && match job.completed_at {
            Some(t) => earlier(t, cutoff),
            None => false,
        }),
{
    let finished = match job.status {
        JobStatus::Completed | JobStatus::Failed => true,
        _ => false,
    };
    if !finished {
        return false;
    }
    match job.completed_at {
        Some(t) => t.secs < cutoff.secs || (t.secs == cutoff.secs && t.nanos < cutoff.nanos),
        None => false,
    }
}

/// Every change of a job's row bumps its version by one, so a writer holding
/// a stale copy is refused.
pub proof fn lemma_transitions_bump_version(job: Model, error: String, now: UtcTime)
    requires
        job.version < i32::MAX,
        job.attempt < i16::MAX,
    ensures
        claimed_spec(job, now).version == job.version + 1,
        completed_spec(job, now).version == job.version + 1,
        failed_spec(job, error, now).version == job.version + 1,
        failed_terminal_spec(job, error, now).version == job.version + 1,
        reset_spec(job, now).version == job.version + 1,
{
}

/// A failure is retried while attempts remain and is final once the budget
/// is spent; a retried job is pending again, due after the backoff, and
/// keeps its attempt count.
pub proof fn lemma_failure_retries_within_budget(job: Model, error: String, now: UtcTime)
    ensures
        job.attempt < job.max_attempts ==> failed_spec(job, error, now).status == JobStatus::Pending
            && failed_spec(job, error, now).scheduled_at == plus_secs(now, backoff_spec(job.attempt as int))
            && failed_spec(job, error, now).attempt == job.attempt,
        job.attempt >= job.max_attempts ==> failed_spec(job, error, now).status == JobStatus::Failed
            && failed_spec(job, error, now).completed_at == Some(now),
        failed_spec(job, error, now).error_message == Some(error),
{
}

/// The next step of a claim.
#[derive(Clone, Copy, Debug, PartialEq, Eq)]
pub enum ClaimStep {
    /// Select the best due pending job.
    Select,
    /// Try to take that job: running, guarded by its version.
    TryClaim { id: i64, version: i32 },
    /// Taken: read the job back.
    Fetch(i64),
    /// Nothing to claim (or every candidate was taken by another worker).
    NoJob,
}

/// A claim in progress: how many candidates were selected so far.
#[derive(Clone, Copy, Debug, PartialEq, Eq)]
pub struct ClaimLoop {
    pub selects: u32,
}

impl ClaimLoop {
    pub open spec fn wf(self) -> bool {
        self.selects <= MAX_CLAIM_ATTEMPTS
    }

    /// A claim begins by selecting the first candidate.
    pub fn start() -> (r: (ClaimLoop, ClaimStep))
        ensures
            r.0.selects == 1,
            r.1 == ClaimStep::Select,
    {
        (ClaimLoop { selects: 1 }, ClaimStep::Select)
    }

    /// The select answered: no due job ends the claim, else try to take it.
    pub fn on_candidate(&self, candidate: Option<(i64, i32)>) -> (r: ClaimStep)
        ensures
            match candidate {
                None => r == ClaimStep::NoJob,
                Some((id, version)) => r == (ClaimStep::TryClaim { id, version }),
            },
    {
        match candidate {
            None => ClaimStep::NoJob,
            Some((id, version)) => ClaimStep::TryClaim { id, version },
        }
    }

    /// The guarded update of candidate `id` answered: one row taken means
    /// the job is ours; otherwise another worker was faster, and the next
    /// candidate is selected while the budget lasts.
    pub fn on_claim(&mut self, id: i64, rows_affected: u64) -> (r: ClaimStep)
        requires
            old(self).wf(),
        ensures
            final(self).wf(),
            rows_affected == 1 ==> r == ClaimStep::Fetch(id) && final(self).selects == old(self).selects,
            rows_affected != 1 && old(self).selects < MAX_CLAIM_ATTEMPTS ==> r == ClaimStep::Select,
            rows_affected != 1 && old(self).selects < MAX_CLAIM_ATTEMPTS ==> final(self).selects == old(self).selects + 1,
            rows_affected != 1 && old(self).selects >= MAX_CLAIM_ATTEMPTS ==> r == ClaimStep::NoJob,
            rows_affected != 1 && old(self).selects >= MAX_CLAIM_ATTEMPTS ==> final(self).selects == old(self).selects,
    {
        if rows_affected == 1 {
            return ClaimStep::Fetch(id);
        }
        if self.selects < MAX_CLAIM_ATTEMPTS {
            self.selects = self.selects + 1;
            ClaimStep::Select
        } else {
            ClaimStep::NoJob
        }
    }
}

} // verus!
