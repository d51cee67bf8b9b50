//! The customer launcher protocol and the worker's decisions: which launcher
//! answers are proof, when the queue is polled, and how launches are summed up.
use vstd::prelude::*;
use crate::api::{AttachmentStatus, CleanupStatus};
use crate::text::{contains_char, text_equal};
use crate::runtime::{poll_delay, spec_poll_delay};
use crate::transport::{TransportFailure, backoff, backoff_base};

verus! {

/// Why the worker refused a launcher answer or a step.
#[derive(Debug, Clone, Copy, PartialEq, Eq, Structural)]
pub enum WorkerError {
    UnprovenIdentity,
    IdentityMismatch,
    HandleChanged,
    MissingEvidence,
    StillLive,
    MissingHandle,
    Contradiction,
    TerminatedBeforeReady,
    StartupDeadlineExpired,
    InvalidAttachment,
    CapacityExceeded,
    StateMismatch,
}

impl WorkerError {
    /// The message reported for this refusal.
    pub fn message(&self) -> (r: &'static str)
        ensures
            *self == WorkerError::StartupDeadlineExpired ==> r@ == "startup_deadline_expired"@,
            *self == WorkerError::TerminatedBeforeReady ==> r@ == "launcher_terminated_before_ready"@,
            *self == WorkerError::UnprovenIdentity ==> r@ == "launcher must prove sandbox identity, never a bare PID"@,
    {
        match self {
            WorkerError::UnprovenIdentity => "launcher must prove sandbox identity, never a bare PID",
            WorkerError::IdentityMismatch => "launcher identity mismatch",
            WorkerError::HandleChanged => "launcher handle changed",
            WorkerError::MissingEvidence => "missing teardown evidence",
            WorkerError::StillLive => "sandbox still live or unknown",
            WorkerError::MissingHandle => "missing sandbox handle proof",
            WorkerError::Contradiction => "launcher contradicted prior launch evidence",
            WorkerError::TerminatedBeforeReady => "launcher_terminated_before_ready",
            WorkerError::StartupDeadlineExpired => "startup_deadline_expired",
            WorkerError::InvalidAttachment => "invalid attachment identity",
            WorkerError::CapacityExceeded => "existing owned launches exceed concurrency; restore with original capacity",
            WorkerError::StateMismatch => "worker state identity mismatch",
        }
    }
}

/// A launcher's proof of the sandbox it created.
#[derive(Debug)]
pub struct Handle {
    pub kind: String,
    pub id: String,
    pub proof: String,
}

impl Handle {
    /// A handle proves a sandbox: a container or sandbox kind, an id and a proof.
    pub open spec fn spec_valid(&self) -> bool {
        (self.kind@ == "container"@ || self.kind@ == "sandbox"@) && self.id@.len() > 0 && self.proof@.len() > 0
    }

    /// Accepts a handle only if it proves a sandbox identity, never a bare PID.
    pub fn validate(&self) -> (r: Result<(), WorkerError>)
        ensures
            r is Ok <==> self.spec_valid(),
            r is Err ==> r == Err::<(), WorkerError>(WorkerError::UnprovenIdentity),
    {
        let kind = text_equal(self.kind.as_str(), "container") || text_equal(self.kind.as_str(), "sandbox");
        if !kind || self.id.as_str().is_empty() || self.proof.as_str().is_empty() {
            return Err(WorkerError::UnprovenIdentity);
        }
        Ok(())
    }

    /// Whether both handles are the same.
    pub fn same(&self, other: &Handle) -> (r: bool)
        ensures
            r == (self.kind@ == other.kind@ && self.id@ == other.id@ && self.proof@ == other.proof@),
    {
        self.kind == other.kind && self.id == other.id && self.proof == other.proof
    }

    /// A copy of this handle.
    pub fn duplicate(&self) -> (r: Handle)
        ensures
            r.kind@ == self.kind@ && r.id@ == self.id@ && r.proof@ == self.proof@,
    {
        Handle { kind: self.kind.clone(), id: self.id.clone(), proof: self.proof.clone() }
    }
}

/// A launcher's answer.
#[derive(Debug)]
pub struct Response {
    pub version: u32,
    pub launch_id: String,
    pub status: String,
    pub handle: Option<Handle>,
    pub evidence: Option<String>,
}

/// Accepts a decoded launcher answer to the request for `launch_id`: protocol
/// version 1, the same launch, and a valid handle when it names one.
pub fn validate_response(response: &Response, launch_id: &str) -> (r: Result<(), WorkerError>)
    ensures
        (response.version != 1 || response.launch_id@ != launch_id@) ==> r == Err::<(), WorkerError>(
            WorkerError::IdentityMismatch,
        ),
        !(response.version != 1 || response.launch_id@ != launch_id@) ==> match response.handle {
            Some(h) => (r is Ok <==> h.spec_valid()) && (r is Err ==> r == Err::<(), WorkerError>(
                WorkerError::UnprovenIdentity,
            )),
            None => r is Ok,
        },
{
    if response.version != 1 || !text_equal(response.launch_id.as_str(), launch_id) {
        return Err(WorkerError::IdentityMismatch);
    }
    match &response.handle {
        Some(h) => h.validate(),
        None => Ok(()),
    }
}

/// A launcher status that says the sandbox is gone or never existed.
pub open spec fn spec_finished(status: Seq<char>) -> bool {
    status == "terminated"@ || status == "not_launched"@
}

/// Whether a launcher status says the sandbox is gone or never existed.
pub fn finished(status: &str) -> (r: bool)
    ensures
        r == spec_finished(status@),
{
    text_equal(status, "terminated") || text_equal(status, "not_launched")
}

/// The evidence of a teardown answer: nonempty evidence, a finished status, and a
/// handle proving which sandbox terminated.
pub fn teardown_evidence(response: &Response) -> (r: Result<String, WorkerError>)
    ensures
        !(response.evidence matches Some(e) && e@.len() > 0) ==> r == Err::<String, WorkerError>(WorkerError::MissingEvidence),
        (response.evidence matches Some(e) && e@.len() > 0) ==> {
            if !spec_finished(response.status@) {
                r == Err::<String, WorkerError>(WorkerError::StillLive)
            } else if response.status@ == "terminated"@ && response.handle is None {
                r == Err::<String, WorkerError>(WorkerError::MissingHandle)
            } else {
                r matches Ok(x) && x@ == response.evidence->0@
            }
        },
{
    let evidence = match &response.evidence {
        Some(e) => if e.as_str().is_empty() {
            return Err(WorkerError::MissingEvidence);
        } else {
            e.clone()
        },
        None => return Err(WorkerError::MissingEvidence),
    };
    if !finished(response.status.as_str()) {
        return Err(WorkerError::StillLive);
    }
    if text_equal(response.status.as_str(), "terminated") && response.handle.is_none() {
        return Err(WorkerError::MissingHandle);
    }
    Ok(evidence)
}

/// Refuses a teardown answer of `not_launched` after a launch was proven.
pub fn check_not_contradicted(status: &str, handle_known: bool) -> (r: Result<(), WorkerError>)
    ensures
        r is Err <==> (status@ == "not_launched"@ && handle_known),
        r is Err ==> r == Err::<(), WorkerError>(WorkerError::Contradiction),
{
    if text_equal(status, "not_launched") && handle_known {
        return Err(WorkerError::Contradiction);
    }
    Ok(())
}

/// Records the handle of a launcher answer: the first proof is kept; a later one
/// must be the same. Returns whether the launch state changed and must be saved.
pub fn record_response(known: &mut Option<Handle>, answered: Option<Handle>) -> (r: Result<bool, WorkerError>)
    ensures
        match answered {
            None => r == Ok::<bool, WorkerError>(false) && *final(known) == *old(known),
            Some(h) => match *old(known) {
                None => r == Ok::<bool, WorkerError>(true) && *final(known) == Some(h),
                Some(k) => *final(known) == *old(known) && if k.kind@ == h.kind@ && k.id@ == h.id@
                    && k.proof@ == h.proof@ {
                    r == Ok::<bool, WorkerError>(false)
                } else {
                    r == Err::<bool, WorkerError>(WorkerError::HandleChanged)
                },
            },
        },
{
    match answered {
        None => Ok(false),
        Some(h) => match known {
            None => {
                *known = Some(h);
                Ok(true)
            },
            Some(k) => if k.same(&h) {
                Ok(false)
            } else {
                Err(WorkerError::HandleChanged)
            },
        },
    }
}

/// An attachment status after which a launch is no longer monitored.
pub open spec fn spec_terminal(status: AttachmentStatus) -> bool {
    status == AttachmentStatus::Cleaned || status == AttachmentStatus::Stopping || status
        == AttachmentStatus::RecoveryRequired || status == AttachmentStatus::StartupExpired || status
        == AttachmentStatus::Abandoned
}

/// Whether monitoring ends at an attachment in `status`.
pub fn terminal(status: AttachmentStatus) -> (r: bool)
    ensures
        r == spec_terminal(status),
{
    match status {
        AttachmentStatus::Cleaned | AttachmentStatus::Stopping | AttachmentStatus::RecoveryRequired
        | AttachmentStatus::StartupExpired | AttachmentStatus::Abandoned => true,
        _ => false,
    }
}

/// A launcher may report its sandbox finished only after the executor was ready.
pub fn require_ready(ready: bool) -> (r: Result<(), WorkerError>)
    ensures
        r is Ok <==> ready,
        r is Err ==> r == Err::<(), WorkerError>(WorkerError::TerminatedBeforeReady),
{
    if !ready {
        return Err(WorkerError::TerminatedBeforeReady);
    }
    Ok(())
}

/// Startup fails when the attachment's startup expired, or when the executor is
/// not ready by the startup deadline.
pub fn startup_valid(status: AttachmentStatus, ready: bool, deadline_passed: bool) -> (r: Result<(), WorkerError>)
    ensures
        r is Err <==> (status == AttachmentStatus::StartupExpired || (!ready && deadline_passed)),
        r is Err ==> r == Err::<(), WorkerError>(WorkerError::StartupDeadlineExpired),
{
    if status == AttachmentStatus::StartupExpired || (!ready && deadline_passed) {
        return Err(WorkerError::StartupDeadlineExpired);
    }
    Ok(())
}

/// How a launch that failed with `reason` is reported: failed when its startup
/// expired or the launcher ended before readiness, otherwise requiring recovery.
pub fn failure_status(reason: &str) -> (r: &'static str)
    ensures
        (reason@ == "startup_deadline_expired"@ || reason@ == "launcher_terminated_before_ready"@) ==> r@ == "failed"@,
        !(reason@ == "startup_deadline_expired"@ || reason@ == "launcher_terminated_before_ready"@) ==> r@
            == "recovery_required"@,
{
    if text_equal(reason, "startup_deadline_expired") || text_equal(reason, "launcher_terminated_before_ready") {
        "failed"
    } else {
        "recovery_required"
    }
}

/// The outcome of a teardown the hosted side answered: requiring recovery when the
/// attachment does, otherwise completed; cleanup confirmed as the hosted side says.
pub fn teardown_result(status: AttachmentStatus, cleanup: CleanupStatus) -> (r: (&'static str, bool))
    ensures
        r.0@ == (if status == AttachmentStatus::RecoveryRequired { "recovery_required"@ } else { "completed"@ }),
        r.1 == (cleanup == CleanupStatus::Confirmed),
{
    (if status == AttachmentStatus::RecoveryRequired { "recovery_required" } else { "completed" }, cleanup
        == CleanupStatus::Confirmed)
}

/// How one launch ended.
#[derive(Debug)]
pub struct LaunchOutcome {
    pub status: String,
    pub cleanup_confirmed: bool,
}

/// How a worker run ended.
#[derive(Debug, Clone, Copy, PartialEq, Eq, Structural)]
pub enum WorkerStatus {
    Completed,
    Failed,
    RecoveryRequired,
    Cancelled,
}

/// The summary of a worker run.
#[derive(Debug, Clone, Copy, PartialEq, Eq, Structural)]
pub struct WorkerSummary {
    pub status: WorkerStatus,
    pub cleanup_confirmed: bool,
    /// The run was interrupted by a signal.
    pub signalled: bool,
    pub cancel_acknowledged: Option<bool>,
}

/// Some launch's cleanup is unconfirmed or it requires recovery.
pub open spec fn any_uncertain(results: Seq<LaunchOutcome>) -> bool {
    exists|i: int| 0 <= i < results.len() && (!(#[trigger] results[i]).cleanup_confirmed
        || results[i].status@ == "recovery_required"@)
}

/// Some launch failed.
pub open spec fn any_failed(results: Seq<LaunchOutcome>) -> bool {
    exists|i: int| 0 <= i < results.len() && (#[trigger] results[i]).status@ == "failed"@
}

/// Every launch's cleanup is confirmed.
pub open spec fn all_confirmed(results: Seq<LaunchOutcome>) -> bool {
    forall|i: int| 0 <= i < results.len() ==> (#[trigger] results[i]).cleanup_confirmed
}

/// The summary of the launches of a worker run: recovery is required when any is
/// uncertain, it failed when any failed, otherwise it completed.
pub fn worker_result(results: &Vec<LaunchOutcome>) -> (r: WorkerSummary)
    ensures
        r.status == (if any_uncertain(results@) {
            WorkerStatus::RecoveryRequired
        } else if any_failed(results@) {
            WorkerStatus::Failed
        } else {
            WorkerStatus::Completed
        }),
        r.cleanup_confirmed == all_confirmed(results@),
        !r.signalled,
        r.cancel_acknowledged is None,
{
    let mut uncertain = false;
    let mut failed = false;
    let mut confirmed = true;
    let mut i: usize = 0;
    while i < results.len()
        invariant
            i <= results@.len(),
            uncertain == any_uncertain(results@.take(i as int)),
            failed == any_failed(results@.take(i as int)),
            confirmed == all_confirmed(results@.take(i as int)),
        decreases results@.len() - i,
    {
        let r = &results[i];
        let ghost before = results@.take(i as int);
        let ghost after = results@.take(i + 1);
        assert(after =~= before.push(*r));
        let recovering = text_equal(r.status.as_str(), "recovery_required");
        let failing = text_equal(r.status.as_str(), "failed");
        proof {
            if any_uncertain(after) && !any_uncertain(before) {
                let k = choose|k: int| 0 <= k < after.len() && (!(#[trigger] after[k]).cleanup_confirmed
                    || after[k].status@ == "recovery_required"@);
                assert(k == i);
            }
            if any_uncertain(before) {
                let k = choose|k: int| 0 <= k < before.len() && (!(#[trigger] before[k]).cleanup_confirmed
                    || before[k].status@ == "recovery_required"@);
                assert(after[k] == before[k]);
            }
            if !r.cleanup_confirmed || recovering {
                assert(after[i as int] == *r);
            }
            if any_failed(after) && !any_failed(before) {
                let k = choose|k: int| 0 <= k < after.len() && (#[trigger] after[k]).status@ == "failed"@;
                assert(k == i);
            }
            if any_failed(before) {
                let k = choose|k: int| 0 <= k < before.len() && (#[trigger] before[k]).status@ == "failed"@;
                assert(after[k] == before[k]);
            }
            if failing {
                assert(after[i as int] == *r);
            }
            if all_confirmed(before) && r.cleanup_confirmed {
                assert forall|k: int| 0 <= k < after.len() implies (#[trigger] after[k]).cleanup_confirmed by {
                    if k < i {
                        assert(after[k] == before[k]);
                    }
                }
            }
            if !all_confirmed(before) {
                let k = choose|k: int| 0 <= k < before.len() && !(#[trigger] before[k]).cleanup_confirmed;
                assert(after[k] == before[k]);
            }
            if !r.cleanup_confirmed {
                assert(!after[i as int].cleanup_confirmed);
            }
        }
        uncertain = uncertain || !r.cleanup_confirmed || recovering;
        failed = failed || failing;
        confirmed = confirmed && r.cleanup_confirmed;
        i = i + 1;
    }
    assert(results@.take(results@.len() as int) =~= results@);
    let status = if uncertain {
        WorkerStatus::RecoveryRequired
    } else if failed {
        WorkerStatus::Failed
    } else {
        WorkerStatus::Completed
    };
    WorkerSummary { status, cleanup_confirmed: confirmed, signalled: false, cancel_acknowledged: None }
}

/// The summary of a worker run that ended `interrupted` by a signal or not: an
/// interrupted run that would have completed is cancelled, and its cancellation
/// is acknowledged exactly when every cleanup was confirmed.
pub fn shutdown_result(interrupted: bool, results: &Vec<LaunchOutcome>) -> (r: WorkerSummary)
    ensures
        ({
            let base = if any_uncertain(results@) {
                WorkerStatus::RecoveryRequired
            } else if any_failed(results@) {
                WorkerStatus::Failed
            } else {
                WorkerStatus::Completed
            };
            &&& r.status == (if interrupted && base == WorkerStatus::Completed { WorkerStatus::Cancelled } else { base })
            &&& r.cleanup_confirmed == all_confirmed(results@)
            &&& r.signalled == interrupted
            &&& r.cancel_acknowledged == (if interrupted { Some(all_confirmed(results@)) } else { None })
        }),
{
    let mut r = worker_result(results);
    if interrupted {
        if r.status == WorkerStatus::Completed {
            r.status = WorkerStatus::Cancelled;
        }
        r.signalled = true;
        r.cancel_acknowledged = Some(r.cleanup_confirmed);
    }
    r
}

/// What an admission round means for the next poll: after a page, the page's
/// delay and a reset failure count; after a transient failure, the next backoff;
/// any other failure ends the worker.
pub fn admission_delay(result: Result<u64, Option<TransportFailure>>, failures: &mut u32) -> (r: Result<(u64, bool), Option<TransportFailure>>)
    ensures
        match result {
            Ok(d) => r == Ok::<(u64, bool), Option<TransportFailure>>((d, true)) && *final(failures) == 0,
            Err(Some(TransportFailure::Transient)) => (r matches Ok((d, admitted)) && !admitted
                && backoff_base(*old(failures)) <= d < backoff_base(*old(failures)) + 100
                && exists|draw: u64| d == backoff_base(*old(failures)) + #[trigger] (draw % 100))
                && *final(failures) == (if *old(failures) == u32::MAX { u32::MAX } else { (*old(failures) + 1) as u32 }),
            Err(e) => r == Err::<(u64, bool), Option<TransportFailure>>(e) && *final(failures) == *old(failures),
        },
{
    match result {
        Ok(d) => {
            *failures = 0;
            Ok((d, true))
        },
        Err(Some(TransportFailure::Transient)) => Ok((backoff(failures), false)),
        Err(e) => Err(e),
    }
}

/// What one admission round asks of the queue and takes from its answer.
#[derive(Debug, Clone, Copy, PartialEq, Eq, Structural)]
pub struct AdmissionPlan {
    /// How many attachments to ask for: the free launch slots.
    pub limit: u64,
    /// How many of the `offered` attachments to consider, in order.
    pub take: u64,
    /// The delay before the next poll, in milliseconds.
    pub delay_ms: u64,
}

/// The admission round of a worker running `active` launches of `capacity`: it
/// asks the queue for as many attachments as there are free slots, considers at
/// most that many of the `offered` ones, and polls again after the page's hint,
/// one second without one, kept between one and five seconds.
pub fn admission_plan(active: u64, capacity: u64, offered: u64, hint: Option<i64>) -> (r: AdmissionPlan)
    requires
        active <= capacity,
    ensures
        r.limit == capacity - active,
        r.take == (if offered < capacity - active { offered } else { (capacity - active) as u64 }),
        r.delay_ms == spec_poll_delay(hint) * 1000,
{
    let free = capacity - active;
    let take = if offered < free { offered } else { free };
    let seconds = poll_delay(hint);
    AdmissionPlan { limit: free, take, delay_ms: seconds * 1000 }
}

/// The queue is polled when a launch slot is free, the worker is not draining a
/// single page, and the poll time has come.
pub fn queue_due(active: u64, capacity: u64, once: bool, now_ms: u64, poll_at_ms: u64) -> (r: bool)
    ensures
        r == (active < capacity && !once && now_ms >= poll_at_ms),
{
    active < capacity && !once && now_ms >= poll_at_ms
}

/// Whether an attachment from the queue starts a new launch: one already owned is
/// passed over; an identity that could escape the state directory is refused.
pub fn admission_key(entries: &Vec<String>, key: &str) -> (r: Result<bool, WorkerError>)
    ensures
        (exists|i: int| 0 <= i < entries@.len() && (#[trigger] entries@[i])@ == key@) ==> r == Ok::<bool, WorkerError>(false),
        !(exists|i: int| 0 <= i < entries@.len() && (#[trigger] entries@[i])@ == key@) ==> if key@.contains('/')
            || key@ == ".."@ {
            r == Err::<bool, WorkerError>(WorkerError::InvalidAttachment)
        } else {
            r == Ok::<bool, WorkerError>(true)
        },
{
    let mut i: usize = 0;
    while i < entries.len()
        invariant
            i <= entries@.len(),
            forall|k: int| 0 <= k < i ==> (#[trigger] entries@[k])@ != key@,
        decreases entries@.len() - i,
    {
        if text_equal(entries[i].as_str(), key) {
            return Ok(false);
        }
        i = i + 1;
    }
    if contains_char(key, '/') || text_equal(key, "..") {
        return Err(WorkerError::InvalidAttachment);
    }
    Ok(true)
}

/// Refuses to restore more unfinished launches than the worker may run at once.
pub fn restore_capacity(active: u64, capacity: u64) -> (r: Result<(), WorkerError>)
    ensures
        r is Ok <==> active <= capacity,
        r is Err ==> r == Err::<(), WorkerError>(WorkerError::CapacityExceeded),
{
    if active > capacity {
        return Err(WorkerError::CapacityExceeded);
    }
    Ok(())
}

/// A worker's saved state belongs to the bootstrap's project and environment.
pub fn same_worker(project: &str, environment: &str, expected_project: &str, expected_environment: &str) -> (r: Result<(), WorkerError>)
    ensures
        r is Ok <==> (project@ == expected_project@ && environment@ == expected_environment@),
        r is Err ==> r == Err::<(), WorkerError>(WorkerError::StateMismatch),
{
    if !text_equal(project, expected_project) || !text_equal(environment, expected_environment) {
        return Err(WorkerError::StateMismatch);
    }
    Ok(())
}

/// How the hosted side answered a claim.
#[derive(Debug, Clone, Copy, PartialEq, Eq, Structural)]
pub enum ClaimAnswer {
    Claimed,
    /// Another worker holds the attachment.
    Conflict,
    /// No answer, or an answer that proves nothing.
    Unknown,
}

/// What a claim answer means: `Some(true)` to launch, `Some(false)` when another
/// worker owns the attachment and this launch is done, nothing when unknown.
pub fn claim_step(answer: ClaimAnswer) -> (r: Option<bool>)
    ensures
        answer == ClaimAnswer::Claimed ==> r == Some(true),
        answer == ClaimAnswer::Conflict ==> r == Some(false),
        answer == ClaimAnswer::Unknown ==> r is None,
{
    match answer {
        ClaimAnswer::Claimed => Some(true),
        ClaimAnswer::Conflict => Some(false),
        ClaimAnswer::Unknown => None,
    }
}

} // verus!
