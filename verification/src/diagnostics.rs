//! Stable advice for failures; it never quotes a remote body, token or URL.
use vstd::prelude::*;
use crate::text::text_equal;
use crate::transport::{ApiFailure, TransportFailure, classify, spec_classify};

verus! {

/// The agent has no release this session can be admitted to.
#[derive(Debug, Clone, Copy, PartialEq, Eq, Structural)]
pub struct UnavailableRelease;

impl UnavailableRelease {
    /// The stable code of this refusal.
    pub fn message(&self) -> (r: &'static str)
        ensures
            r@ == "agent_release_unavailable"@,
    {
        "agent_release_unavailable"
    }
}

/// The text of the advice for a failure of class `failure`.
pub open spec fn spec_advice(failure: Option<TransportFailure>) -> Seq<char> {
    match failure {
        Some(TransportFailure::Rejected(401)) => "Authentication failed. Run sikaru auth login, then resume the saved state directory."@,
        Some(TransportFailure::Rejected(402)) => "Billing blocked this request. Check the team's subscription and available budget, then resume the saved state directory."@,
        Some(TransportFailure::Rejected(403)) => "Access denied. Check that your API key has access to this project and the required scopes."@,
        Some(TransportFailure::Rejected(404)) => "Resource not found. Check --project and --agent, or your saved session's availability."@,
        Some(TransportFailure::Transient) => "The service could not be reached or is temporarily unavailable. Check connectivity and service status; preserve the state directory for explicit resume."@,
        _ => "Preserve the original workspace and state directory. Inspect the saved run before resuming; do not start a replacement run to retry an uncertain action."@,
    }
}

/// The next step after a failed run, never quoting a remote body, token or URL.
pub fn advice(failure: Option<TransportFailure>) -> (r: &'static str)
    ensures
        r@ == spec_advice(failure),
        failure == Some(TransportFailure::Rejected(401)) ==> r@
            == "Authentication failed. Run sikaru auth login, then resume the saved state directory."@,
        failure == Some(TransportFailure::Rejected(402)) ==> r@
            == "Billing blocked this request. Check the team's subscription and available budget, then resume the saved state directory."@,
        failure == Some(TransportFailure::Rejected(403)) ==> r@
            == "Access denied. Check that your API key has access to this project and the required scopes."@,
        failure == Some(TransportFailure::Rejected(404)) ==> r@
            == "Resource not found. Check --project and --agent, or your saved session's availability."@,
        failure == Some(TransportFailure::Transient) ==> r@
            == "The service could not be reached or is temporarily unavailable. Check connectivity and service status; preserve the state directory for explicit resume."@,
        !(failure == Some(TransportFailure::Rejected(401)) || failure == Some(TransportFailure::Rejected(402))
            || failure == Some(TransportFailure::Rejected(403)) || failure == Some(TransportFailure::Rejected(404))
            || failure == Some(TransportFailure::Transient)) ==> r@
            == "Preserve the original workspace and state directory. Inspect the saved run before resuming; do not start a replacement run to retry an uncertain action."@,
{
    match failure {
        Some(TransportFailure::Rejected(401)) => "Authentication failed. Run sikaru auth login, then resume the saved state directory.",
        Some(TransportFailure::Rejected(402)) => "Billing blocked this request. Check the team's subscription and available budget, then resume the saved state directory.",
        Some(TransportFailure::Rejected(403)) => "Access denied. Check that your API key has access to this project and the required scopes.",
        Some(TransportFailure::Rejected(404)) => "Resource not found. Check --project and --agent, or your saved session's availability.",
        Some(TransportFailure::Transient) => "The service could not be reached or is temporarily unavailable. Check connectivity and service status; preserve the state directory for explicit resume.",
        _ => "Preserve the original workspace and state directory. Inspect the saved run before resuming; do not start a replacement run to retry an uncertain action.",
    }
}

/// Why session admission failed.
#[derive(Debug, Clone, Copy, PartialEq, Eq, Structural)]
pub enum AdmissionFailure {
    /// The agent has no release to admit the session to.
    Unavailable,
    Transport(TransportFailure),
}

/// What a failed session admission means: a conflict naming the unavailable
/// release, or any other classified failure. Only admission proves that such a
/// refusal came before any execution.
pub fn admission_failure(error: ApiFailure) -> (r: AdmissionFailure)
    ensures
        (error matches ApiFailure::Conflict { detail: Some(d) } && d@ == "agent_release_unavailable"@) ==> r
            == AdmissionFailure::Unavailable,
        !(error matches ApiFailure::Conflict { detail: Some(d) } && d@ == "agent_release_unavailable"@) ==> r
            == AdmissionFailure::Transport(spec_classify(&error)),
{
    let unavailable = match &error {
        ApiFailure::Conflict { detail: Some(d) } => text_equal(d.as_str(), "agent_release_unavailable"),
        _ => false,
    };
    if unavailable {
        AdmissionFailure::Unavailable
    } else {
        AdmissionFailure::Transport(classify(error))
    }
}


/// What made a run fail before it produced a result.
#[derive(Debug, Clone, Copy, PartialEq, Eq)]
pub enum FailureCause {
    /// Human input was refused, with this message.
    InvalidInput(&'static str),
    /// Session admission found no release of the agent.
    UnavailableRelease,
    /// Anything else, with its transport class when it has one.
    Other(Option<TransportFailure>),
}

/// The final result of a failed run. Its execution and cancellation
/// acknowledgement are absent and its usage unavailable.
#[derive(Debug, Clone, Copy, PartialEq, Eq)]
pub struct FailureReport {
    pub status: &'static str,
    /// The reason code, when it is one of these fixed ones; otherwise the caller's.
    pub reason: Option<&'static str>,
    pub message: Option<&'static str>,
    pub help: Option<&'static str>,
    pub cleanup: &'static str,
}

/// The result reported for a failed run: refused input and an unavailable
/// release fail before any work started; anything else requires recovery with
/// the caller's reason (`reason` is `None`) and advice for its transport class.
pub fn failure(cause: FailureCause) -> (r: FailureReport)
    ensures
        match cause {
            FailureCause::InvalidInput(m) => r.status@ == "failed"@ && (r.reason matches Some(x) && x@
                == "invalid_input"@) && r.message == Some(m) && r.help is None && r.cleanup@ == "not_started"@,
            FailureCause::UnavailableRelease => r.status@ == "failed"@ && (r.reason matches Some(x) && x@
                == "agent_release_unavailable"@) && r.message is None && (r.help matches Some(h) && h@
                == "No work started. Ask an agent administrator to upgrade this agent, then retry with the saved state directory. Existing sessions retain their release."@)
                && r.cleanup@ == "not_started"@,
            FailureCause::Other(f) => r.status@ == "recovery_required"@ && r.reason is None && r.message is None
                && (r.help matches Some(h) && h@ == spec_advice(f)) && r.cleanup@ == "unconfirmed"@,
        },
{
    match cause {
        FailureCause::InvalidInput(m) => FailureReport {
            status: "failed",
            reason: Some("invalid_input"),
            message: Some(m),
            help: None,
            cleanup: "not_started",
        },
        FailureCause::UnavailableRelease => FailureReport {
            status: "failed",
            reason: Some("agent_release_unavailable"),
            message: None,
            help: Some("No work started. Ask an agent administrator to upgrade this agent, then retry with the saved state directory. Existing sessions retain their release."),
            cleanup: "not_started",
        },
        FailureCause::Other(f) => FailureReport {
            status: "recovery_required",
            reason: None,
            message: None,
            help: Some(advice(f)),
            cleanup: "unconfirmed",
        },
    }
}

} // verus!
