use sikaru::api::{AttachmentStatus, AttachmentView, CleanupStatus};
use sikaru::config::WorkspaceProvenance;
use sikaru::journal::Anchor;
use sikaru::transport::TransportFailure;
use sikaru::worker::{
    admission_delay, admission_key, check_not_contradicted, claim_step, failure_status, finished,
    queue_due, record_response, require_ready, restore_capacity, same_worker, shutdown_result,
    startup_valid, admission_plan, teardown_evidence, teardown_result, terminal, validate_response, ClaimAnswer,
    Handle, LaunchOutcome, Response, WorkerError, WorkerStatus,
};
use sikaru::workflow::{
    attached_verdict, bootstrap, default_state_dir, latest_completion, next_cursor,
    requires_prompt, resume_identity, revoke_due, same_remote, validate_resume, AttachedVerdict,
    provision_step, ClaimView, ProvisionStep, Saved, WorkflowError,
};

fn handle(kind: &str) -> Handle {
    Handle { kind: kind.into(), id: "sandbox-1".into(), proof: "signed".into() }
}

fn response(status: &str, handle: Option<Handle>, evidence: Option<&str>) -> Response {
    Response { version: 1, launch_id: "launch".into(), status: status.into(), handle, evidence: evidence.map(str::to_string) }
}

fn outcome(status: &str, cleanup_confirmed: bool) -> LaunchOutcome {
    LaunchOutcome { status: status.into(), cleanup_confirmed }
}

#[test]
fn launchers_must_prove_a_sandbox_never_a_bare_pid() {
    assert!(handle("container").validate().is_ok());
    assert!(handle("sandbox").validate().is_ok());
    assert_eq!(handle("pid").validate(), Err(WorkerError::UnprovenIdentity));
    assert_eq!(Handle { kind: "sandbox".into(), id: String::new(), proof: "p".into() }.validate(), Err(WorkerError::UnprovenIdentity));
    assert!(validate_response(&response("launched", Some(handle("sandbox")), None), "launch").is_ok());
    assert_eq!(validate_response(&response("launched", None, None), "other"), Err(WorkerError::IdentityMismatch));
    let mut v2 = response("launched", None, None);
    v2.version = 2;
    assert_eq!(validate_response(&v2, "launch"), Err(WorkerError::IdentityMismatch));
    assert_eq!(validate_response(&response("launched", Some(handle("pid")), None), "launch"), Err(WorkerError::UnprovenIdentity));
}

#[test]
fn teardown_needs_evidence_and_a_finished_sandbox() {
    assert_eq!(teardown_evidence(&response("terminated", Some(handle("sandbox")), Some("gone"))).unwrap(), "gone");
    assert_eq!(teardown_evidence(&response("not_launched", None, Some("never"))).unwrap(), "never");
    assert_eq!(teardown_evidence(&response("terminated", None, Some("gone"))), Err(WorkerError::MissingHandle));
    assert_eq!(teardown_evidence(&response("running", Some(handle("sandbox")), Some("x"))), Err(WorkerError::StillLive));
    assert_eq!(teardown_evidence(&response("terminated", Some(handle("sandbox")), Some(""))), Err(WorkerError::MissingEvidence));
    assert_eq!(check_not_contradicted("not_launched", true), Err(WorkerError::Contradiction));
    assert!(check_not_contradicted("not_launched", false).is_ok());
    assert!(finished("terminated") && finished("not_launched") && !finished("unknown"));
    assert_eq!(teardown_result(AttachmentStatus::RecoveryRequired, CleanupStatus::Confirmed), ("recovery_required", true));
    assert_eq!(teardown_result(AttachmentStatus::Cleaned, CleanupStatus::Unconfirmed), ("completed", false));
}

#[test]
fn the_first_handle_is_kept_and_a_different_one_refused() {
    let mut known = None;
    assert_eq!(record_response(&mut known, None), Ok(false));
    assert_eq!(record_response(&mut known, Some(handle("sandbox"))), Ok(true));
    assert_eq!(record_response(&mut known, Some(handle("sandbox"))), Ok(false));
    assert_eq!(record_response(&mut known, Some(handle("container"))), Err(WorkerError::HandleChanged));
    assert_eq!(known.unwrap().kind, "sandbox");
}

#[test]
fn startup_must_reach_readiness_before_its_deadline() {
    assert!(terminal(AttachmentStatus::Cleaned) && terminal(AttachmentStatus::Abandoned));
    assert!(!terminal(AttachmentStatus::Ready));
    assert_eq!(require_ready(false), Err(WorkerError::TerminatedBeforeReady));
    assert!(require_ready(true).is_ok());
    assert_eq!(startup_valid(AttachmentStatus::StartupExpired, true, false), Err(WorkerError::StartupDeadlineExpired));
    assert_eq!(startup_valid(AttachmentStatus::Starting, false, true), Err(WorkerError::StartupDeadlineExpired));
    assert!(startup_valid(AttachmentStatus::Ready, true, true).is_ok());
    assert_eq!(failure_status(WorkerError::StartupDeadlineExpired.message()), "failed");
    assert_eq!(failure_status("launcher_terminated_before_ready"), "failed");
    assert_eq!(failure_status("lease_expired"), "recovery_required");
}

#[test]
fn failed_startup_and_unconfirmed_teardown_have_distinct_outcomes() {
    let failed = shutdown_result(false, &vec![outcome("failed", true)]);
    assert_eq!((failed.status, failed.cleanup_confirmed), (WorkerStatus::Failed, true));
    let unconfirmed = shutdown_result(false, &vec![outcome("completed", false)]);
    assert_eq!((unconfirmed.status, unconfirmed.cleanup_confirmed), (WorkerStatus::RecoveryRequired, false));
    let signalled = shutdown_result(true, &vec![outcome("completed", true)]);
    assert_eq!((signalled.status, signalled.signalled, signalled.cancel_acknowledged), (WorkerStatus::Cancelled, true, Some(true)));
    let quiet = shutdown_result(false, &vec![]);
    assert_eq!((quiet.status, quiet.cancel_acknowledged), (WorkerStatus::Completed, None));
}

#[test]
fn the_queue_is_polled_when_a_slot_is_free_and_transient_failures_back_off() {
    let mut failures = 3;
    assert_eq!(admission_delay(Ok(2000), &mut failures), Ok((2000, true)));
    assert_eq!(failures, 0);
    let (delay, admitted) = admission_delay(Err(Some(TransportFailure::Transient)), &mut failures).unwrap();
    assert!(!admitted && (100..200).contains(&delay));
    assert_eq!(failures, 1);
    assert_eq!(admission_delay(Err(Some(TransportFailure::Rejected(403))), &mut failures), Err(Some(TransportFailure::Rejected(403))));
    assert!(queue_due(0, 1, false, 10, 10));
    assert!(!queue_due(1, 1, false, 10, 0));
    assert!(!queue_due(0, 1, true, 10, 0));
    assert!(!queue_due(0, 1, false, 9, 10));
    let entries = vec!["a".to_string()];
    assert_eq!(admission_key(&entries, "a"), Ok(false));
    assert_eq!(admission_key(&entries, "b"), Ok(true));
    assert_eq!(admission_key(&entries, "x/y"), Err(WorkerError::InvalidAttachment));
    assert_eq!(admission_key(&entries, ".."), Err(WorkerError::InvalidAttachment));
    assert_eq!(restore_capacity(3, 2), Err(WorkerError::CapacityExceeded));
    assert!(same_worker("p", "e", "p", "e").is_ok());
    assert_eq!(same_worker("p", "e", "p", "f"), Err(WorkerError::StateMismatch));
    assert_eq!(claim_step(ClaimAnswer::Conflict), Some(false));
    assert_eq!(claim_step(ClaimAnswer::Unknown), None);
}

fn saved() -> Saved {
    Saved::fresh("project".into(), "agent".into(), Some("kimi-k3".into()), Anchor { path: "/work".into(), device: 1, inode: 2 }, "key".into())
}

fn view() -> AttachmentView {
    AttachmentView {
        id: "attachment".into(),
        project_id: "project".into(),
        session_id: "session".into(),
        environment_id: "environment".into(),
        journal_id: "journal".into(),
        owner_epoch: 1,
        workspace_generation: "g".into(),
        workspace_provenance: WorkspaceProvenance { kind: "existing_directory".into(), identity: "key".into() },
        status: AttachmentStatus::Ready,
        lease_ttl_seconds: None,
        cleanup_status: CleanupStatus::Unconfirmed,
    }
}

#[test]
fn conflicting_resume_model_is_refused_and_a_started_executor_must_be_clean() {
    let mut s = saved();
    assert_eq!(validate_resume(&s, Some("glm-5p3-flash"), None, true), Err(WorkflowError::ModelConflict));
    assert!(validate_resume(&s, Some("kimi-k3"), Some("agent"), true).is_ok());
    assert_eq!(validate_resume(&s, None, Some("other"), true), Err(WorkflowError::AgentMismatch));
    s.executor_started = true;
    assert_eq!(validate_resume(&s, None, None, true), Err(WorkflowError::JournalUnclean));
    s.clean = true;
    assert_eq!(validate_resume(&s, None, None, false), Err(WorkflowError::JournalUnclean));
    assert!(validate_resume(&s, None, None, true).is_ok());
    assert!(resume_identity(&s, "project", &Anchor { path: "/work".into(), device: 1, inode: 2 }).is_ok());
    assert_eq!(resume_identity(&s, "project", &Anchor { path: "/work".into(), device: 1, inode: 3 }), Err(WorkflowError::IdentityMismatch));
    assert_eq!(requires_prompt(false, false), Err(WorkflowError::PromptRequired));
    assert!(requires_prompt(true, false).is_ok());
}

#[test]
fn claims_and_turns_rotate_their_keys_only_when_done() {
    let mut s = saved();
    assert!(s.rotate_claim());
    let first = s.claim_key.clone().unwrap();
    assert_eq!(first.len(), 32);
    assert!(!s.rotate_claim());
    s.credential_issued("credential".into());
    assert!(s.executor_started && !s.clean);
    s.clean = true;
    assert!(s.rotate_claim());
    assert_ne!(s.claim_key.clone().unwrap(), first);
    assert!(!s.executor_started);
    assert!(s.rotate_turn());
    assert!(!s.rotate_turn());
    s.run_id = Some("run".into());
    assert!(s.rotate_turn());
    assert!(s.run_id.is_none());
}

#[test]
fn the_executor_bootstrap_carries_the_claimed_authority() {
    let s = saved();
    let a = view();
    let claim = ClaimView { owner_id: "owner".into(), owner_epoch: 4 };
    let b = bootstrap(&s, &a, &claim, "credential", "token".into(), "/state/executor".into());
    assert_eq!((b.owner_epoch, b.attachment_id.as_str(), b.workspace.as_str()), (4, "attachment", "/work"));
    assert_eq!(b.command_timeout_seconds, 120);
    assert!(b.validate().is_ok());
    assert!(same_remote(&a, &view()).is_ok());
    let mut moved = view();
    moved.workspace_generation = "g2".into();
    assert_eq!(same_remote(&moved, &a), Err(WorkflowError::RemoteChanged));
    assert!(matches!(attached_verdict(false, true), AttachedVerdict::StartupFailed));
    assert!(matches!(attached_verdict(true, false), AttachedVerdict::SubmissionUnconfirmed));
    assert!(matches!(attached_verdict(true, true), AttachedVerdict::Served));
    assert!(revoke_due(true, "completed") && !revoke_due(true, "recovery_required") && !revoke_due(false, "completed"));
    assert_eq!(default_state_dir("/work", "abc"), "/work/.sikaru-abc");
    let types = vec!["run.completed".to_string(), "tool.called".to_string(), "run.completed".to_string(), "x".to_string()];
    assert_eq!(latest_completion(&types), Some(2));
    assert_eq!(latest_completion(&vec![]), None);
    assert_eq!(next_cursor(false, 10, 5), Some(10));
    assert_eq!(next_cursor(false, 5, 5), None);
    assert_eq!(next_cursor(true, 10, 5), None);
}

#[test]
fn interrupted_setup_resumes_where_it_stopped() {
    let mut s = saved();
    match provision_step(&s) {
        ProvisionStep::CreateSession { idempotency_key } => assert_eq!(idempotency_key, "key"),
        other => panic!("{other:?}"),
    }
    assert_eq!(s.record_session(None), Err(WorkflowError::MissingSession));
    assert!(s.session.is_none());
    assert_eq!(WorkflowError::MissingSession.message(), "missing session identity");
    s.record_session(Some("session".into())).unwrap();
    match provision_step(&s) {
        ProvisionStep::CreateEnvironment { session_id, slug, idempotency_key } => {
            assert_eq!((session_id.as_str(), slug.as_str(), idempotency_key.as_str()), ("session", "local-key", "key"));
        }
        other => panic!("{other:?}"),
    }
    s.record_environment("environment".into());
    match provision_step(&s) {
        ProvisionStep::CreateAttachment { session_id, environment_id, idempotency_key, provenance } => {
            assert_eq!((session_id.as_str(), environment_id.as_str(), idempotency_key.as_str()), ("session", "environment", "key"));
            assert_eq!((provenance.kind.as_str(), provenance.identity.as_str()), ("existing_directory", "key"));
        }
        other => panic!("{other:?}"),
    }
    s.record_attachment(view());
    assert!(matches!(provision_step(&s), ProvisionStep::Done));
    assert_eq!(s.session.as_deref(), Some("session"));
    assert_eq!(s.environment.as_deref(), Some("environment"));
}

#[test]
fn claims_and_turns_begin_under_their_key_and_keep_the_rest() {
    let mut s = saved();
    s.record_session(Some("session".into())).unwrap();
    s.credential_issued("cred".into());
    assert!(s.executor_started && !s.clean);
    assert_eq!(s.session.as_deref(), Some("session"));
    s.begin_claim("claim-1".into());
    assert_eq!(s.claim_key.as_deref(), Some("claim-1"));
    assert!(s.claim.is_none() && !s.executor_started && !s.clean);
    assert_eq!((s.session.as_deref(), s.credential_id.as_deref()), (Some("session"), Some("cred")));
    s.run_id = Some("run".into());
    s.begin_turn("turn-1".into());
    assert_eq!(s.turn_key.as_deref(), Some("turn-1"));
    assert!(s.run_id.is_none());
    assert_eq!(s.claim_key.as_deref(), Some("claim-1"));
    // A claim in progress is kept; a clean one is replaced by a fresh random key.
    assert!(!s.rotate_claim());
    assert_eq!(s.claim_key.as_deref(), Some("claim-1"));
    s.clean = true;
    assert!(s.rotate_claim());
    let key = s.claim_key.clone().unwrap();
    assert!(key != "claim-1" && key.len() == 32);
}

#[test]
fn admission_asks_for_free_slots_and_honours_the_poll_hint() {
    let p = admission_plan(1, 4, 10, None);
    assert_eq!((p.limit, p.take, p.delay_ms), (3, 3, 1000));
    let p = admission_plan(0, 4, 2, Some(3));
    assert_eq!((p.limit, p.take, p.delay_ms), (4, 2, 3000));
    assert_eq!(admission_plan(0, 1, 0, Some(60)).delay_ms, 5000);
    assert_eq!(admission_plan(0, 1, 0, Some(-4)).delay_ms, 1000);
    assert_eq!(admission_plan(2, 2, 5, Some(2)).take, 0);
}
