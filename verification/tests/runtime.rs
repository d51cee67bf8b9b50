use sha2::Digest;
use sikaru::api::{
    AttachmentStatus, AttachmentView, CleanupStatus, ExecutionView, IssuedOperation,
    ObservationStatus, OperationCapability, OperationView, PageTransport, ProcessObservation,
    WorkPage,
};
use sikaru::config::WorkspaceProvenance;
use sikaru::journal::{Anchor, Binding, Entry, IntentStep, Journal, ReceiptStatus};
use sikaru::runtime::{
    channel_page, cleanup_outcome, completion, completion_after_wait, idempotency_key, idle_plan,
    idle_wake, is_cancellation, make_receipt, operation_key, pending_receipts, reconcile_verdict,
    settle, uncertain_operations, validate_operation, ChannelLink, CleanupState, Completion,
    RuntimeError,
};

fn provenance() -> WorkspaceProvenance {
    WorkspaceProvenance { kind: "existing_directory".into(), identity: "w".into() }
}

fn binding() -> Binding {
    Binding {
        project_id: "project".into(),
        session_id: "session".into(),
        attachment_id: "attachment".into(),
        owner_epoch: 3,
        workspace_generation: "generation".into(),
        journal_id: "journal".into(),
        credential_id: "credential".into(),
        workspace_provenance: provenance(),
        anchor: Anchor { path: "/work".into(), device: 1, inode: 1 },
    }
}

fn page(status: AttachmentStatus, execution: Option<ExecutionView>) -> WorkPage {
    WorkPage {
        attachment: AttachmentView {
            id: "attachment".into(),
            project_id: "project".into(),
            session_id: "session".into(),
            environment_id: "environment".into(),
            journal_id: "journal".into(),
            owner_epoch: 3,
            workspace_generation: "generation".into(),
            workspace_provenance: provenance(),
            status,
            lease_ttl_seconds: None,
            cleanup_status: CleanupStatus::Unconfirmed,
        },
        execution,
        operations: vec![],
        issued_operations: vec![],
        live_handles: vec![],
        poll_after_seconds: None,
        transport: Some(PageTransport::Channel),
        workspace_checkpoint: None,
    }
}

fn run(terminal: bool, approval: bool) -> Option<ExecutionView> {
    Some(ExecutionView { run_id: "run".into(), status: "completed".into(), terminal, approval_required: approval })
}

fn operation() -> OperationView {
    OperationView {
        run_id: "run".into(),
        tool_call_id: "call".into(),
        tool_provider_id: "provider".into(),
        owner_epoch: 3,
        workspace_generation: "generation".into(),
        capability_name: OperationCapability::ComputeExecute,
        request_digest: "digest".into(),
        method: "bash.run".into(),
        arguments: vec![],
    }
}

#[test]
fn a_page_completes_the_run_when_stopping_recovering_approving_or_terminal() {
    assert_eq!(completion(&page(AttachmentStatus::Stopping, run(false, true))), Some(Completion::Cancelled));
    assert_eq!(completion(&page(AttachmentStatus::RecoveryRequired, None)), Some(Completion::RecoveryRequired));
    assert_eq!(completion(&page(AttachmentStatus::Ready, run(true, true))), Some(Completion::ApprovalRequired));
    assert_eq!(completion(&page(AttachmentStatus::Ready, run(true, false))), Some(Completion::Terminal));
    assert_eq!(completion(&page(AttachmentStatus::Ready, run(false, false))), None);
    assert_eq!(completion(&page(AttachmentStatus::Ready, None)), None);
}

#[test]
fn an_approval_ends_the_run_only_after_the_wait() {
    let approval = page(AttachmentStatus::Ready, run(false, true));
    let mut deadline = None;
    assert_eq!(completion_after_wait(&approval, 300_000, 1_000, &mut deadline), None);
    assert_eq!(deadline, Some(301_000));
    assert_eq!(completion_after_wait(&approval, 300_000, 200_000, &mut deadline), None);
    assert_eq!(deadline, Some(301_000));
    assert_eq!(completion_after_wait(&approval, 300_000, 301_000, &mut deadline), Some(Completion::ApprovalRequired));
    let mut none = None;
    assert_eq!(completion_after_wait(&approval, 0, 5, &mut none), Some(Completion::ApprovalRequired));
    let mut untouched = None;
    assert_eq!(completion_after_wait(&page(AttachmentStatus::Stopping, None), 10, 5, &mut untouched), Some(Completion::Cancelled));
    assert_eq!(untouched, None);
}

#[test]
fn the_channel_serves_only_running_turns_and_gives_up_after_three_failures() {
    assert!(channel_page(&page(AttachmentStatus::Ready, run(false, false))));
    assert!(!channel_page(&page(AttachmentStatus::Ready, run(false, true))));
    let mut polling = page(AttachmentStatus::Ready, run(false, false));
    polling.transport = Some(PageTransport::Poll);
    assert!(!channel_page(&polling));
    let mut link = ChannelLink::new();
    let p = page(AttachmentStatus::Ready, run(false, false));
    assert!(link.admits(&p));
    let first = link.retry_later().unwrap();
    assert!((250..=750).contains(&first), "{first}");
    link.progressed();
    assert!(link.retry_later().is_some());
    assert!(link.retry_later().is_some());
    assert!(link.retry_later().is_none());
    assert!(link.exhausted);
    assert!(!link.admits(&p));
    link.progressed();
    assert!(!link.admits(&p));
}

#[test]
fn idle_pages_pause_between_one_and_five_seconds() {
    let mut p = page(AttachmentStatus::Ready, run(false, false));
    assert_eq!(idle_plan(&p, Some(9)), Some((1, None)));
    p.poll_after_seconds = Some(30);
    assert_eq!(idle_plan(&p, Some(9)), Some((5, None)));
    p.poll_after_seconds = Some(-4);
    assert_eq!(idle_plan(&p, None), Some((1, None)));
    let mut waiting = page(AttachmentStatus::Ready, run(false, true));
    waiting.poll_after_seconds = Some(3);
    assert_eq!(idle_plan(&waiting, Some(9)), Some((3, Some(9))));
    waiting.operations.push(operation());
    assert_eq!(idle_plan(&waiting, Some(9)), None);
    assert_eq!(idle_wake(100, 1000, Some(500)), 500);
    assert_eq!(idle_wake(100, 1000, None), 1100);
}

#[test]
fn operations_must_name_this_authority_and_a_complete_identity() {
    let b = binding();
    assert!(validate_operation(&operation(), &b).is_ok());
    let mut stale = operation();
    stale.owner_epoch = 2;
    assert_eq!(validate_operation(&stale, &b), Err(RuntimeError::StaleAuthority));
    let mut other = operation();
    other.capability_name = OperationCapability::Other;
    assert_eq!(validate_operation(&other, &b), Err(RuntimeError::InvalidIdentity));
    let mut anonymous = operation();
    anonymous.tool_call_id = String::new();
    assert_eq!(validate_operation(&anonymous, &b), Err(RuntimeError::InvalidIdentity));
    assert_eq!(operation_key("run", "call"), "run/call");
}

#[test]
fn receipts_are_keyed_by_the_sha256_of_run_and_call() {
    let key = idempotency_key("run", "call");
    let expected = format!("{:x}", sha2::Sha256::digest(serde_json::to_vec(&["run", "call"]).unwrap()));
    assert_eq!(key, expected);
    let quoted = idempotency_key("r\"1", "c");
    let expected = format!("{:x}", sha2::Sha256::digest(serde_json::to_vec(&["r\"1", "c"]).unwrap()));
    assert_eq!(quoted, expected);
    assert_ne!(idempotency_key("run", "call"), idempotency_key("runcall", ""));
    let done = make_receipt(&operation(), Some(b"{\"ok\":true}".to_vec()));
    assert_eq!(done.status, ReceiptStatus::Completed);
    assert_eq!(done.payload, b"{\"ok\":true}".to_vec());
    assert_eq!(done.idempotency_key, key);
    let failed = make_receipt(&operation(), None);
    assert_eq!(failed.status, ReceiptStatus::Failed);
    assert_eq!(failed.payload, b"{\"error\":\"native task IO failed\"}".to_vec());
}

#[test]
fn issued_operations_without_receipts_are_uncertain() {
    let mut journal = Journal::open(binding(), "i".into());
    if let IntentStep::Record(r) = journal.intent("run/a", b"x").unwrap() {
        journal.restore(&r).unwrap();
    }
    if let IntentStep::Record(r) = journal.intent("run/b", b"y").unwrap() {
        journal.restore(&r).unwrap();
    }
    let mut op = operation();
    op.tool_call_id = "b".into();
    let receipt = make_receipt(&op, Some(b"{}".to_vec()));
    let record = journal.receipt("run/b", receipt, 10).unwrap().unwrap();
    journal.restore(&record).unwrap();
    let mut p = page(AttachmentStatus::Ready, None);
    p.issued_operations = vec![
        IssuedOperation { run_id: "run".into(), tool_call_id: "a".into(), request_digest: "digest".into() },
        IssuedOperation { run_id: "run".into(), tool_call_id: "b".into(), request_digest: "digest".into() },
        IssuedOperation { run_id: "run".into(), tool_call_id: "c".into(), request_digest: "digest".into() },
    ];
    assert_eq!(uncertain_operations(&p, &journal).unwrap(), vec!["a".to_string(), "c".to_string()]);
    p.issued_operations[1].request_digest = "changed".into();
    assert_eq!(uncertain_operations(&p, &journal), Err(RuntimeError::IdentityChanged));
    let pending = pending_receipts(&journal);
    assert_eq!(pending.len(), 1);
    assert_eq!(pending[0].0, "run/b");
    let _unused: Option<Entry> = None;
}

#[test]
fn lost_processes_or_uncertain_operations_require_recovery() {
    let lost = vec![ProcessObservation { handle_id: "p".into(), status: ObservationStatus::Lost, evidence: "e".into() }];
    assert_eq!(reconcile_verdict(&lost, &vec![]), Err(RuntimeError::RecoveryRequired));
    assert_eq!(reconcile_verdict(&vec![], &vec!["c".to_string()]), Err(RuntimeError::RecoveryRequired));
    assert!(reconcile_verdict(&vec![], &vec![]).is_ok());
    assert_eq!(RuntimeError::RecoveryRequired.message(), "recovery_required: uncertain effects or lost process ownership");
}

#[test]
fn an_effect_with_unconfirmed_cleanup_is_not_success() {
    let s = settle("completed".into(), None, false, true, false, None);
    assert_eq!(s.status, "recovery_required");
    assert_eq!(s.cleanup, CleanupState::Unconfirmed);
    assert!(!s.mark_clean);
    let s = settle("completed".into(), None, false, true, true, None);
    assert_eq!((s.status.as_str(), s.cleanup, s.mark_clean), ("completed", CleanupState::Confirmed, true));
    let s = settle("cancelled".into(), Some("signal".into()), true, true, true, Some(true));
    assert_eq!(s.status, "recovery_required");
    assert_eq!(s.reason.as_deref(), Some("interrupted_operation_requires_reconciliation"));
    assert_eq!(s.cancel_acknowledged, Some(true));
    assert!(!s.mark_clean);
    assert_eq!(cleanup_outcome("failed".into(), true, true), ("failed".to_string(), CleanupState::Confirmed));
    assert!(is_cancellation("cancelled") && !is_cancellation("completed"));
}

#[test]
fn unacknowledged_receipts_replay_in_key_order() {
    let mut journal = Journal::open(binding(), "i".into());
    for key in ["run/c", "run/a", "run/b"] {
        if let IntentStep::Record(r) = journal.intent(key, b"x").unwrap() {
            journal.restore(&r).unwrap();
        }
        let mut op = operation();
        op.tool_call_id = key[4..].into();
        let record = journal.receipt(key, make_receipt(&op, Some(b"{}".to_vec())), 10).unwrap().unwrap();
        journal.restore(&record).unwrap();
    }
    let pending = pending_receipts(&journal);
    let keys: Vec<&str> = pending.iter().map(|(k, _)| k.as_str()).collect();
    assert_eq!(keys, vec!["run/a", "run/b", "run/c"]);
}

#[test]
fn a_channel_given_up_stays_given_up() {
    let mut link = ChannelLink::new();
    assert!(link.retry_later().is_some());
    link.progressed();
    assert!(link.retry_later().is_some());
    assert!(link.retry_later().is_some());
    assert!(link.retry_later().is_none());
    assert!(link.exhausted);
    link.progressed();
    assert!(link.exhausted);
    assert!(!link.admits(&page(AttachmentStatus::Ready, None)));
}
