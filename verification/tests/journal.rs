use sikaru::config::WorkspaceProvenance;
use sikaru::journal::{
    frame_record, next_record, Anchor, Binding, IntentStep, Journal, JournalError, Receipt,
    ReceiptCapability, ReceiptStatus, Record,
};
use sikaru::process::{ProcessState, ProcessStatus};

fn binding(epoch: i64) -> Binding {
    Binding {
        project_id: "project".into(),
        session_id: "session".into(),
        attachment_id: "attachment".into(),
        owner_epoch: epoch,
        workspace_generation: "generation".into(),
        journal_id: "journal".into(),
        credential_id: "credential".into(),
        workspace_provenance: WorkspaceProvenance { kind: "existing_directory".into(), identity: "w".into() },
        anchor: Anchor { path: "/work".into(), device: 7, inode: 9 },
    }
}

fn receipt(payload: &[u8]) -> Receipt {
    Receipt {
        run_id: "run".into(),
        tool_call_id: "call".into(),
        tool_provider_id: "provider".into(),
        capability_name: Some(ReceiptCapability::ComputeExecute),
        request_digest: "digest".into(),
        idempotency_key: "key".into(),
        status: ReceiptStatus::Completed,
        payload: payload.to_vec(),
    }
}

fn apply(journal: &mut Journal, record: Record) {
    journal.restore(&record).unwrap();
}

#[test]
fn an_intent_without_receipt_is_never_executed_again() {
    let mut journal = Journal::open(binding(1), "instance".into());
    let record = match journal.intent("run/call", b"{\"a\":1}").unwrap() {
        IntentStep::Record(record) => record,
        IntentStep::Replay(_) => panic!("fresh intent"),
    };
    apply(&mut journal, record);
    assert!(journal.has_uncertain_effects());
    assert!(matches!(journal.intent("run/call", b"{\"a\":1}"), Err(JournalError::UncertainEffect)));
    assert!(matches!(journal.intent("run/call", b"{\"a\":2}"), Err(JournalError::AlteredArguments)));
}

#[test]
fn a_recorded_receipt_is_replayed_and_never_replaced() {
    let mut journal = Journal::open(binding(1), "instance".into());
    if let IntentStep::Record(record) = journal.intent("run/call", b"request").unwrap() {
        apply(&mut journal, record);
    }
    let record = journal.receipt("run/call", receipt(b"{}"), 100).unwrap().unwrap();
    apply(&mut journal, record);
    assert!(!journal.has_uncertain_effects());
    match journal.intent("run/call", b"request").unwrap() {
        IntentStep::Replay(r) => assert_eq!(r.payload, b"{}".to_vec()),
        IntentStep::Record(_) => panic!("must replay"),
    }
    assert!(journal.receipt("run/call", receipt(b"{}"), 100).unwrap().is_none());
    assert!(matches!(journal.receipt("run/call", receipt(b"[]"), 100), Err(JournalError::ReceiptConflict)));
    assert!(matches!(journal.receipt("other", receipt(b"{}"), 100), Err(JournalError::ReceiptWithoutIntent)));
    assert!(matches!(journal.receipt("run/call", receipt(b"{}"), 262145), Err(JournalError::ReceiptTooLarge)));
    let ack = journal.ack("run/call").unwrap().unwrap();
    apply(&mut journal, ack);
    assert!(journal.ack("run/call").unwrap().is_none());
    assert!(matches!(journal.ack("missing"), Err(JournalError::UnknownAck)));
}

#[test]
fn a_snapshot_replays_to_the_same_ledger() {
    let mut journal = Journal::open(binding(1), "instance".into());
    if let IntentStep::Record(record) = journal.intent("run/call", b"request").unwrap() {
        apply(&mut journal, record);
    }
    let handle = journal.handle("0123456789abcdef0123456789abcdef", ProcessState::started("p".into()));
    apply(&mut journal, handle);
    let snapshot = journal.write_snapshot();
    assert!(matches!(snapshot[0], Record::Header { .. }));
    let mut replayed = Journal::open(binding(1), "instance".into());
    let (b, instance) = replayed.restore_records(&snapshot).unwrap();
    assert!(b.same(&journal.binding));
    assert_eq!(instance, "instance");
    assert_eq!(replayed.entries.len(), 1);
    assert_eq!(replayed.handles.len(), 1);
    assert!(replayed.has_uncertain_effects());
}

#[test]
fn a_restart_needs_a_new_epoch_and_no_uncertain_effect() {
    let previous = vec![Record::Header { binding: binding(1), instance: "old".into() }];
    let mut same_epoch = Journal::open(binding(1), "new".into());
    assert!(matches!(same_epoch.load(&previous, true), Err(JournalError::RestartNeedsNewEpoch)));
    let mut next_epoch = Journal::open(binding(2), "new".into());
    let appended = next_epoch.load(&previous, true).unwrap();
    assert!(matches!(appended.last(), Some(Record::Header { .. })));
    let mut uncertain = previous;
    uncertain.push(Record::Intent { key: "run/call".into(), request: "d".into() });
    let mut refused = Journal::open(binding(2), "new".into());
    assert!(refused.load(&uncertain, true).is_err());
}

#[test]
fn a_fresh_ledger_needs_only_its_header() {
    let mut journal = Journal::open(binding(1), "instance".into());
    let records = journal.load(&vec![], false).unwrap();
    assert_eq!(records.len(), 1);
    assert!(matches!(&records[0], Record::Header { instance, .. } if instance == "instance"));
}

#[test]
fn framed_records_read_back_one_line_at_a_time() {
    let mut data = frame_record(b"{\"a\":1}".to_vec()).unwrap();
    data.extend(frame_record(b"{}".to_vec()).unwrap());
    assert_eq!(next_record(&data, 0).unwrap(), Some((0, 7)));
    assert_eq!(next_record(&data, 8).unwrap(), Some((8, 10)));
    assert_eq!(next_record(&data, 11).unwrap(), None);
    assert!(matches!(frame_record(vec![b'x'; 1_048_577]), Err(JournalError::RecordTooLarge)));
    assert!(matches!(next_record(b"{\"a\":1", 0), Err(JournalError::InterruptedWrite)));
}

#[test]
fn anchors_pin_a_directory_and_artifacts_need_hex_identities() {
    let anchor = Anchor::capture("/work".into(), true, 7, 9).unwrap();
    assert!(anchor.verify(&Anchor { path: "/work".into(), device: 7, inode: 9 }).is_ok());
    assert!(matches!(anchor.verify(&Anchor { path: "/work".into(), device: 7, inode: 10 }), Err(JournalError::Replaced)));
    assert!(matches!(Anchor::capture("/file".into(), false, 1, 1), Err(JournalError::NotADirectory)));
    let journal = Journal::open(binding(1), "i".into());
    assert_eq!(journal.existing_artifact("0123456789ABCDEF0123456789abcdef").unwrap(), "output-0123456789ABCDEF0123456789abcdef");
    assert!(matches!(journal.existing_artifact("../escape"), Err(JournalError::InvalidArtifact)));
    assert_eq!(journal.artifact("x"), "output-x");
    assert_eq!(ProcessStatus::Cancelled.as_str(), "cancelled");
}
