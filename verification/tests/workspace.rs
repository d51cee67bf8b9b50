use sha2::Digest;
use sikaru::api::{CheckpointStatus, ExecutionView, WorkspaceCheckpointView};
use sikaru::flow::{
    check_blob_receipt, check_tree_receipt, publish_step, tree_digest, utf16_before,
    validate_receipt, FlowError, PublishStep,
};
use sikaru::value::WireValue;
use sikaru::workspace::{
    check_chunk, child_path, chunk_ids, private_directory_ok, private_file_ok, stage_step,
    staged_unchanged, staging_name, state_outside, unchanged, validate_hash, validate_path,
    within, captures_agree, entry_action, file_record, same_record, Capture, EntryAction, FileRecord, NodeStat, WorkspaceError, MAX_ENTRIES,
};

fn obj(members: Vec<(&str, WireValue)>) -> WireValue {
    WireValue::Object(members.into_iter().map(|(k, v)| (k.to_string(), v)).collect())
}

fn chunk(hash: &str, size: u64) -> WireValue {
    obj(vec![("sha256", WireValue::Str(hash.into())), ("size", WireValue::UInt(size))])
}

fn hex(c: char) -> String {
    std::iter::repeat(c).take(64).collect()
}

fn stat() -> NodeStat {
    NodeStat {
        dev: 1, ino: 2, len: 10, mtime: 3, mtime_nsec: 4, ctime: 5, ctime_nsec: 6,
        mode: 0o100600, nlink: 1, uid: 1000, is_file: true, is_dir: false,
    }
}

#[test]
fn empty_directories_consume_traversal_budget() {
    let mut capture = Capture { bytes: 0, entries: MAX_ENTRIES, files: 0 };
    let error = capture.count_entry().unwrap_err();
    assert!(error.message().contains("entry limit"));
    let mut fresh = Capture::new();
    assert!(fresh.count_entry().is_ok());
    assert_eq!(fresh.entries, 1);
}

#[test]
fn captures_keep_only_plain_relative_paths() {
    assert!(validate_path("src/main.rs").is_ok());
    assert_eq!(validate_path("a\\b"), Err(WorkspaceError::UnsupportedPath));
    assert_eq!(validate_path("a\nb"), Err(WorkspaceError::UnsupportedPath));
    assert_eq!(validate_path("a\u{85}b"), Err(WorkspaceError::UnsupportedPath));
    assert!(validate_path(&"é".repeat(256)).is_ok());
    assert_eq!(validate_path(&"é".repeat(257)), Err(WorkspaceError::UnsupportedPath));
    assert_eq!(child_path("", "a").unwrap(), "a");
    assert_eq!(child_path("a", "b").unwrap(), "a/b");
    assert!(child_path("a", "b\tc").is_err());
    assert!(validate_hash(&hex('a')).is_ok());
    assert_eq!(validate_hash(&hex('A')), Err(WorkspaceError::InvalidDigest));
    assert_eq!(validate_hash("abc"), Err(WorkspaceError::InvalidDigest));
}

#[test]
fn private_state_must_live_outside_the_workspace() {
    assert!(within("/work", "/work"));
    assert!(within("/work/state", "/work"));
    assert!(!within("/workspace", "/work"));
    assert!(within("/anything", "/"));
    assert_eq!(state_outside("/work/.sikaru", "/work"), Err(WorkspaceError::StateInsideWorkspace));
    assert!(state_outside("/state", "/work").is_ok());
}

#[test]
fn staging_is_named_by_the_identity_digest_and_chunks_are_checked() {
    let name = staging_name("checkpoint");
    assert_eq!(name, format!("workspace-{:x}", sha2::Sha256::digest(b"checkpoint")));
    let data = b"chunk bytes";
    let digest = format!("{:x}", sha2::Sha256::digest(data));
    assert!(check_chunk(&digest, data.len() as u64, data).is_ok());
    assert_eq!(check_chunk(&digest, 3, data), Err(WorkspaceError::IntegrityFailure));
    assert_eq!(check_chunk(&hex('0'), data.len() as u64, data), Err(WorkspaceError::IntegrityFailure));
    assert_eq!(check_chunk("bad", 1, data), Err(WorkspaceError::InvalidDigest));
}

#[test]
fn saved_chunks_are_listed_once_with_one_size() {
    let a = hex('a');
    let b = hex('b');
    let tree = obj(vec![("files", obj(vec![
        ("x", obj(vec![("chunks", WireValue::Array(vec![chunk(&a, 5), chunk(&b, 7)]))])),
        ("y", obj(vec![("chunks", WireValue::Array(vec![chunk(&a, 5)]))])),
    ]))]);
    let ids = chunk_ids(&tree).unwrap();
    assert_eq!(ids, vec![(a.clone(), 5), (b.clone(), 7)]);
    let conflict = obj(vec![("files", obj(vec![
        ("x", obj(vec![("chunks", WireValue::Array(vec![chunk(&a, 5), chunk(&a, 6)]))])),
    ]))]);
    assert_eq!(chunk_ids(&conflict), Err(WorkspaceError::ConflictingChunkSizes));
    let oversized = obj(vec![("files", obj(vec![
        ("x", obj(vec![("chunks", WireValue::Array(vec![chunk(&a, 1_000_001)]))])),
    ]))]);
    assert_eq!(chunk_ids(&oversized), Err(WorkspaceError::InvalidSavedChunkSize));
    assert_eq!(chunk_ids(&obj(vec![])), Err(WorkspaceError::InvalidSaved));
    let no_chunks = obj(vec![("files", obj(vec![("x", obj(vec![]))]))]);
    assert_eq!(chunk_ids(&no_chunks), Err(WorkspaceError::InvalidSavedChunks));
}

#[test]
fn capture_budgets_bound_files_and_bytes() {
    let mut c = Capture::new();
    assert!(c.enter(128).is_ok());
    assert_eq!(c.enter(129), Err(WorkspaceError::DepthLimit));
    assert_eq!(c.admit_file(false, 1), Err(WorkspaceError::NotARegularFile));
    assert!(c.admit_file(true, 1 << 30).is_ok());
    assert_eq!(c.admit_file(true, 1), Err(WorkspaceError::CaptureLimits));
    let mut huge = Capture { bytes: u64::MAX, entries: 0, files: 0 };
    assert_eq!(huge.admit_file(true, 1), Err(WorkspaceError::SizeOverflow));
    assert_eq!(stage_step(0, 1_000_000, 2_000_000), Ok((1_000_000, true)));
    assert_eq!(stage_step(1_000_000, 5, 1_000_005), Ok((1_000_005, false)));
    assert_eq!(stage_step(10, 5, 12), Err(WorkspaceError::FileChanged));
    let before = stat();
    let mut after = stat();
    assert!(unchanged(&before, &after));
    assert!(staged_unchanged(10, &before, &after).is_ok());
    after.mtime_nsec = 5;
    assert_eq!(staged_unchanged(10, &before, &after), Err(WorkspaceError::FileChanged));
    assert!(private_file_ok(&before, 10, 1000));
    assert!(!private_file_ok(&NodeStat { mode: 0o100644, ..stat() }, 10, 1000));
    assert!(private_directory_ok(&NodeStat { is_dir: true, mode: 0o40700, ..stat() }, 1000).is_ok());
    assert_eq!(private_directory_ok(&NodeStat { is_dir: true, mode: 0o40750, ..stat() }, 1000), Err(WorkspaceError::NotPrivate));
}

fn checkpoint(tree: Option<&str>, status: CheckpointStatus) -> WorkspaceCheckpointView {
    WorkspaceCheckpointView {
        checkpoint_id: "checkpoint".into(),
        run_id: "run".into(),
        owner_epoch: 1,
        workspace_generation: "g".into(),
        tree_id: tree.map(str::to_string),
        status,
    }
}

#[test]
fn checkpoint_receipts_must_answer_the_request() {
    let requested = checkpoint(None, CheckpointStatus::Requested);
    assert!(validate_receipt(&requested, &checkpoint(Some("t"), CheckpointStatus::Published)).is_ok());
    let mut other = checkpoint(None, CheckpointStatus::Requested);
    other.run_id = "other".into();
    assert_eq!(validate_receipt(&requested, &other), Err(FlowError::ReceiptIdentityMismatch));
    let recorded = checkpoint(Some("t"), CheckpointStatus::Publishing);
    assert_eq!(validate_receipt(&recorded, &checkpoint(Some("u"), CheckpointStatus::Published)), Err(FlowError::TreeChanged));
    assert_eq!(publish_step(CheckpointStatus::Requested), Ok(PublishStep::Capture));
    assert_eq!(publish_step(CheckpointStatus::Publishing), Ok(PublishStep::Done));
    assert_eq!(publish_step(CheckpointStatus::Other), Err(FlowError::Unsupported));
    assert!(check_blob_receipt("h", 3, "h", 3).is_ok());
    assert_eq!(check_blob_receipt("h", 3, "h", 4), Err(FlowError::BlobReceiptMismatch));
    assert!(check_tree_receipt(&requested, &checkpoint(Some("d"), CheckpointStatus::Published), "d").is_ok());
    assert_eq!(check_tree_receipt(&requested, &checkpoint(Some("d"), CheckpointStatus::Publishing), "d"), Err(FlowError::TreeReceiptMismatch));
    let _ = ExecutionView { run_id: "run".into(), status: "running".into(), terminal: false, approval_required: false };
}

fn file(hash: &str, size: u64, mode: u64, chunks: Vec<WireValue>) -> WireValue {
    obj(vec![
        ("chunks", WireValue::Array(chunks)),
        ("mode", WireValue::UInt(mode)),
        ("sha256", WireValue::Str(hash.into())),
        ("size", WireValue::UInt(size)),
    ])
}

#[test]
fn tree_digests_follow_utf16_path_order_and_canonical_json() {
    let a = hex('a');
    let tree = obj(vec![("files", obj(vec![
        ("\u{FF61}", file(&a, 1, 420, vec![chunk(&a, 1)])),
        ("\u{1F600}", file(&a, 2, 493, vec![])),
        ("b", file(&a, 3, 384, vec![chunk(&a, 3), chunk(&a, 3)])),
    ]))]);
    let text = format!(
        "{{\"files\":{{\"b\":{{\"sha256\":\"{a}\",\"size\":3,\"mode\":384,\"chunks\":[{{\"sha256\":\"{a}\",\"size\":3}},{{\"sha256\":\"{a}\",\"size\":3}}]}},\"\u{1F600}\":{{\"sha256\":\"{a}\",\"size\":2,\"mode\":493,\"chunks\":[]}},\"\u{FF61}\":{{\"sha256\":\"{a}\",\"size\":1,\"mode\":420,\"chunks\":[{{\"sha256\":\"{a}\",\"size\":1}}]}}}}}}"
    );
    assert_eq!(tree_digest(&tree).unwrap(), format!("{:x}", sha2::Sha256::digest(text.as_bytes())));
    assert!(utf16_before("\u{1F600}", "\u{FF61}"));
    assert!(!utf16_before("\u{FF61}", "\u{1F600}"));
    assert!(utf16_before("a", "ab"));
    let broken = obj(vec![("files", obj(vec![("x", obj(vec![("chunks", WireValue::Array(vec![]))]))]))]);
    assert_eq!(tree_digest(&broken), Err(FlowError::InvalidFileHash));
    assert_eq!(tree_digest(&obj(vec![])), Err(FlowError::InvalidTree));
}

#[test]
fn capture_bounds_empty_directory_depth() {
    // 129 nested empty directories: each counts as an entry, and the deepest
    // lies past the depth a capture enters.
    let mut capture = Capture::new();
    let mut refused = None;
    for depth in 1..=129u64 {
        capture.count_entry().unwrap();
        if let Err(e) = capture.enter(depth) {
            refused = Some((depth, e));
            break;
        }
    }
    assert_eq!(refused, Some((129, WorkspaceError::DepthLimit)));
    assert_eq!(capture.entries, 129);
}

#[test]
fn capture_versions_hard_linked_files_as_independent_copies() {
    // Two names of one hard-linked file, and a file linked from outside the
    // workspace: each is admitted and counted as its own file.
    let mut c = Capture::new();
    assert!(c.admit_file(true, 14).is_ok());
    c.keep_file();
    assert!(c.admit_file(true, 7).is_ok());
    c.keep_file();
    assert!(c.admit_file(true, 7).is_ok());
    c.keep_file();
    assert_eq!((c.files, c.bytes), (3, 28));
}

#[test]
fn capture_skips_symlinks_without_reading_targets() {
    assert_eq!(entry_action(true, false), EntryAction::Skip);
    assert_eq!(entry_action(true, true), EntryAction::Skip);
    assert_eq!(entry_action(false, true), EntryAction::Enter);
    assert_eq!(entry_action(false, false), EntryAction::Capture);
}

fn record(hash: char, size: u64) -> FileRecord {
    file_record(hex(hash), size, 0o100644, vec![(hex(hash), size)])
}

#[test]
fn file_records_keep_permission_bits_and_a_second_traversal_must_agree() {
    let r = file_record(hex('a'), 7, 0o100755, vec![(hex('b'), 7)]);
    assert_eq!((r.size, r.mode), (7, 0o755));
    assert!(same_record(&r, &file_record(hex('a'), 7, 0o755, vec![(hex('b'), 7)])));
    assert!(!same_record(&r, &file_record(hex('a'), 7, 0o644, vec![(hex('b'), 7)])));
    assert!(!same_record(&r, &file_record(hex('a'), 7, 0o755, vec![(hex('c'), 7)])));
    let first = vec![("a.txt".to_string(), record('1', 7)), ("b.txt".to_string(), record('1', 7))];
    // The same files found in another order still agree.
    let second = vec![("b.txt".to_string(), record('1', 7)), ("a.txt".to_string(), record('1', 7))];
    assert!(captures_agree(&first, &second, true).is_ok());
    assert_eq!(captures_agree(&first, &second, false), Err(WorkspaceError::ChangedDuringCapture));
    let edited = vec![("a.txt".to_string(), record('2', 7)), ("b.txt".to_string(), record('1', 7))];
    assert_eq!(captures_agree(&first, &edited, true), Err(WorkspaceError::ChangedDuringCapture));
    let removed = vec![("a.txt".to_string(), record('1', 7))];
    assert_eq!(captures_agree(&first, &removed, true), Err(WorkspaceError::ChangedDuringCapture));
    assert_eq!(captures_agree(&removed, &first, true), Err(WorkspaceError::ChangedDuringCapture));
    assert_eq!(
        WorkspaceError::ChangedDuringCapture.message(),
        "workspace changed during capture; no checkpoint was published"
    );
}
