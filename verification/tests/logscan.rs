use sikaru::logscan::{log_result, watch_pattern, LogScan, Pattern, CARRY_BYTES};
use sikaru::tasks::{Outcome, WaitReason};

#[test]
fn a_match_spanning_two_reads_is_found() {
    let pattern = Pattern::new("a+b").unwrap();
    let mut scan = LogScan::new();
    assert!(!scan.step(&pattern, b"start xxaa"));
    assert_eq!(scan.offset, 10);
    assert_eq!(scan.carry, b"start xxaa".to_vec());
    assert!(scan.step(&pattern, b"ab tail"));
    assert_eq!(scan.offset, 17);
    assert_eq!(scan.matched.as_deref(), Some("aaab"));
    assert!(scan.carry.is_empty());
}

#[test]
fn only_the_tail_is_carried_and_reported_matches_are_cut() {
    let pattern = Pattern::new("needle").unwrap();
    let mut scan = LogScan::new();
    let noise = vec![b'x'; CARRY_BYTES + 100];
    assert!(!scan.step(&pattern, &noise));
    assert_eq!(scan.carry.len(), CARRY_BYTES);
    assert!(scan.matched.is_none());

    let long = Pattern::new("z+").unwrap();
    let mut scan = LogScan::new();
    assert!(scan.step(&long, &vec![b'z'; 1500]));
    assert_eq!(scan.matched.as_ref().map(|m| m.chars().count()), Some(1000));
}

#[test]
fn invalid_output_bytes_are_reported_with_replacement_characters() {
    let pattern = Pattern::new(r"(?-u:a\xFFb)").unwrap();
    let mut scan = LogScan::new();
    assert!(scan.step(&pattern, b"..a\xffb.."));
    assert_eq!(scan.matched.as_deref(), Some("a\u{FFFD}b"));
}

#[test]
fn patterns_the_engine_lacks_are_unsupported() {
    assert!(Pattern::new("foo(bar").is_none());
    // Look-around is not in this engine's syntax.
    assert!(Pattern::new("(?=x)").is_none());
    assert_eq!(
        watch_pattern("foo(bar", true).err(),
        Some(Outcome { fired: false, reason: Some(WaitReason::Unsupported) })
    );
    assert_eq!(
        watch_pattern("ready", false).err(),
        Some(Outcome { fired: false, reason: Some(WaitReason::Error) })
    );
    assert!(watch_pattern("ready", true).is_ok());
}

#[test]
fn a_watch_waits_until_its_process_finishes() {
    assert_eq!(log_result(Some(true), false), Some(Outcome { fired: true, reason: None }));
    assert_eq!(log_result(Some(false), false), None);
    assert_eq!(
        log_result(Some(false), true),
        Some(Outcome { fired: false, reason: Some(WaitReason::Exited) })
    );
    assert_eq!(log_result(None, false), Some(Outcome { fired: false, reason: Some(WaitReason::Error) }));
}
