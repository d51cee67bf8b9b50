use sikaru::chat::{chat_command, safe_output, turn_args, usage_line, ChatCommand, TurnOptions};
use sikaru::compute::exit_code;
use sikaru::diagnostics::{admission_failure, advice, failure, AdmissionFailure, FailureCause, UnavailableRelease};
use sikaru::doctor::{doctor_ready, executable, local_checks, require_shell, FileMode};
use sikaru::input::{prompt, read_text};
use sikaru::state::{last_snapshot, snapshot_record, StateError};
use sikaru::transport::{ApiFailure, TransportFailure};

#[test]
fn missing_shell_is_required_but_search_is_optional() {
    let checks = local_checks(true, None, false);
    assert!(checks[0].ok);
    assert!(!checks[1].ok);
    assert!(checks[1].required);
    assert!(!checks[2].ok);
    assert!(!checks[2].required);
    assert!(checks[2].help.unwrap().contains("fallback"));
    assert!(!doctor_ready(&checks, true));
    let bash = Some(FileMode { is_file: true, mode: 0o100755 });
    assert!(doctor_ready(&local_checks(true, bash, false), true));
    assert!(!doctor_ready(&local_checks(true, bash, true), false));
    let protocol = local_checks(true, bash, true)[3];
    assert_eq!((protocol.name, protocol.help, protocol.version), ("local_protocol", None, Some("sikaru-compute-v1")));
    assert!(protocol.scope.unwrap().starts_with("This CLI's supported protocol"));
}

#[test]
fn exit_codes_name_each_outcome() {
    assert_eq!(exit_code(Some("completed")), 0);
    assert_eq!(exit_code(Some("failed")), 1);
    assert_eq!(exit_code(Some("approval_required")), 2);
    assert_eq!(exit_code(Some("cancelled")), 3);
    assert_eq!(exit_code(Some("recovery_required")), 4);
    assert_eq!(exit_code(None), 1);
}

#[test]
fn prompts_must_be_utf8_within_one_mebibyte_and_not_blank() {
    assert_eq!(read_text(b"task".to_vec()).unwrap(), "task");
    assert_eq!(read_text(vec![0xff, 0xfe]).unwrap_err().0, "Prompt input must be valid UTF-8.");
    assert_eq!(read_text(vec![b'a'; 1_048_577]).unwrap_err().0, "Prompt input exceeds 1 MiB.");
    assert!(read_text(vec![b'a'; 1_048_576]).is_ok());
    assert!(prompt(Some("  \n".into()), true).unwrap_err().0.starts_with("The prompt is empty"));
    assert!(prompt(None, false).unwrap_err().0.starts_with("Supply a task"));
    assert_eq!(prompt(None, true).unwrap(), None);
    assert_eq!(prompt(Some("go".into()), false).unwrap(), Some("go".to_string()));
    assert!(require_shell(Some(FileMode { is_file: true, mode: 0o100755 })).is_ok());
    assert!(require_shell(Some(FileMode { is_file: true, mode: 0o100001 })).is_ok());
    assert!(require_shell(None).unwrap_err().0.contains("/bin/bash"));
    assert!(require_shell(Some(FileMode { is_file: true, mode: 0o100644 })).is_err());
    assert!(require_shell(Some(FileMode { is_file: false, mode: 0o40755 })).is_err());
    assert!(!executable(Some(FileMode { is_file: false, mode: 0o40755 })));
}

#[test]
fn billing_failure_provides_advice_without_exposing_response_body() {
    let help = advice(Some(TransportFailure::Rejected(402)));
    assert!(help.contains("subscription"));
    assert!(!help.contains("secret-provider-token"));
    assert!(advice(Some(TransportFailure::Rejected(401))).contains("auth login"));
    assert!(advice(Some(TransportFailure::Transient)).contains("connectivity"));
    assert!(advice(None).starts_with("Preserve the original workspace"));
    assert!(sikaru::doctor::advice(Some(TransportFailure::Rejected(401))).contains("auth login"));
    assert!(sikaru::doctor::advice(Some(TransportFailure::Permanent)).contains("No run was started"));
    assert_eq!(UnavailableRelease.message(), "agent_release_unavailable");
    assert_eq!(
        admission_failure(ApiFailure::Conflict { detail: Some("agent_release_unavailable".into()) }),
        AdmissionFailure::Unavailable
    );
    assert_eq!(
        admission_failure(ApiFailure::Conflict { detail: Some("other".into()) }),
        AdmissionFailure::Transport(TransportFailure::Permanent)
    );
    assert_eq!(admission_failure(ApiFailure::Forbidden), AdmissionFailure::Transport(TransportFailure::Rejected(403)));
}

#[test]
fn chat_lines_are_trimmed_commands_or_tasks() {
    assert_eq!(chat_command("/exit\n"), ChatCommand::Exit);
    assert_eq!(chat_command("  /quit "), ChatCommand::Exit);
    assert_eq!(chat_command("/help\n"), ChatCommand::Help);
    assert_eq!(chat_command("/status"), ChatCommand::Status);
    assert_eq!(chat_command(" \n"), ChatCommand::Skip);
    assert_eq!(chat_command("fix the tests\n"), ChatCommand::Task);
    assert_eq!(safe_output("a\u{1b}[31mb\tc\nd\u{7}"), "a[31mb\tc\nd");
}

#[test]
fn the_last_snapshot_line_is_authoritative() {
    assert_eq!(snapshot_record(b"{}".to_vec()).unwrap(), b"{}\n".to_vec());
    assert_eq!(snapshot_record(vec![b'a'; 16 * 1024 * 1024]).unwrap_err(), StateError::SnapshotTooLarge);
    assert_eq!(last_snapshot("{\"a\":1}\n{\"a\":2}\n").unwrap(), "{\"a\":2}");
    assert_eq!(last_snapshot("{\"a\":1}\r\n").unwrap(), "{\"a\":1}");
    assert_eq!(last_snapshot("x\n\n").unwrap(), "");
    assert_eq!(last_snapshot("{\"a\":1}").unwrap_err(), StateError::Incomplete);
    assert_eq!(last_snapshot("").unwrap_err(), StateError::Incomplete);
}

#[test]
fn usage_lines_report_counts_and_partial_coverage() {
    assert_eq!(usage_line(1200, 300, 45, None), "Tokens: 1200 input (300 cached), 45 output.");
    assert_eq!(usage_line(0, 0, 7, Some(true)), "Tokens: 0 input (0 cached), 7 output.");
    assert_eq!(usage_line(10, 2, 3, Some(false)), "Tokens (partial): 10 input (2 cached), 3 output.");
}

fn options() -> TurnOptions {
    TurnOptions {
        project: Some("proj".into()),
        agent: None,
        workspace: Some("/w".into()),
        tenant: None,
        user: Some("u".into()),
        model: None,
        timeout: 600,
        approval_wait: 30,
        state_dir: Some("/state".into()),
    }
}

#[test]
fn chat_turns_carry_options_and_resume_the_session() {
    let first = turn_args(&options(), None, "fix it");
    assert_eq!(
        first,
        vec!["exec", "--project", "proj", "--workspace", "/w", "--user", "u", "--timeout", "600",
            "--approval-wait", "30", "--state-dir", "/state", "--prompt=fix it"]
    );
    let next = turn_args(&options(), Some("/saved"), "again");
    assert_eq!(
        next,
        vec!["exec", "--project", "proj", "--workspace", "/w", "--user", "u", "--timeout", "600",
            "--approval-wait", "30", "--resume", "/saved", "--prompt=again"]
    );
    let bare = TurnOptions { state_dir: None, ..options() };
    assert_eq!(turn_args(&bare, None, "x").last().unwrap(), "--prompt=x");
    assert_eq!(turn_args(&bare, None, "x").len(), 12);
}

#[test]
fn failures_report_whether_work_started() {
    let input = failure(FailureCause::InvalidInput("The prompt is empty."));
    assert_eq!((input.status, input.reason, input.message, input.cleanup), ("failed", Some("invalid_input"), Some("The prompt is empty."), "not_started"));
    assert!(input.help.is_none());
    let release = failure(FailureCause::UnavailableRelease);
    assert_eq!((release.status, release.reason, release.cleanup), ("failed", Some("agent_release_unavailable"), "not_started"));
    assert!(release.help.unwrap().starts_with("No work started."));
    let other = failure(FailureCause::Other(Some(TransportFailure::Rejected(402))));
    assert_eq!((other.status, other.reason, other.cleanup), ("recovery_required", None, "unconfirmed"));
    assert_eq!(other.help, Some(advice(Some(TransportFailure::Rejected(402)))));
    assert!(other.help.unwrap().starts_with("Billing blocked"));
}
