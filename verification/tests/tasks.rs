use sikaru::api::ObservationStatus;
use sikaru::process::{
    cleanup_verdict, copy_budget, exit_returncode, find_state, group_has_live, live_group_stat,
    maintain_decision, names_process, observe, owns_operation, recovered, tick_decision, ProcEntry,
    ProcessError, ProcessReason, ProcessState, ProcessStatus,
};
use sikaru::tasks::{
    allowed, handle_ids, integer_arg, output_limit, page_bounds, page_offset, parse_conditions,
    resolve, settle_outcome, split_completed, start_request, string_arg, tail_bytes, task_env,
    next_completed_answer, task_method, unknown_handle_result, wait_status, write_text_request, Condition, TaskMethod, Outcome, PathState, TaskError, WaitReason,
};
use sikaru::types::WaitForResultStatus;
use sikaru::value::WireValue;

fn s(text: &str) -> WireValue {
    WireValue::Str(text.into())
}

fn object(members: &[(&str, WireValue)]) -> WireValue {
    WireValue::Object(members.iter().map(|(k, v)| (k.to_string(), clone(v))).collect())
}

fn clone(v: &WireValue) -> WireValue {
    match v {
        WireValue::Null => WireValue::Null,
        WireValue::Bool(b) => WireValue::Bool(*b),
        WireValue::UInt(n) => WireValue::UInt(*n),
        WireValue::NegInt(n) => WireValue::NegInt(*n),
        WireValue::Fraction => WireValue::Fraction,
        WireValue::Str(t) => WireValue::Str(t.clone()),
        WireValue::Array(items) => WireValue::Array(items.iter().map(clone).collect()),
        WireValue::Object(members) => WireValue::Object(members.iter().map(|(k, v)| (k.clone(), clone(v))).collect()),
    }
}

fn args(members: &[(&str, WireValue)]) -> Vec<(String, WireValue)> {
    members.iter().map(|(k, v)| (k.to_string(), clone(v))).collect()
}

const HANDLE: &str = "0123456789abcdef0123456789abcdef";

#[test]
fn wait_conditions_carry_exactly_their_fields() {
    let exit = object(&[("kind", s("exit")), ("handle_id", s(HANDLE))]);
    assert!(matches!(Condition::parse(&exit, "/work"), Ok(Condition::Exit(h)) if h == HANDLE));
    let extra = object(&[("kind", s("exit")), ("handle_id", s(HANDLE)), ("x", WireValue::Null)]);
    assert_eq!(Condition::parse(&extra, "/work").unwrap_err(), TaskError::InvalidCondition);
    let missing = object(&[("kind", s("log")), ("handle_id", s(HANDLE))]);
    assert_eq!(Condition::parse(&missing, "/work").unwrap_err(), TaskError::InvalidCondition);
    let path = object(&[("kind", s("path")), ("path", s("out/done")), ("state", s("exists"))]);
    assert!(matches!(Condition::parse(&path, "/work"),
        Ok(Condition::Path { path, state: PathState::Exists }) if path == "/work/out/done"));
    let port = object(&[("kind", s("port")), ("port", WireValue::UInt(8080)), ("host", s("localhost"))]);
    assert!(matches!(Condition::parse(&port, "/work"), Ok(Condition::Port { port: 8080, .. })));
    let zero = object(&[("kind", s("port")), ("port", WireValue::UInt(0)), ("host", s("localhost"))]);
    assert!(Condition::parse(&zero, "/work").is_err());
    let http = object(&[("kind", s("http")), ("url", s("ftp://x")), ("status", WireValue::UInt(200))]);
    assert!(Condition::parse(&http, "/work").is_err());
    let http = object(&[("kind", s("http")), ("url", s("https://x")), ("status", WireValue::UInt(200))]);
    assert!(matches!(Condition::parse(&http, "/work"), Ok(Condition::Http { status: 200, .. })));
    let short = object(&[("kind", s("exit")), ("handle_id", s("abc"))]);
    assert!(Condition::parse(&short, "/work").is_err());
    let nul = object(&[("kind", s("log")), ("handle_id", s(HANDLE)), ("pattern", s("a\0b"))]);
    assert!(Condition::parse(&nul, "/work").is_err());
    assert!(Condition::parse(&s("exit"), "/work").is_err());
}

#[test]
fn a_wait_names_one_to_sixty_four_conditions() {
    assert_eq!(parse_conditions(None, "/w").unwrap_err(), TaskError::InvalidConditions);
    assert_eq!(parse_conditions(Some(&WireValue::Array(vec![])), "/w").unwrap_err(), TaskError::InvalidConditions);
    let one = object(&[("kind", s("exit")), ("handle_id", s(HANDLE))]);
    let many = WireValue::Array((0..65).map(|_| clone(&one)).collect());
    assert_eq!(parse_conditions(Some(&many), "/w").unwrap_err(), TaskError::InvalidConditions);
    let two = WireValue::Array(vec![clone(&one), clone(&one)]);
    assert_eq!(parse_conditions(Some(&two), "/w").unwrap().len(), 2);
}

#[test]
fn paths_resolve_like_path_join() {
    assert_eq!(resolve("/work", "a/b"), "/work/a/b");
    assert_eq!(resolve("/work/", "a"), "/work/a");
    assert_eq!(resolve("/work", "/etc/x"), "/etc/x");
    assert_eq!(resolve("", "a"), "a");
    assert_eq!(resolve("/work", ""), "/work/");
}

#[test]
fn candidates_are_kept_once_in_order() {
    let ids = WireValue::Array(vec![s("b"), s("a"), s("b")]);
    assert_eq!(handle_ids(Some(&ids)).unwrap(), vec!["b".to_string(), "a".to_string()]);
    let bad = WireValue::Array(vec![s("a"), s("")]);
    assert_eq!(handle_ids(Some(&bad)).unwrap_err(), TaskError::InvalidHandleIds);
    assert_eq!(handle_ids(None).unwrap_err(), TaskError::InvalidHandleIds);
}

#[test]
fn arguments_are_checked_by_name_and_type() {
    let a = args(&[("command", s("ls")), ("limit", WireValue::UInt(0))]);
    assert!(allowed(&a, &["command", "limit"]).is_ok());
    assert_eq!(allowed(&a, &["command"]).unwrap_err(), TaskError::UnknownArguments);
    assert_eq!(string_arg(&a, "command").unwrap(), "ls");
    assert_eq!(string_arg(&a, "limit").unwrap_err(), TaskError::MissingString);
    assert_eq!(integer_arg(&a, "offset", 7).unwrap(), 7);
    assert_eq!(output_limit(&a, 8192).unwrap_err(), TaskError::InvalidLimit);
    let big = args(&[("limit", WireValue::UInt(1 << 20))]);
    assert_eq!(output_limit(&big, 8192).unwrap(), 24576);
    assert_eq!(output_limit(&args(&[]), 8192).unwrap(), 8192);
    let neg = args(&[("limit", WireValue::NegInt(-1))]);
    assert_eq!(output_limit(&neg, 8192).unwrap_err(), TaskError::ExpectedInteger);
    assert_eq!(tail_bytes(&args(&[])).unwrap(), 1024);
    assert_eq!(tail_bytes(&args(&[("tail_bytes", WireValue::UInt(0))])).unwrap_err(), TaskError::InvalidTail);
}

#[test]
fn a_page_reads_the_tail_by_default() {
    assert_eq!(page_offset(&args(&[]), 100, 30).unwrap(), 70);
    assert_eq!(page_offset(&args(&[]), 10, 30).unwrap(), 0);
    assert_eq!(page_offset(&args(&[("offset", WireValue::UInt(5))]), 100, 30).unwrap(), 5);
    let b = page_bounds(70, 30, 100);
    assert_eq!((b.offset, b.next_offset, b.total_bytes, b.omitted_before, b.omitted_after), (70, 100, 100, 70, 0));
    let b = page_bounds(150, 0, 100);
    assert_eq!((b.omitted_before, b.omitted_after), (100, 0));
    let b = page_bounds(u64::MAX, 5, 100);
    assert_eq!(b.next_offset, u64::MAX);
}

#[test]
fn a_wait_reports_fired_unfired_or_timeout() {
    let fired = Outcome { fired: true, reason: None };
    let exited = Outcome { fired: false, reason: Some(WaitReason::Exited) };
    let pending = settle_outcome(None, false);
    assert_eq!(pending.reason, Some(WaitReason::Pending));
    assert_eq!(settle_outcome(None, true).reason, Some(WaitReason::Deadline));
    assert!(matches!(wait_status(&vec![exited, fired]), WaitForResultStatus::Fired));
    assert!(matches!(wait_status(&vec![exited, Outcome { fired: false, reason: Some(WaitReason::Unsupported) }]), WaitForResultStatus::Unfired));
    assert!(matches!(wait_status(&vec![exited, pending]), WaitForResultStatus::Timeout));
    assert!(matches!(wait_status(&vec![]), WaitForResultStatus::Unfired));
}

#[test]
fn the_first_completion_leaves_the_others_pending() {
    let ids = vec!["a".to_string(), "b".to_string(), "c".to_string()];
    let (i, pending) = split_completed(&ids, &vec![false, true, true]).unwrap();
    assert_eq!(i, 1);
    assert_eq!(pending, vec!["a".to_string(), "c".to_string()]);
    assert!(split_completed(&ids, &vec![false, false, false]).is_none());
}

#[test]
fn a_start_request_needs_a_command_and_only_known_names() {
    let r = start_request(&args(&[("command", s("echo hi")), ("cwd", s("sub"))]), "/work").unwrap();
    assert_eq!((r.command.as_str(), r.cwd.as_str()), ("echo hi", "/work/sub"));
    let r = start_request(&args(&[("command", s("true"))]), "/work").unwrap();
    assert_eq!(r.cwd, "/work/.");
    assert_eq!(start_request(&args(&[("command", s(" \t\n"))]), "/w").unwrap_err(), TaskError::EmptyCommand);
    assert_eq!(start_request(&args(&[("command", s("x")), ("cwd", WireValue::UInt(1))]), "/w").unwrap_err(), TaskError::CwdNotString);
    assert_eq!(start_request(&args(&[("command", s("x")), ("shell", s("zsh"))]), "/w").unwrap_err(), TaskError::UnknownArguments);
    assert_eq!(start_request(&args(&[]), "/w").unwrap_err(), TaskError::MissingString);
}

#[test]
fn tasks_never_see_the_executors_own_variables() {
    let base = vec![
        ("PATH".to_string(), "/bin".to_string()),
        ("SIKARU_API_KEY".to_string(), "secret".to_string()),
        ("sikaru_token".to_string(), "secret".to_string()),
    ];
    let env = task_env(&base, None).unwrap();
    assert_eq!(env, vec![("PATH".to_string(), "/bin".to_string())]);
    let extra = object(&[("PATH", s("/usr/bin")), ("SIKARU_X", s("y")), ("HOME", s("/h"))]);
    let env = task_env(&base, Some(&extra)).unwrap();
    let map: std::collections::BTreeMap<_, _> = env.into_iter().collect();
    assert_eq!(map.get("PATH").unwrap(), "/usr/bin");
    assert_eq!(map.get("HOME").unwrap(), "/h");
    assert!(!map.contains_key("SIKARU_X"));
    assert_eq!(task_env(&base, Some(&s("x"))).unwrap_err(), TaskError::EnvNotObject);
    let bad = object(&[("A", WireValue::UInt(1))]);
    assert_eq!(task_env(&base, Some(&bad)).unwrap_err(), TaskError::EnvValueNotString);
}

#[test]
fn recovered_processes_are_no_longer_owned() {
    let running = ProcessState::started("p".into());
    let r = recovered(&running);
    assert_eq!(r.status, ProcessStatus::Failed);
    assert_eq!(r.reason, Some(ProcessReason::OwnershipLost));
    assert_eq!(observe("p", Some(&r)).status, ObservationStatus::Lost);
    assert_eq!(observe("p", None).status, ObservationStatus::Lost);
    assert_eq!(observe("p", Some(&running)).status, ObservationStatus::Running);
    assert_eq!(observe("p", Some(&running)).evidence, "native owned process registry");
    let terminal = vec![("p".to_string(), r)];
    assert_eq!(cleanup_verdict(false, &terminal).unwrap_err(), ProcessError::CleanupUnconfirmed);
    assert!(cleanup_verdict(false, &vec![]).is_ok());
    assert!(cleanup_verdict(true, &vec![]).is_err());
    let mut exited = ProcessState::started("q".into());
    exited.record_exit(exit_returncode(None, Some(9)), false, true, false);
    assert_eq!((exited.status, exited.returncode, exited.truncated), (ProcessStatus::Exited, Some(-9), true));
    assert_eq!(exit_returncode(Some(3), Some(9)), Some(3));
}

#[test]
fn owned_jobs_are_found_before_recorded_ones() {
    let mut job = ProcessState::started("a".into());
    job.operation_key = Some("run/call".into());
    let jobs = vec![("a".to_string(), job)];
    let terminal = vec![("a".to_string(), recovered(&ProcessState::started("a".into()))), ("b".to_string(), ProcessState::started("b".into()))];
    assert_eq!(find_state(&jobs, &terminal, "a").unwrap().status, ProcessStatus::Running);
    assert_eq!(find_state(&jobs, &terminal, "b").unwrap().id, "b");
    assert!(find_state(&jobs, &terminal, "c").is_none());
    assert!(owns_operation(&jobs, "run/call"));
    assert!(!owns_operation(&jobs, "run/other"));
}

#[test]
fn supervision_finishes_exited_expired_or_truncated_jobs() {
    assert_eq!(maintain_decision(false, false, true, false), (true, true));
    assert_eq!(maintain_decision(true, false, true, false), (false, true));
    assert_eq!(maintain_decision(false, false, false, false), (false, false));
    assert_eq!(tick_decision(false, false, true), (false, true));
    assert_eq!(copy_budget(10, 4), (4, 0, true));
    assert_eq!(copy_budget(3, 4), (3, 1, false));
}

#[test]
fn a_process_state_line_shows_a_live_group_member() {
    assert_eq!(live_group_stat("123 (bash) S 1 123 123 0", 123), Ok(true));
    assert_eq!(live_group_stat("123 (a) b) Z 1 123 123", 123), Ok(false));
    assert_eq!(live_group_stat("123 (bash) S 1 456", 123), Ok(false));
    assert_eq!(live_group_stat("no marker", 1), Err(ProcessError::InvalidStat));
    assert_eq!(live_group_stat("1 (x) S 1", 1), Err(ProcessError::IncompleteStat));
    assert_eq!(live_group_stat("1 (x) S 1 +7", 7), Ok(true));
    assert_eq!(live_group_stat("1 (x) S 1 99999999999", 7), Err(ProcessError::InvalidNumber));
    assert!(names_process("42") && names_process("-1") && !names_process("self") && !names_process(""));
    let entries = vec![
        ProcEntry { name: "self".into(), group: Some(5), stat: Some("garbage".into()) },
        ProcEntry { name: "10".into(), group: Some(6), stat: Some("10 (x) S 1 6".into()) },
        ProcEntry { name: "11".into(), group: Some(5), stat: None },
        ProcEntry { name: "12".into(), group: Some(5), stat: Some("12 (x) Z 1 5".into()) },
        ProcEntry { name: "13".into(), group: Some(5), stat: Some("13 (x) R 1 5".into()) },
    ];
    assert_eq!(group_has_live(&entries, 5), Ok(true));
    assert_eq!(group_has_live(&entries[..4].iter().map(|e| ProcEntry { name: e.name.clone(), group: e.group, stat: e.stat.clone() }).collect(), 5), Ok(false));
}

#[test]
fn a_write_needs_a_path_and_text_and_nothing_else() {
    let r = write_text_request(&args(&[("path", s("notes/a.txt")), ("text", s("hello"))]), "/work").unwrap();
    assert_eq!((r.path.as_str(), r.text.as_str()), ("/work/notes/a.txt", "hello"));
    let r = write_text_request(&args(&[("path", s("/tmp/b")), ("text", s(""))]), "/work").unwrap();
    assert_eq!(r.path, "/tmp/b");
    assert_eq!(
        write_text_request(&args(&[("path", s("a")), ("text", s("b")), ("mode", s("x"))]), "/w").unwrap_err(),
        TaskError::UnknownArguments
    );
    assert_eq!(write_text_request(&args(&[("path", s("a"))]), "/w").unwrap_err(), TaskError::MissingString);
    assert_eq!(
        write_text_request(&args(&[("path", WireValue::UInt(3)), ("text", s("b"))]), "/w").unwrap_err(),
        TaskError::MissingString
    );
}

#[test]
fn operations_are_chosen_by_method_name() {
    assert_eq!(task_method("bash.run"), Some(TaskMethod::Run));
    assert_eq!(task_method("workspace.write_text"), Some(TaskMethod::WriteText));
    assert_eq!(task_method("bash.start"), Some(TaskMethod::Start));
    assert_eq!(task_method("bash.read"), Some(TaskMethod::Read));
    assert_eq!(task_method("bash.wait"), Some(TaskMethod::Wait));
    assert_eq!(task_method("bash.wait_for"), Some(TaskMethod::WaitFor));
    assert_eq!(task_method("jobs.next_completed"), Some(TaskMethod::NextCompleted));
    assert_eq!(task_method("bash.cancel"), Some(TaskMethod::Cancel));
    assert_eq!(task_method("bash.kill"), None);
    assert_eq!(task_method(""), None);
}

#[test]
fn an_unknown_handle_is_answered_with_advice() {
    match unknown_handle_result("call_123") {
        WireValue::Object(members) => {
            assert_eq!(members.len(), 3);
            assert!(matches!(&members[0], (k, WireValue::Str(v)) if k == "status" && v == "error"));
            assert!(matches!(&members[1], (k, WireValue::Str(v)) if k == "handle_id" && v == "call_123"));
            match &members[2] {
                (k, WireValue::Object(e)) if k == "error" => {
                    assert!(matches!(&e[0], (k, WireValue::Str(v)) if k == "code" && v == "unknown_process_handle"));
                    assert!(matches!(&e[1], (k, WireValue::Str(v)) if k == "message" && v.contains("not a tool-call id")));
                }
                _ => panic!("error object"),
            }
        }
        _ => panic!("object"),
    }
}

#[test]
fn the_first_completed_process_is_answered_with_the_rest_pending() {
    let ids = vec!["a".to_string(), "b".to_string(), "c".to_string()];
    let none = next_completed_answer(&ids, &vec![false, false, false]);
    assert!(none.completed.is_none());
    assert_eq!(none.pending, ids);
    let some = next_completed_answer(&ids, &vec![false, true, true]);
    assert_eq!(some.completed.as_deref(), Some("b"));
    assert_eq!(some.pending, vec!["a".to_string(), "c".to_string()]);
}
