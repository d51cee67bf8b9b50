use sikaru::workspace::NodeStat;
use sikaru::config::{command_timeout, control_variable, Bootstrap, ConfigError, WorkspaceProvenance};
use sikaru::types::{
    CloseFrameReason, ConditionOutcomeReason, ExitCondition, HeartbeatFrame, HttpCondition,
    LogCondition, PathCondition, PathConditionState, PortCondition, SubscriptionPlanChange,
    SubscriptionPlanChangePlan, WaitForResultStatus,
};

#[test]
fn builders_require_every_field_in_declaration_order() {
    assert_eq!(ExitCondition::builder().build().unwrap_err().field, "handle_id");
    assert_eq!(ExitCondition::builder().handle_id("h".into()).build().unwrap().handle_id, "h");
    assert_eq!(HttpCondition::builder().url("u".into()).build().unwrap_err().field, "status");
    let http = HttpCondition::builder().status(200).url("https://x".into()).build().unwrap();
    assert_eq!((http.status, http.url.as_str()), (200, "https://x"));
    assert_eq!(LogCondition::builder().pattern("p".into()).build().unwrap_err().field, "handle_id");
    assert_eq!(PathCondition::builder().path("p".into()).build().unwrap_err().field, "state");
    let path = PathCondition::builder().path("p".into()).state(PathConditionState::Missing).build().unwrap();
    assert_eq!(path.state, PathConditionState::Missing);
    assert_eq!(PortCondition::builder().port(80).build().unwrap_err().field, "host");
    let change = SubscriptionPlanChange::builder()
        .effective_at(5)
        .id("id".into())
        .plan(SubscriptionPlanChangePlan { value: "pro".into() })
        .build();
    assert_eq!(change.unwrap_err().field, "state");
    assert!(HeartbeatFrame::builder().build().is_ok());
}

#[test]
fn wire_names_round_trip_and_unknown_values_are_kept() {
    assert_eq!(CloseFrameReason::from_wire("stale_owner".into()).as_str(), "stale_owner");
    let unknown = CloseFrameReason::from_wire("future_reason".into());
    assert!(matches!(&unknown, CloseFrameReason::__Unknown(s) if s == "future_reason"));
    assert_eq!(unknown.as_str(), "future_reason");
    assert_eq!(ConditionOutcomeReason::from_wire("deadline".into()), ConditionOutcomeReason::Deadline);
    assert_eq!(PathConditionState::from_wire("changed".into()).as_str(), "changed");
    assert_eq!(WaitForResultStatus::from_wire("timeout".into()), WaitForResultStatus::Timeout);
}

fn bootstrap() -> Bootstrap {
    Bootstrap {
        project_id: "p".into(),
        session_id: "s".into(),
        attachment_id: "a".into(),
        owner_epoch: 1,
        workspace_generation: "g".into(),
        journal_id: "j".into(),
        credential_id: "c".into(),
        token: "SECRET-REDACTED".into(),
        workspace_provenance: WorkspaceProvenance { kind: "sandbox".into(), identity: "i".into() },
        workspace: "/w".into(),
        state_dir: "/s".into(),
        command_timeout_seconds: command_timeout(),
    }
}

#[test]
fn bootstraps_need_identities_and_bounded_deadlines() {
    assert!(bootstrap().validate().is_ok());
    let mut empty = bootstrap();
    empty.token = String::new();
    assert_eq!(empty.validate(), Err(ConfigError::EmptyIdentity));
    let mut zero = bootstrap();
    zero.owner_epoch = 0;
    assert_eq!(zero.validate(), Err(ConfigError::InvalidBounds));
    let mut long = bootstrap();
    long.command_timeout_seconds = 86401;
    assert_eq!(long.validate(), Err(ConfigError::InvalidBounds));
    assert!(matches!(Bootstrap::read(65537, Some(bootstrap())), Err(ConfigError::TooLarge)));
    assert!(matches!(Bootstrap::read(10, None), Err(ConfigError::Invalid)));
    assert!(Bootstrap::read(10, Some(bootstrap())).is_ok());
    assert!(control_variable("SIKARU_API_KEY") && control_variable("sikaru_x") && !control_variable("PATH"));
}

fn node(mode: u32, nlink: u64, uid: u32, is_file: bool) -> NodeStat {
    NodeStat {
        dev: 1, ino: 2, len: 100, mtime: 0, mtime_nsec: 0, ctime: 0, ctime_nsec: 0,
        mode, nlink, uid, is_file, is_dir: !is_file,
    }
}

#[test]
fn bootstrap_files_must_be_private_and_owned() {
    let private = node(0o100600, 1, 1000, true);
    assert!(Bootstrap::read_private(Some(&private), 1000, 10, Some(bootstrap())).is_ok());
    assert!(Bootstrap::read_private(None, 1000, 10, Some(bootstrap())).is_ok());
    for bad in [
        node(0o100640, 1, 1000, true),
        node(0o100604, 1, 1000, true),
        node(0o100600, 2, 1000, true),
        node(0o100600, 1, 0, true),
        node(0o40700, 1, 1000, false),
    ] {
        assert!(matches!(
            Bootstrap::read_private(Some(&bad), 1000, 10, Some(bootstrap())),
            Err(ConfigError::NotPrivate)
        ));
    }
    assert!(matches!(Bootstrap::read_private(Some(&private), 1000, 65537, Some(bootstrap())), Err(ConfigError::TooLarge)));
    assert_eq!(ConfigError::NotPrivate.message(), "bootstrap must be a private, owned regular file");
}
