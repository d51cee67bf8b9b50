use sikaru::api::{
    AttachmentStatus, AttachmentView, CleanupStatus, ExecutionView, PageTransport, WorkPage,
};
use sikaru::config::WorkspaceProvenance;
use sikaru::journal::{Anchor, Binding};
use sikaru::transport::{
    backoff, channel_backoff, channel_url, classify, cleanup_input, close_code, close_reason,
    credential_deadline, frame_event, inbound, rejected_status, renewal_deadline, transient,
    heartbeat_text, jittered, spread_delay, SocketMessage, ApiFailure, ChannelEnd, ChannelEvent,
    ChannelState, Delivery, Handshake, HandshakeFrameTransport, Inbound, ServerFrame, Transport,
    TransportError, TransportFailure,
};
use sikaru::types::{CloseFrameReason, HandshakeFrameProtocol};

fn provenance() -> WorkspaceProvenance {
    WorkspaceProvenance { kind: "existing_directory".into(), identity: "workspace".into() }
}

fn binding() -> Binding {
    Binding {
        project_id: "project".into(),
        session_id: "session".into(),
        attachment_id: "attachment".into(),
        owner_epoch: 1,
        workspace_generation: "generation".into(),
        journal_id: "journal".into(),
        credential_id: "credential".into(),
        workspace_provenance: provenance(),
        anchor: Anchor { path: "/work".into(), device: 1, inode: 2 },
    }
}

fn attachment(status: AttachmentStatus) -> AttachmentView {
    AttachmentView {
        id: "attachment".into(),
        project_id: "project".into(),
        session_id: "session".into(),
        environment_id: "environment".into(),
        journal_id: "journal".into(),
        owner_epoch: 1,
        workspace_generation: "generation".into(),
        workspace_provenance: provenance(),
        status,
        lease_ttl_seconds: Some(60),
        cleanup_status: CleanupStatus::Unconfirmed,
    }
}

fn page() -> WorkPage {
    WorkPage {
        attachment: attachment(AttachmentStatus::Ready),
        execution: Some(ExecutionView {
            run_id: "run".into(),
            status: "running".into(),
            terminal: false,
            approval_required: false,
        }),
        operations: vec![],
        issued_operations: vec![],
        live_handles: vec![],
        poll_after_seconds: None,
        transport: Some(PageTransport::Channel),
        workspace_checkpoint: None,
    }
}

fn handshake_frame() -> ServerFrame {
    ServerFrame::Handshake {
        attachment_id: "attachment".into(),
        owner_epoch: 1,
        workspace_generation: "generation".into(),
        protocol: Some(HandshakeFrameProtocol::SikaruComputeChannelV1),
        transport: HandshakeFrameTransport::Channel,
    }
}

fn close(reason: &str) -> ChannelEnd {
    match frame_event(ServerFrame::Close {
        detail: String::new(),
        reason: CloseFrameReason::from_wire(reason.to_string()),
    }) {
        Inbound::End(end) => end,
        _ => panic!("close frame"),
    }
}

#[test]
fn server_frames_decode_by_type_and_close_reasons_choose_the_next_transport() {
    let handshake = Handshake::from_frame(handshake_frame()).unwrap();
    assert!(handshake.channel && handshake.protocol_ok && handshake.owner_epoch == 1);
    assert!(matches!(frame_event(ServerFrame::Operations { page: page() }),
        Inbound::Event(ChannelEvent::Page(p)) if p.transport == Some(PageTransport::Channel)));
    assert!(matches!(frame_event(ServerFrame::ReceiptAccepted { run_id: "run".into(), tool_call_id: "call".into() }),
        Inbound::Event(ChannelEvent::Accepted(id)) if id == "call"));
    assert!(matches!(frame_event(ServerFrame::ReceiptRejected {
        detail: "refused".into(), run_id: Some("run".into()), status: 409, tool_call_id: Some("call".into()) }),
        Inbound::Event(ChannelEvent::Rejected(Some(id))) if id == "call"));
    assert!(matches!(frame_event(ServerFrame::Heartbeat), Inbound::Skip));
    // A second handshake or an unknown frame ends the channel.
    assert!(matches!(frame_event(handshake_frame()), Inbound::End(ChannelEnd::Lost)));
    assert!(matches!(frame_event(ServerFrame::Unknown), Inbound::End(ChannelEnd::Lost)));
    assert_eq!(close("transport_poll"), ChannelEnd::Poll);
    for fenced in [
        "credential_invalid",
        "environment_disabled",
        "stale_owner",
        "workspace_generation_changed",
        "attachment_stopped",
    ] {
        assert_eq!(close(fenced), ChannelEnd::Fenced, "{fenced}");
    }
    for lost in ["heartbeat_timeout", "rate_limited", "frame_too_large", "invalid_frame"] {
        assert_eq!(close(lost), ChannelEnd::Lost, "{lost}");
    }
    assert_eq!(close_code(1000), ChannelEnd::Poll);
    assert_eq!(close_code(4409), ChannelEnd::Fenced);
    assert_eq!(close_code(1012), ChannelEnd::Lost);
}

#[test]
fn a_handshake_for_another_protocol_or_transport_is_not_admitted() {
    // Another protocol is no protocol this version knows: such a frame does not decode.
    assert!(HandshakeFrameProtocol::from_wire("sikaru-compute-channel-v2").is_none());
    let polling = ServerFrame::Handshake {
        attachment_id: "attachment".into(),
        owner_epoch: 1,
        workspace_generation: "generation".into(),
        protocol: Some(HandshakeFrameProtocol::SikaruComputeChannelV1),
        transport: HandshakeFrameTransport::Poll,
    };
    assert!(!Handshake::from_frame(polling).unwrap().channel);
}

#[test]
fn reconnect_delays_are_spread_not_synchronized() {
    for attempt in 1..=3u32 {
        let base = 250u64 << attempt;
        let delays = (0..500).map(|_| channel_backoff(attempt)).collect::<Vec<_>>();
        let (low, high) = (*delays.iter().min().unwrap(), *delays.iter().max().unwrap());
        assert!(low >= base / 2 && high <= base * 3 / 2, "{low}..{high}");
        assert!(high - low >= base / 2, "delays cluster: {low}..{high}");
        let distinct = delays.iter().collect::<std::collections::BTreeSet<_>>().len();
        assert!(distinct > 100, "only {distinct} distinct delays");
    }
}

#[test]
fn close_codes_for_lost_authority_fence_the_executor() {
    for code in [4401u16, 4403, 4409, 4410, 4412] {
        assert_eq!(close_code(code), ChannelEnd::Fenced);
    }
    assert_eq!(close_code(1001), ChannelEnd::Lost);
    assert_eq!(close_reason(&CloseFrameReason::TransportPoll), ChannelEnd::Poll);
}

#[test]
fn failures_keep_only_their_class() {
    assert_eq!(classify(ApiFailure::Unauthorized), TransportFailure::Rejected(401));
    assert_eq!(classify(ApiFailure::Http { status: 402 }), TransportFailure::Rejected(402));
    assert_eq!(classify(ApiFailure::Http { status: 429 }), TransportFailure::Transient);
    assert_eq!(classify(ApiFailure::Http { status: 503 }), TransportFailure::Transient);
    assert_eq!(classify(ApiFailure::Http { status: 400 }), TransportFailure::Permanent);
    assert_eq!(classify(ApiFailure::Network), TransportFailure::Transient);
    assert_eq!(classify(ApiFailure::Conflict { detail: None }), TransportFailure::Permanent);
    assert_eq!(rejected_status(&ApiFailure::NotFound), Some(404));
    assert_eq!(rejected_status(&ApiFailure::Http { status: 405 }), None);
    assert!(transient(Some(TransportFailure::Transient)));
    assert!(!transient(Some(TransportFailure::Rejected(401))));
    assert!(!transient(None));
    assert_eq!(TransportFailure::Rejected(403).code(), "request_rejected");
}

#[test]
fn retry_backoff_doubles_up_to_its_cap() {
    let mut attempt = 0u32;
    let expected = [100u64, 200, 400, 800, 1600, 1600];
    for base in expected {
        let delay = backoff(&mut attempt);
        assert!(base <= delay && delay < base + 100, "{delay} for {base}");
    }
    assert_eq!(attempt, 6);
}

#[test]
fn channel_url_switches_scheme_and_encodes_segments() {
    let b = binding();
    assert_eq!(
        channel_url("https://api.example/", &b).unwrap(),
        "wss://api.example/v1/projects/project/compute-attachments/attachment/channel"
    );
    let mut spaced = binding();
    spaced.project_id = "a b/c".into();
    assert_eq!(
        channel_url("http://localhost:8080", &spaced).unwrap(),
        "ws://localhost:8080/v1/projects/a%20b%2Fc/compute-attachments/attachment/channel"
    );
    assert!(matches!(channel_url("ftp://host", &b), Err(TransportError::UnsupportedScheme)));
}

#[test]
fn lease_renewal_is_bounded_by_its_time_to_live() {
    assert_eq!(renewal_deadline(1_000, 2_000, Some(60)).unwrap(), 61_000);
    assert!(matches!(renewal_deadline(1_000, 2_000, Some(0)), Err(TransportError::InvalidLeaseTtl)));
    assert!(matches!(renewal_deadline(1_000, 2_000, Some(181)), Err(TransportError::InvalidLeaseTtl)));
    assert!(matches!(renewal_deadline(1_000, 2_000, None), Err(TransportError::InvalidLeaseTtl)));
    assert!(matches!(renewal_deadline(0, 70_000, Some(60)), Err(TransportError::LateRenewal)));
}

#[test]
fn transport_accepts_only_its_own_authority() {
    let t = Transport::new("https://api.example", binding());
    assert!(t.validate(&attachment(AttachmentStatus::Ready)).is_ok());
    let mut other = attachment(AttachmentStatus::Ready);
    other.owner_epoch = 2;
    assert!(matches!(t.validate(&other), Err(TransportError::AuthorityMismatch)));
    let ready = t.ready_input("instance");
    assert_eq!(ready.executor_instance_id, "instance");
    assert_eq!(ready.capabilities.len(), 4);
    let h = Handshake::from_frame(handshake_frame()).unwrap();
    assert_eq!(t.admit_handshake(&h), Ok(()));
    let mut stale = Handshake::from_frame(handshake_frame()).unwrap();
    stale.owner_epoch = 2;
    assert_eq!(t.admit_handshake(&stale), Err(ChannelEnd::Fenced));
    let mut polling = Handshake::from_frame(handshake_frame()).unwrap();
    polling.channel = false;
    assert_eq!(t.admit_handshake(&polling), Err(ChannelEnd::Poll));
}

#[test]
fn newest_page_supersedes_older_and_delivery_waits_for_its_answer() {
    let mut state = ChannelState::new();
    state.receive(ChannelEvent::Page(page()));
    state.receive(ChannelEvent::Accepted("ignored".into()));
    assert!(matches!(state.next(), Some(ChannelEvent::Page(_))));
    assert!(state.next().is_none());
    assert_eq!(state.deliver_step("call", Some(ChannelEvent::Accepted("other".into()))), None);
    assert_eq!(state.deliver_step("call", Some(ChannelEvent::Page(page()))), None);
    assert_eq!(state.deliver_step("call", Some(ChannelEvent::Accepted("call".into()))), Some(Delivery::Accepted));
    assert_eq!(state.deliver_step("call", Some(ChannelEvent::Rejected(None))), Some(Delivery::NotAccepted));
    assert!(matches!(state.next(), Some(ChannelEvent::Page(_))));
    assert_eq!(state.deliver_step("call", None), Some(Delivery::NotAccepted));
    assert_eq!(state.ended(), Some(ChannelEnd::Lost));
}

#[test]
fn credential_renewal_keeps_its_identity_and_horizon() {
    let mut identity: Option<String> = None;
    assert_eq!(credential_deadline(&mut identity, "cred-1".into(), 1_000, 1_500, Some(60_000)), Ok(61_000));
    assert_eq!(identity.as_deref(), Some("cred-1"));
    // A renewal for another credential is refused and the held one stays.
    assert_eq!(
        credential_deadline(&mut identity, "cred-2".into(), 1_000, 1_500, Some(60_000)),
        Err(TransportError::CredentialMismatch)
    );
    assert_eq!(identity.as_deref(), Some("cred-1"));
    // No time left, or a deadline already passed, is an expired credential.
    assert_eq!(
        credential_deadline(&mut identity, "cred-1".into(), 1_000, 1_500, None),
        Err(TransportError::CredentialExpired)
    );
    assert_eq!(
        credential_deadline(&mut identity, "cred-1".into(), 1_000, 2_000, Some(1_000)),
        Err(TransportError::CredentialExpired)
    );
    // More than a day is trusted for a day.
    assert_eq!(
        credential_deadline(&mut identity, "cred-1".into(), 0, 10, Some(400_000_000)),
        Ok(86_400_000)
    );
    assert_eq!(TransportError::CredentialExpired.message(), "credential_expired");
}

#[test]
fn socket_messages_skip_pings_and_end_on_close_or_garbage() {
    assert!(matches!(inbound(SocketMessage::Ping), Inbound::Skip));
    assert!(matches!(inbound(SocketMessage::Pong), Inbound::Skip));
    assert!(matches!(inbound(SocketMessage::Close(Some(1000))), Inbound::End(ChannelEnd::Poll)));
    assert!(matches!(inbound(SocketMessage::Close(Some(4403))), Inbound::End(ChannelEnd::Fenced)));
    assert!(matches!(inbound(SocketMessage::Close(None)), Inbound::End(ChannelEnd::Lost)));
    assert!(matches!(inbound(SocketMessage::Text(None)), Inbound::End(ChannelEnd::Lost)));
    assert!(matches!(inbound(SocketMessage::Other), Inbound::End(ChannelEnd::Lost)));
    assert!(matches!(inbound(SocketMessage::Text(Some(ServerFrame::Heartbeat))), Inbound::Skip));
    assert!(matches!(
        inbound(SocketMessage::Text(Some(ServerFrame::ReceiptAccepted { run_id: "run".into(), tool_call_id: "call".into() }))),
        Inbound::Event(ChannelEvent::Accepted(id)) if id == "call"
    ));
}

#[test]
fn cleanup_reports_what_it_can_prove() {
    let confirmed = cleanup_input(true);
    assert!(confirmed.children_terminated);
    assert_eq!(confirmed.evidence, "native owned process groups terminated");
    let unproven = cleanup_input(false);
    assert!(!unproven.children_terminated);
    assert_eq!(unproven.evidence, "native cleanup could not be proven");
}

#[test]
fn the_random_draw_selects_the_jitter() {
    assert_eq!(jittered(100, 0), 100);
    assert_eq!(jittered(400, 257), 457);
    assert_eq!(jittered(1600, 99), 1699);
    assert_eq!(spread_delay(250, 0), 125);
    assert_eq!(spread_delay(250, 250), 375);
    assert_eq!(spread_delay(8000, 8001 * 3 + 7), 4007);
}

#[test]
fn heartbeats_carry_only_their_type_tag() {
    let text = heartbeat_text();
    assert_eq!(text, r#"{"type":"heartbeat"}"#);
    let value: serde_json::Value = serde_json::from_str(&text).unwrap();
    assert_eq!(value.as_object().unwrap().len(), 1);
}
