//! Wire types of the executor channel and of condition waits.
use vstd::prelude::*;
use crate::text::text_equal;

verus! {

/// A builder was consumed before one of its required fields was set.
#[derive(Debug, Clone, Copy, PartialEq, Eq)]
pub struct BuildError {
    /// The first missing field.
    pub field: &'static str,
}

impl BuildError {
    /// The error for the missing `field`.
    pub fn missing_field(field: &'static str) -> (r: BuildError)
        ensures
            r.field == field,
    {
        BuildError { field }
    }
}

/// The channel protocol a handshake selects.
#[derive(Debug, Clone, Copy, PartialEq, Eq, Hash, Structural)]
pub enum HandshakeFrameProtocol {
    SikaruComputeChannelV1,
}

impl HandshakeFrameProtocol {
    /// The protocol's wire name.
    pub fn as_str(&self) -> (r: &'static str)
        ensures
            r@ == "sikaru-compute-channel-v1"@,
    {
        "sikaru-compute-channel-v1"
    }

    /// The protocol a wire name denotes, if any.
    pub fn from_wire(value: &str) -> (r: Option<HandshakeFrameProtocol>)
        ensures
            r is Some <==> value@ == "sikaru-compute-channel-v1"@,
    {
        if text_equal(value, "sikaru-compute-channel-v1") {
            Some(HandshakeFrameProtocol::SikaruComputeChannelV1)
        } else {
            None
        }
    }
}

/// The plan a subscription changes to, as its wire value.
#[derive(Debug, Clone, PartialEq, Eq)]
pub struct SubscriptionPlanChangePlan {
    pub value: String,
}

/// The liveness frame both sides send; it carries no fields.
#[derive(Debug, Clone, Copy, PartialEq, Eq, Default)]
pub struct HeartbeatFrame {}

impl HeartbeatFrame {
    /// A builder for the heartbeat frame.
    pub fn builder() -> (r: HeartbeatFrameBuilder) {
        HeartbeatFrameBuilder {}
    }
}

/// Builds a [`HeartbeatFrame`]; there is nothing to set.
#[derive(Debug, Clone, Copy, PartialEq, Eq, Default)]
pub struct HeartbeatFrameBuilder {}

impl HeartbeatFrameBuilder {
    /// The heartbeat frame; building never fails.
    pub fn build(self) -> (r: Result<HeartbeatFrame, BuildError>)
        ensures
            r is Ok,
    {
        Ok(HeartbeatFrame {})
    }
}

/// Why the hosted side closed the channel.
#[derive(Debug, Clone, PartialEq, Eq, Hash)]
pub enum CloseFrameReason {
    TransportPoll,
    CredentialInvalid,
    EnvironmentDisabled,
    StaleOwner,
    WorkspaceGenerationChanged,
    AttachmentStopped,
    HeartbeatTimeout,
    RateLimited,
    FrameTooLarge,
    InvalidFrame,
    /// A value this version does not know, kept as received.
    __Unknown(String),
}

pub enum CloseFrameReasonView {
    TransportPoll,
    CredentialInvalid,
    EnvironmentDisabled,
    StaleOwner,
    WorkspaceGenerationChanged,
    AttachmentStopped,
    HeartbeatTimeout,
    RateLimited,
    FrameTooLarge,
    InvalidFrame,
    Unknown(Seq<char>),
}

impl View for CloseFrameReason {
    type V = CloseFrameReasonView;

    open spec fn view(&self) -> CloseFrameReasonView {
        match self {
            CloseFrameReason::TransportPoll => CloseFrameReasonView::TransportPoll,
            CloseFrameReason::CredentialInvalid => CloseFrameReasonView::CredentialInvalid,
            CloseFrameReason::EnvironmentDisabled => CloseFrameReasonView::EnvironmentDisabled,
            CloseFrameReason::StaleOwner => CloseFrameReasonView::StaleOwner,
            CloseFrameReason::WorkspaceGenerationChanged => CloseFrameReasonView::WorkspaceGenerationChanged,
            CloseFrameReason::AttachmentStopped => CloseFrameReasonView::AttachmentStopped,
            CloseFrameReason::HeartbeatTimeout => CloseFrameReasonView::HeartbeatTimeout,
            CloseFrameReason::RateLimited => CloseFrameReasonView::RateLimited,
            CloseFrameReason::FrameTooLarge => CloseFrameReasonView::FrameTooLarge,
            CloseFrameReason::InvalidFrame => CloseFrameReasonView::InvalidFrame,
            CloseFrameReason::__Unknown(s) => CloseFrameReasonView::Unknown(s@),
        }
    }
}

/// The wire name of a close frame reason.
pub open spec fn close_frame_reason_name(v: CloseFrameReasonView) -> Seq<char> {
    match v {
        CloseFrameReasonView::TransportPoll => "transport_poll"@,
        CloseFrameReasonView::CredentialInvalid => "credential_invalid"@,
        CloseFrameReasonView::EnvironmentDisabled => "environment_disabled"@,
        CloseFrameReasonView::StaleOwner => "stale_owner"@,
        CloseFrameReasonView::WorkspaceGenerationChanged => "workspace_generation_changed"@,
        CloseFrameReasonView::AttachmentStopped => "attachment_stopped"@,
        CloseFrameReasonView::HeartbeatTimeout => "heartbeat_timeout"@,
        CloseFrameReasonView::RateLimited => "rate_limited"@,
        CloseFrameReasonView::FrameTooLarge => "frame_too_large"@,
        CloseFrameReasonView::InvalidFrame => "invalid_frame"@,
        CloseFrameReasonView::Unknown(s) => s,
    }
}

/// The close frame reason a wire name denotes; any other name is kept as unknown.
pub open spec fn parse_close_frame_reason(s: Seq<char>) -> CloseFrameReasonView {
    if s == "transport_poll"@ {
        CloseFrameReasonView::TransportPoll
    } else if s == "credential_invalid"@ {
        CloseFrameReasonView::CredentialInvalid
    } else if s == "environment_disabled"@ {
        CloseFrameReasonView::EnvironmentDisabled
    } else if s == "stale_owner"@ {
        CloseFrameReasonView::StaleOwner
    } else if s == "workspace_generation_changed"@ {
        CloseFrameReasonView::WorkspaceGenerationChanged
    } else if s == "attachment_stopped"@ {
        CloseFrameReasonView::AttachmentStopped
    } else if s == "heartbeat_timeout"@ {
        CloseFrameReasonView::HeartbeatTimeout
    } else if s == "rate_limited"@ {
        CloseFrameReasonView::RateLimited
    } else if s == "frame_too_large"@ {
        CloseFrameReasonView::FrameTooLarge
    } else if s == "invalid_frame"@ {
        CloseFrameReasonView::InvalidFrame
    } else {
        CloseFrameReasonView::Unknown(s)
    }
}

impl CloseFrameReason {
    /// The value a wire name denotes; an unrecognized name is kept, so newer
    /// servers stay readable.
    pub fn from_wire(value: String) -> (r: CloseFrameReason)
        ensures
            r@ == parse_close_frame_reason(value@),
    {
        if text_equal(value.as_str(), "transport_poll") {
            CloseFrameReason::TransportPoll
        } else if text_equal(value.as_str(), "credential_invalid") {
            CloseFrameReason::CredentialInvalid
        } else if text_equal(value.as_str(), "environment_disabled") {
            CloseFrameReason::EnvironmentDisabled
        } else if text_equal(value.as_str(), "stale_owner") {
            CloseFrameReason::StaleOwner
        } else if text_equal(value.as_str(), "workspace_generation_changed") {
            CloseFrameReason::WorkspaceGenerationChanged
        } else if text_equal(value.as_str(), "attachment_stopped") {
            CloseFrameReason::AttachmentStopped
        } else if text_equal(value.as_str(), "heartbeat_timeout") {
            CloseFrameReason::HeartbeatTimeout
        } else if text_equal(value.as_str(), "rate_limited") {
            CloseFrameReason::RateLimited
        } else if text_equal(value.as_str(), "frame_too_large") {
            CloseFrameReason::FrameTooLarge
        } else if text_equal(value.as_str(), "invalid_frame") {
            CloseFrameReason::InvalidFrame
        } else {
            CloseFrameReason::__Unknown(value)
        }
    }

    /// The wire name, as serialized and displayed.
    pub fn as_str(&self) -> (r: &str)
        ensures
            r@ == close_frame_reason_name(self@),
    {
        match self {
            CloseFrameReason::TransportPoll => "transport_poll",
            CloseFrameReason::CredentialInvalid => "credential_invalid",
            CloseFrameReason::EnvironmentDisabled => "environment_disabled",
            CloseFrameReason::StaleOwner => "stale_owner",
            CloseFrameReason::WorkspaceGenerationChanged => "workspace_generation_changed",
            CloseFrameReason::AttachmentStopped => "attachment_stopped",
            CloseFrameReason::HeartbeatTimeout => "heartbeat_timeout",
            CloseFrameReason::RateLimited => "rate_limited",
            CloseFrameReason::FrameTooLarge => "frame_too_large",
            CloseFrameReason::InvalidFrame => "invalid_frame",
            CloseFrameReason::__Unknown(s) => s.as_str(),
        }
    }
}

/// Every wire name survives reading and writing back unchanged.
pub proof fn law_close_frame_reason_name_round_trip(s: Seq<char>)
    ensures
        close_frame_reason_name(parse_close_frame_reason(s)) == s,
{
}

/// Every known value survives writing and reading back unchanged.
pub proof fn law_close_frame_reason_known_round_trip(v: CloseFrameReasonView)
    requires
        !(v is Unknown),
    ensures
        parse_close_frame_reason(close_frame_reason_name(v)) == v,
{
    reveal_strlit("transport_poll");
    reveal_strlit("credential_invalid");
    reveal_strlit("environment_disabled");
    reveal_strlit("stale_owner");
    reveal_strlit("workspace_generation_changed");
    reveal_strlit("attachment_stopped");
    reveal_strlit("heartbeat_timeout");
    reveal_strlit("rate_limited");
    reveal_strlit("frame_too_large");
    reveal_strlit("invalid_frame");
    match v {
        CloseFrameReasonView::TransportPoll => {
        },
        CloseFrameReasonView::CredentialInvalid => {
            assert("credential_invalid"@.len() != "transport_poll"@.len());
        },
        CloseFrameReasonView::EnvironmentDisabled => {
            assert("environment_disabled"@.len() != "transport_poll"@.len());
            assert("environment_disabled"@.len() != "credential_invalid"@.len());
        },
        CloseFrameReasonView::StaleOwner => {
            assert("stale_owner"@.len() != "transport_poll"@.len());
            assert("stale_owner"@.len() != "credential_invalid"@.len());
            assert("stale_owner"@.len() != "environment_disabled"@.len());
        },
        CloseFrameReasonView::WorkspaceGenerationChanged => {
            assert("workspace_generation_changed"@.len() != "transport_poll"@.len());
            assert("workspace_generation_changed"@.len() != "credential_invalid"@.len());
            assert("workspace_generation_changed"@.len() != "environment_disabled"@.len());
            assert("workspace_generation_changed"@.len() != "stale_owner"@.len());
        },
        CloseFrameReasonView::AttachmentStopped => {
            assert("attachment_stopped"@.len() != "transport_poll"@.len());
            assert("attachment_stopped"@[0] != "credential_invalid"@[0]);
            assert("attachment_stopped"@.len() != "environment_disabled"@.len());
            assert("attachment_stopped"@.len() != "stale_owner"@.len());
            assert("attachment_stopped"@.len() != "workspace_generation_changed"@.len());
        },
        CloseFrameReasonView::HeartbeatTimeout => {
            assert("heartbeat_timeout"@.len() != "transport_poll"@.len());
            assert("heartbeat_timeout"@.len() != "credential_invalid"@.len());
            assert("heartbeat_timeout"@.len() != "environment_disabled"@.len());
            assert("heartbeat_timeout"@.len() != "stale_owner"@.len());
            assert("heartbeat_timeout"@.len() != "workspace_generation_changed"@.len());
            assert("heartbeat_timeout"@.len() != "attachment_stopped"@.len());
        },
        CloseFrameReasonView::RateLimited => {
            assert("rate_limited"@.len() != "transport_poll"@.len());
            assert("rate_limited"@.len() != "credential_invalid"@.len());
            assert("rate_limited"@.len() != "environment_disabled"@.len());
            assert("rate_limited"@.len() != "stale_owner"@.len());
            assert("rate_limited"@.len() != "workspace_generation_changed"@.len());
            assert("rate_limited"@.len() != "attachment_stopped"@.len());
            assert("rate_limited"@.len() != "heartbeat_timeout"@.len());
        },
        CloseFrameReasonView::FrameTooLarge => {
            assert("frame_too_large"@.len() != "transport_poll"@.len());
            assert("frame_too_large"@.len() != "credential_invalid"@.len());
            assert("frame_too_large"@.len() != "environment_disabled"@.len());
            assert("frame_too_large"@.len() != "stale_owner"@.len());
            assert("frame_too_large"@.len() != "workspace_generation_changed"@.len());
            assert("frame_too_large"@.len() != "attachment_stopped"@.len());
            assert("frame_too_large"@.len() != "heartbeat_timeout"@.len());
            assert("frame_too_large"@.len() != "rate_limited"@.len());
        },
        CloseFrameReasonView::InvalidFrame => {
            assert("invalid_frame"@.len() != "transport_poll"@.len());
            assert("invalid_frame"@.len() != "credential_invalid"@.len());
            assert("invalid_frame"@.len() != "environment_disabled"@.len());
            assert("invalid_frame"@.len() != "stale_owner"@.len());
            assert("invalid_frame"@.len() != "workspace_generation_changed"@.len());
            assert("invalid_frame"@.len() != "attachment_stopped"@.len());
            assert("invalid_frame"@.len() != "heartbeat_timeout"@.len());
            assert("invalid_frame"@.len() != "rate_limited"@.len());
            assert("invalid_frame"@.len() != "frame_too_large"@.len());
        },
        _ => {},
    }
}

/// Why a wait condition did not fire.
#[derive(Debug, Clone, PartialEq, Eq, Hash)]
pub enum ConditionOutcomeReason {
    Deadline,
    Pending,
    Exited,
    Error,
    Unsupported,
    /// A value this version does not know, kept as received.
    __Unknown(String),
}

pub enum ConditionOutcomeReasonView {
    Deadline,
    Pending,
    Exited,
    Error,
    Unsupported,
    Unknown(Seq<char>),
}

impl View for ConditionOutcomeReason {
    type V = ConditionOutcomeReasonView;

    open spec fn view(&self) -> ConditionOutcomeReasonView {
        match self {
            ConditionOutcomeReason::Deadline => ConditionOutcomeReasonView::Deadline,
            ConditionOutcomeReason::Pending => ConditionOutcomeReasonView::Pending,
            ConditionOutcomeReason::Exited => ConditionOutcomeReasonView::Exited,
            ConditionOutcomeReason::Error => ConditionOutcomeReasonView::Error,
            ConditionOutcomeReason::Unsupported => ConditionOutcomeReasonView::Unsupported,
            ConditionOutcomeReason::__Unknown(s) => ConditionOutcomeReasonView::Unknown(s@),
        }
    }
}

/// The wire name of a condition outcome reason.
pub open spec fn condition_outcome_reason_name(v: ConditionOutcomeReasonView) -> Seq<char> {
    match v {
        ConditionOutcomeReasonView::Deadline => "deadline"@,
        ConditionOutcomeReasonView::Pending => "pending"@,
        ConditionOutcomeReasonView::Exited => "exited"@,
        ConditionOutcomeReasonView::Error => "error"@,
        ConditionOutcomeReasonView::Unsupported => "unsupported"@,
        ConditionOutcomeReasonView::Unknown(s) => s,
    }
}

/// The condition outcome reason a wire name denotes; any other name is kept as unknown.
pub open spec fn parse_condition_outcome_reason(s: Seq<char>) -> ConditionOutcomeReasonView {
    if s == "deadline"@ {
        ConditionOutcomeReasonView::Deadline
    } else if s == "pending"@ {
        ConditionOutcomeReasonView::Pending
    } else if s == "exited"@ {
        ConditionOutcomeReasonView::Exited
    } else if s == "error"@ {
        ConditionOutcomeReasonView::Error
    } else if s == "unsupported"@ {
        ConditionOutcomeReasonView::Unsupported
    } else {
        ConditionOutcomeReasonView::Unknown(s)
    }
}

impl ConditionOutcomeReason {
    /// The value a wire name denotes; an unrecognized name is kept, so newer
    /// servers stay readable.
    pub fn from_wire(value: String) -> (r: ConditionOutcomeReason)
        ensures
            r@ == parse_condition_outcome_reason(value@),
    {
        if text_equal(value.as_str(), "deadline") {
            ConditionOutcomeReason::Deadline
        } else if text_equal(value.as_str(), "pending") {
            ConditionOutcomeReason::Pending
        } else if text_equal(value.as_str(), "exited") {
            ConditionOutcomeReason::Exited
        } else if text_equal(value.as_str(), "error") {
            ConditionOutcomeReason::Error
        } else if text_equal(value.as_str(), "unsupported") {
            ConditionOutcomeReason::Unsupported
        } else {
            ConditionOutcomeReason::__Unknown(value)
        }
    }

    /// The wire name, as serialized and displayed.
    pub fn as_str(&self) -> (r: &str)
        ensures
            r@ == condition_outcome_reason_name(self@),
    {
        match self {
            ConditionOutcomeReason::Deadline => "deadline",
            ConditionOutcomeReason::Pending => "pending",
            ConditionOutcomeReason::Exited => "exited",
            ConditionOutcomeReason::Error => "error",
            ConditionOutcomeReason::Unsupported => "unsupported",
            ConditionOutcomeReason::__Unknown(s) => s.as_str(),
        }
    }
}

/// Every wire name survives reading and writing back unchanged.
pub proof fn law_condition_outcome_reason_name_round_trip(s: Seq<char>)
    ensures
        condition_outcome_reason_name(parse_condition_outcome_reason(s)) == s,
{
}

/// Every known value survives writing and reading back unchanged.
pub proof fn law_condition_outcome_reason_known_round_trip(v: ConditionOutcomeReasonView)
    requires
        !(v is Unknown),
    ensures
        parse_condition_outcome_reason(condition_outcome_reason_name(v)) == v,
{
    reveal_strlit("deadline");
    reveal_strlit("pending");
    reveal_strlit("exited");
    reveal_strlit("error");
    reveal_strlit("unsupported");
    match v {
        ConditionOutcomeReasonView::Deadline => {
        },
        ConditionOutcomeReasonView::Pending => {
            assert("pending"@.len() != "deadline"@.len());
        },
        ConditionOutcomeReasonView::Exited => {
            assert("exited"@.len() != "deadline"@.len());
            assert("exited"@.len() != "pending"@.len());
        },
        ConditionOutcomeReasonView::Error => {
            assert("error"@.len() != "deadline"@.len());
            assert("error"@.len() != "pending"@.len());
            assert("error"@.len() != "exited"@.len());
        },
        ConditionOutcomeReasonView::Unsupported => {
            assert("unsupported"@.len() != "deadline"@.len());
            assert("unsupported"@.len() != "pending"@.len());
            assert("unsupported"@.len() != "exited"@.len());
            assert("unsupported"@.len() != "error"@.len());
        },
        _ => {},
    }
}

/// The path state a wait condition watches for.
#[derive(Debug, Clone, PartialEq, Eq, Hash)]
pub enum PathConditionState {
    Exists,
    Missing,
    Changed,
    /// A value this version does not know, kept as received.
    __Unknown(String),
}

pub enum PathConditionStateView {
    Exists,
    Missing,
    Changed,
    Unknown(Seq<char>),
}

impl View for PathConditionState {
    type V = PathConditionStateView;

    open spec fn view(&self) -> PathConditionStateView {
        match self {
            PathConditionState::Exists => PathConditionStateView::Exists,
            PathConditionState::Missing => PathConditionStateView::Missing,
            PathConditionState::Changed => PathConditionStateView::Changed,
            PathConditionState::__Unknown(s) => PathConditionStateView::Unknown(s@),
        }
    }
}

/// The wire name of a path condition state.
pub open spec fn path_condition_state_name(v: PathConditionStateView) -> Seq<char> {
    match v {
        PathConditionStateView::Exists => "exists"@,
        PathConditionStateView::Missing => "missing"@,
        PathConditionStateView::Changed => "changed"@,
        PathConditionStateView::Unknown(s) => s,
    }
}

/// The path condition state a wire name denotes; any other name is kept as unknown.
pub open spec fn parse_path_condition_state(s: Seq<char>) -> PathConditionStateView {
    if s == "exists"@ {
        PathConditionStateView::Exists
    } else if s == "missing"@ {
        PathConditionStateView::Missing
    } else if s == "changed"@ {
        PathConditionStateView::Changed
    } else {
        PathConditionStateView::Unknown(s)
    }
}

impl PathConditionState {
    /// The value a wire name denotes; an unrecognized name is kept, so newer
    /// servers stay readable.
    pub fn from_wire(value: String) -> (r: PathConditionState)
        ensures
            r@ == parse_path_condition_state(value@),
    {
        if text_equal(value.as_str(), "exists") {
            PathConditionState::Exists
        } else if text_equal(value.as_str(), "missing") {
            PathConditionState::Missing
        } else if text_equal(value.as_str(), "changed") {
            PathConditionState::Changed
        } else {
            PathConditionState::__Unknown(value)
        }
    }

    /// The wire name, as serialized and displayed.
    pub fn as_str(&self) -> (r: &str)
        ensures
            r@ == path_condition_state_name(self@),
    {
        match self {
            PathConditionState::Exists => "exists",
            PathConditionState::Missing => "missing",
            PathConditionState::Changed => "changed",
            PathConditionState::__Unknown(s) => s.as_str(),
        }
    }
}

/// Every wire name survives reading and writing back unchanged.
pub proof fn law_path_condition_state_name_round_trip(s: Seq<char>)
    ensures
        path_condition_state_name(parse_path_condition_state(s)) == s,
{
}

/// Every known value survives writing and reading back unchanged.
pub proof fn law_path_condition_state_known_round_trip(v: PathConditionStateView)
    requires
        !(v is Unknown),
    ensures
        parse_path_condition_state(path_condition_state_name(v)) == v,
{
    reveal_strlit("exists");
    reveal_strlit("missing");
    reveal_strlit("changed");
    match v {
        PathConditionStateView::Exists => {
        },
        PathConditionStateView::Missing => {
            assert("missing"@.len() != "exists"@.len());
        },
        PathConditionStateView::Changed => {
            assert("changed"@.len() != "exists"@.len());
            assert("changed"@[0] != "missing"@[0]);
        },
        _ => {},
    }
}

/// How a condition wait ended.
#[derive(Debug, Clone, PartialEq, Eq, Hash)]
pub enum WaitForResultStatus {
    Fired,
    Timeout,
    Unfired,
    /// A value this version does not know, kept as received.
    __Unknown(String),
}

pub enum WaitForResultStatusView {
    Fired,
    Timeout,
    Unfired,
    Unknown(Seq<char>),
}

impl View for WaitForResultStatus {
    type V = WaitForResultStatusView;

    open spec fn view(&self) -> WaitForResultStatusView {
        match self {
            WaitForResultStatus::Fired => WaitForResultStatusView::Fired,
            WaitForResultStatus::Timeout => WaitForResultStatusView::Timeout,
            WaitForResultStatus::Unfired => WaitForResultStatusView::Unfired,
            WaitForResultStatus::__Unknown(s) => WaitForResultStatusView::Unknown(s@),
        }
    }
}

/// The wire name of a wait for result status.
pub open spec fn wait_for_result_status_name(v: WaitForResultStatusView) -> Seq<char> {
    match v {
        WaitForResultStatusView::Fired => "fired"@,
        WaitForResultStatusView::Timeout => "timeout"@,
        WaitForResultStatusView::Unfired => "unfired"@,
        WaitForResultStatusView::Unknown(s) => s,
    }
}

/// The wait for result status a wire name denotes; any other name is kept as unknown.
pub open spec fn parse_wait_for_result_status(s: Seq<char>) -> WaitForResultStatusView {
    if s == "fired"@ {
        WaitForResultStatusView::Fired
    } else if s == "timeout"@ {
        WaitForResultStatusView::Timeout
    } else if s == "unfired"@ {
        WaitForResultStatusView::Unfired
    } else {
        WaitForResultStatusView::Unknown(s)
    }
}

impl WaitForResultStatus {
    /// The value a wire name denotes; an unrecognized name is kept, so newer
    /// servers stay readable.
    pub fn from_wire(value: String) -> (r: WaitForResultStatus)
        ensures
            r@ == parse_wait_for_result_status(value@),
    {
        if text_equal(value.as_str(), "fired") {
            WaitForResultStatus::Fired
        } else if text_equal(value.as_str(), "timeout") {
            WaitForResultStatus::Timeout
        } else if text_equal(value.as_str(), "unfired") {
            WaitForResultStatus::Unfired
        } else {
            WaitForResultStatus::__Unknown(value)
        }
    }

    /// The wire name, as serialized and displayed.
    pub fn as_str(&self) -> (r: &str)
        ensures
            r@ == wait_for_result_status_name(self@),
    {
        match self {
            WaitForResultStatus::Fired => "fired",
            WaitForResultStatus::Timeout => "timeout",
            WaitForResultStatus::Unfired => "unfired",
            WaitForResultStatus::__Unknown(s) => s.as_str(),
        }
    }
}

/// Every wire name survives reading and writing back unchanged.
pub proof fn law_wait_for_result_status_name_round_trip(s: Seq<char>)
    ensures
        wait_for_result_status_name(parse_wait_for_result_status(s)) == s,
{
}

/// Every known value survives writing and reading back unchanged.
pub proof fn law_wait_for_result_status_known_round_trip(v: WaitForResultStatusView)
    requires
        !(v is Unknown),
    ensures
        parse_wait_for_result_status(wait_for_result_status_name(v)) == v,
{
    reveal_strlit("fired");
    reveal_strlit("timeout");
    reveal_strlit("unfired");
    match v {
        WaitForResultStatusView::Fired => {
        },
        WaitForResultStatusView::Timeout => {
            assert("timeout"@.len() != "fired"@.len());
        },
        WaitForResultStatusView::Unfired => {
            assert("unfired"@.len() != "fired"@.len());
            assert("unfired"@[0] != "timeout"@[0]);
        },
        _ => {},
    }
}


/// Fires when the owned process exits.
#[derive(Debug, Clone, PartialEq, Eq)]
pub struct ExitCondition {
    pub handle_id: String,
}

impl ExitCondition {
    /// A builder with no field set.
    pub fn builder() -> (r: ExitConditionBuilder)
        ensures
            r.handle_id is None,
    {
        ExitConditionBuilder::default()
    }
}

/// Collects the fields of a [`ExitCondition`]; every field is required.
#[derive(Debug, Clone, PartialEq)]
pub struct ExitConditionBuilder {
    pub handle_id: Option<String>,
}

impl Default for ExitConditionBuilder {
    fn default() -> (r: Self)
        ensures
            r.handle_id is None,
    {
        ExitConditionBuilder { handle_id: None }
    }
}

impl ExitConditionBuilder {
    /// Sets `handle_id`.
    pub fn handle_id(self, value: String) -> (r: Self)
        ensures
            r.handle_id == Some(value),
    {
        ExitConditionBuilder { handle_id: Some(value), ..self }
    }

    /// The [`ExitCondition`] with the collected fields; the first unset field, in
    /// declaration order, is reported missing.
    pub fn build(self) -> (r: Result<ExitCondition, BuildError>)
        ensures
            (self.handle_id is Some) ==> (r matches Ok(c) && c.handle_id == self.handle_id->0),
            (self.handle_id is None) ==> (r matches Err(e) && e.field@ == "handle_id"@),
    {
        let handle_id = match self.handle_id {
            Some(v) => v,
            None => { return Err(BuildError::missing_field("handle_id")); },
        };
        Ok(ExitCondition { handle_id })
    }
}

/// Fires when a GET of `url` returns `status`.
#[derive(Debug, Clone, PartialEq, Eq)]
pub struct HttpCondition {
    pub status: i64,
    pub url: String,
}

impl HttpCondition {
    /// A builder with no field set.
    pub fn builder() -> (r: HttpConditionBuilder)
        ensures
            r.status is None,
            r.url is None,
    {
        HttpConditionBuilder::default()
    }
}

/// Collects the fields of a [`HttpCondition`]; every field is required.
#[derive(Debug, Clone, PartialEq)]
pub struct HttpConditionBuilder {
    pub status: Option<i64>,
    pub url: Option<String>,
}

impl Default for HttpConditionBuilder {
    fn default() -> (r: Self)
        ensures
            r.status is None,
            r.url is None,
    {
        HttpConditionBuilder { status: None, url: None }
    }
}

impl HttpConditionBuilder {
    /// Sets `status`.
    pub fn status(self, value: i64) -> (r: Self)
        ensures
            r.status == Some(value),
            r.url == self.url,
    {
        HttpConditionBuilder { status: Some(value), ..self }
    }

    /// Sets `url`.
    pub fn url(self, value: String) -> (r: Self)
        ensures
            r.url == Some(value),
            r.status == self.status,
    {
        HttpConditionBuilder { url: Some(value), ..self }
    }

    /// The [`HttpCondition`] with the collected fields; the first unset field, in
    /// declaration order, is reported missing.
    pub fn build(self) -> (r: Result<HttpCondition, BuildError>)
        ensures
            (self.status is Some && self.url is Some) ==> (r matches Ok(c) && c.status == self.status->0 && c.url == self.url->0),
            (self.status is None) ==> (r matches Err(e) && e.field@ == "status"@),
            (self.status is Some && self.url is None) ==> (r matches Err(e) && e.field@ == "url"@),
    {
        let status = match self.status {
            Some(v) => v,
            None => { return Err(BuildError::missing_field("status")); },
        };
        let url = match self.url {
            Some(v) => v,
            None => { return Err(BuildError::missing_field("url")); },
        };
        Ok(HttpCondition { status, url })
    }
}

/// Fires when the process output matches `pattern`, a regular expression.
#[derive(Debug, Clone, PartialEq, Eq)]
pub struct LogCondition {
    pub handle_id: String,
    pub pattern: String,
}

impl LogCondition {
    /// A builder with no field set.
    pub fn builder() -> (r: LogConditionBuilder)
        ensures
            r.handle_id is None,
            r.pattern is None,
    {
        LogConditionBuilder::default()
    }
}

/// Collects the fields of a [`LogCondition`]; every field is required.
#[derive(Debug, Clone, PartialEq)]
pub struct LogConditionBuilder {
    pub handle_id: Option<String>,
    pub pattern: Option<String>,
}

impl Default for LogConditionBuilder {
    fn default() -> (r: Self)
        ensures
            r.handle_id is None,
            r.pattern is None,
    {
        LogConditionBuilder { handle_id: None, pattern: None }
    }
}

impl LogConditionBuilder {
    /// Sets `handle_id`.
    pub fn handle_id(self, value: String) -> (r: Self)
        ensures
            r.handle_id == Some(value),
            r.pattern == self.pattern,
    {
        LogConditionBuilder { handle_id: Some(value), ..self }
    }

    /// Sets `pattern`.
    pub fn pattern(self, value: String) -> (r: Self)
        ensures
            r.pattern == Some(value),
            r.handle_id == self.handle_id,
    {
        LogConditionBuilder { pattern: Some(value), ..self }
    }

    /// The [`LogCondition`] with the collected fields; the first unset field, in
    /// declaration order, is reported missing.
    pub fn build(self) -> (r: Result<LogCondition, BuildError>)
        ensures
            (self.handle_id is Some && self.pattern is Some) ==> (r matches Ok(c) && c.handle_id == self.handle_id->0 && c.pattern == self.pattern->0),
            (self.handle_id is None) ==> (r matches Err(e) && e.field@ == "handle_id"@),
            (self.handle_id is Some && self.pattern is None) ==> (r matches Err(e) && e.field@ == "pattern"@),
    {
        let handle_id = match self.handle_id {
            Some(v) => v,
            None => { return Err(BuildError::missing_field("handle_id")); },
        };
        let pattern = match self.pattern {
            Some(v) => v,
            None => { return Err(BuildError::missing_field("pattern")); },
        };
        Ok(LogCondition { handle_id, pattern })
    }
}

/// Fires when a workspace path exists, is missing, or changes.
#[derive(Debug, Clone, PartialEq, Eq)]
pub struct PathCondition {
    pub path: String,
    pub state: PathConditionState,
}

impl PathCondition {
    /// A builder with no field set.
    pub fn builder() -> (r: PathConditionBuilder)
        ensures
            r.path is None,
            r.state is None,
    {
        PathConditionBuilder::default()
    }
}

/// Collects the fields of a [`PathCondition`]; every field is required.
#[derive(Debug, Clone, PartialEq)]
pub struct PathConditionBuilder {
    pub path: Option<String>,
    pub state: Option<PathConditionState>,
}

impl Default for PathConditionBuilder {
    fn default() -> (r: Self)
        ensures
            r.path is None,
            r.state is None,
    {
        PathConditionBuilder { path: None, state: None }
    }
}

impl PathConditionBuilder {
    /// Sets `path`.
    pub fn path(self, value: String) -> (r: Self)
        ensures
            r.path == Some(value),
            r.state == self.state,
    {
        PathConditionBuilder { path: Some(value), ..self }
    }

    /// Sets `state`.
    pub fn state(self, value: PathConditionState) -> (r: Self)
        ensures
            r.state == Some(value),
            r.path == self.path,
    {
        PathConditionBuilder { state: Some(value), ..self }
    }

    /// The [`PathCondition`] with the collected fields; the first unset field, in
    /// declaration order, is reported missing.
    pub fn build(self) -> (r: Result<PathCondition, BuildError>)
        ensures
            (self.path is Some && self.state is Some) ==> (r matches Ok(c) && c.path == self.path->0 && c.state == self.state->0),
            (self.path is None) ==> (r matches Err(e) && e.field@ == "path"@),
            (self.path is Some && self.state is None) ==> (r matches Err(e) && e.field@ == "state"@),
    {
        let path = match self.path {
            Some(v) => v,
            None => { return Err(BuildError::missing_field("path")); },
        };
        let state = match self.state {
            Some(v) => v,
            None => { return Err(BuildError::missing_field("state")); },
        };
        Ok(PathCondition { path, state })
    }
}

/// Fires when a TCP connection to `host`:`port` succeeds.
#[derive(Debug, Clone, PartialEq, Eq)]
pub struct PortCondition {
    pub host: String,
    pub port: i64,
}

impl PortCondition {
    /// A builder with no field set.
    pub fn builder() -> (r: PortConditionBuilder)
        ensures
            r.host is None,
            r.port is None,
    {
        PortConditionBuilder::default()
    }
}

/// Collects the fields of a [`PortCondition`]; every field is required.
#[derive(Debug, Clone, PartialEq)]
pub struct PortConditionBuilder {
    pub host: Option<String>,
    pub port: Option<i64>,
}

impl Default for PortConditionBuilder {
    fn default() -> (r: Self)
        ensures
            r.host is None,
            r.port is None,
    {
        PortConditionBuilder { host: None, port: None }
    }
}

impl PortConditionBuilder {
    /// Sets `host`.
    pub fn host(self, value: String) -> (r: Self)
        ensures
            r.host == Some(value),
            r.port == self.port,
    {
        PortConditionBuilder { host: Some(value), ..self }
    }

    /// Sets `port`.
    pub fn port(self, value: i64) -> (r: Self)
        ensures
            r.port == Some(value),
            r.host == self.host,
    {
        PortConditionBuilder { port: Some(value), ..self }
    }

    /// The [`PortCondition`] with the collected fields; the first unset field, in
    /// declaration order, is reported missing.
    pub fn build(self) -> (r: Result<PortCondition, BuildError>)
        ensures
            (self.host is Some && self.port is Some) ==> (r matches Ok(c) && c.host == self.host->0 && c.port == self.port->0),
            (self.host is None) ==> (r matches Err(e) && e.field@ == "host"@),
            (self.host is Some && self.port is None) ==> (r matches Err(e) && e.field@ == "port"@),
    {
        let host = match self.host {
            Some(v) => v,
            None => { return Err(BuildError::missing_field("host")); },
        };
        let port = match self.port {
            Some(v) => v,
            None => { return Err(BuildError::missing_field("port")); },
        };
        Ok(PortCondition { host, port })
    }
}

/// A scheduled change of a subscription's plan.
#[derive(Debug, Clone, PartialEq, Eq)]
pub struct SubscriptionPlanChange {
    pub effective_at: i64,
    pub id: String,
    pub plan: SubscriptionPlanChangePlan,
    pub state: String,
}

impl SubscriptionPlanChange {
    /// A builder with no field set.
    pub fn builder() -> (r: SubscriptionPlanChangeBuilder)
        ensures
            r.effective_at is None,
            r.id is None,
            r.plan is None,
            r.state is None,
    {
        SubscriptionPlanChangeBuilder::default()
    }
}

/// Collects the fields of a [`SubscriptionPlanChange`]; every field is required.
#[derive(Debug, Clone, PartialEq)]
pub struct SubscriptionPlanChangeBuilder {
    pub effective_at: Option<i64>,
    pub id: Option<String>,
    pub plan: Option<SubscriptionPlanChangePlan>,
    pub state: Option<String>,
}

impl Default for SubscriptionPlanChangeBuilder {
    fn default() -> (r: Self)
        ensures
            r.effective_at is None,
            r.id is None,
            r.plan is None,
            r.state is None,
    {
        SubscriptionPlanChangeBuilder { effective_at: None, id: None, plan: None, state: None }
    }
}

impl SubscriptionPlanChangeBuilder {
    /// Sets `effective_at`.
    pub fn effective_at(self, value: i64) -> (r: Self)
        ensures
            r.effective_at == Some(value),
            r.id == self.id,
            r.plan == self.plan,
            r.state == self.state,
    {
        SubscriptionPlanChangeBuilder { effective_at: Some(value), ..self }
    }

    /// Sets `id`.
    pub fn id(self, value: String) -> (r: Self)
        ensures
            r.id == Some(value),
            r.effective_at == self.effective_at,
            r.plan == self.plan,
            r.state == self.state,
    {
        SubscriptionPlanChangeBuilder { id: Some(value), ..self }
    }

    /// Sets `plan`.
    pub fn plan(self, value: SubscriptionPlanChangePlan) -> (r: Self)
        ensures
            r.plan == Some(value),
            r.effective_at == self.effective_at,
            r.id == self.id,
            r.state == self.state,
    {
        SubscriptionPlanChangeBuilder { plan: Some(value), ..self }
    }

    /// Sets `state`.
    pub fn state(self, value: String) -> (r: Self)
        ensures
            r.state == Some(value),
            r.effective_at == self.effective_at,
            r.id == self.id,
            r.plan == self.plan,
    {
        SubscriptionPlanChangeBuilder { state: Some(value), ..self }
    }

    /// The [`SubscriptionPlanChange`] with the collected fields; the first unset field, in
    /// declaration order, is reported missing.
    pub fn build(self) -> (r: Result<SubscriptionPlanChange, BuildError>)
        ensures
            (self.effective_at is Some && self.id is Some && self.plan is Some && self.state is Some) ==> (r matches Ok(c) && c.effective_at == self.effective_at->0 && c.id == self.id->0 && c.plan == self.plan->0 && c.state == self.state->0),
            (self.effective_at is None) ==> (r matches Err(e) && e.field@ == "effective_at"@),
            (self.effective_at is Some && self.id is None) ==> (r matches Err(e) && e.field@ == "id"@),
            (self.effective_at is Some && self.id is Some && self.plan is None) ==> (r matches Err(e) && e.field@ == "plan"@),
            (self.effective_at is Some && self.id is Some && self.plan is Some && self.state is None) ==> (r matches Err(e) && e.field@ == "state"@),
    {
        let effective_at = match self.effective_at {
            Some(v) => v,
            None => { return Err(BuildError::missing_field("effective_at")); },
        };
        let id = match self.id {
            Some(v) => v,
            None => { return Err(BuildError::missing_field("id")); },
        };
        let plan = match self.plan {
            Some(v) => v,
            None => { return Err(BuildError::missing_field("plan")); },
        };
        let state = match self.state {
            Some(v) => v,
            None => { return Err(BuildError::missing_field("state")); },
        };
        Ok(SubscriptionPlanChange { effective_at, id, plan, state })
    }
}

} // verus!
