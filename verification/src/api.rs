//! The hosted API's views and inputs, as far as the executor reads or writes them.
use vstd::prelude::*;
use crate::config::WorkspaceProvenance;
use crate::value::WireValue;

verus! {

/// Where an attachment stands on the hosted side.
#[derive(Debug, Clone, Copy, PartialEq, Eq, Structural)]
pub enum AttachmentStatus {
    Pending,
    Claimed,
    Starting,
    Ready,
    Stopping,
    RecoveryRequired,
    Cleaned,
    StartupExpired,
    Abandoned,
    /// A status this version does not know.
    Other,
}

/// Whether the hosted side confirmed an attachment's cleanup.
#[derive(Debug, Clone, Copy, PartialEq, Eq, Structural)]
pub enum CleanupStatus {
    Confirmed,
    Unconfirmed,
    Other,
}

/// One compute attachment.
#[derive(Debug)]
pub struct AttachmentView {
    pub id: String,
    pub project_id: String,
    pub session_id: String,
    pub environment_id: String,
    pub journal_id: String,
    pub owner_epoch: i64,
    pub workspace_generation: String,
    pub workspace_provenance: WorkspaceProvenance,
    pub status: AttachmentStatus,
    pub lease_ttl_seconds: Option<i64>,
    pub cleanup_status: CleanupStatus,
}

/// The run an attachment serves.
#[derive(Debug)]
pub struct ExecutionView {
    pub run_id: String,
    pub status: String,
    pub terminal: bool,
    pub approval_required: bool,
}

/// The capability an issued operation names.
#[derive(Debug, Clone, Copy, PartialEq, Eq, Structural)]
pub enum OperationCapability {
    ComputeExecute,
    Other,
}

/// One operation issued to this executor.
#[derive(Debug)]
pub struct OperationView {
    pub run_id: String,
    pub tool_call_id: String,
    pub tool_provider_id: String,
    pub owner_epoch: i64,
    pub workspace_generation: String,
    pub capability_name: OperationCapability,
    pub request_digest: String,
    pub method: String,
    pub arguments: Vec<(String, WireValue)>,
}

/// An operation the hosted side issued, as a page lists it for reconciliation.
#[derive(Debug)]
pub struct IssuedOperation {
    pub run_id: String,
    pub tool_call_id: String,
    pub request_digest: String,
}

/// How the hosted side delivers the next pages.
#[derive(Debug, Clone, Copy, PartialEq, Eq, Structural)]
pub enum PageTransport {
    Poll,
    Channel,
}

/// Whether a workspace checkpoint was published.
#[derive(Debug, Clone, Copy, PartialEq, Eq, Structural)]
pub enum CheckpointStatus {
    Requested,
    Publishing,
    Published,
    Other,
}

/// A requested or recorded workspace checkpoint.
#[derive(Debug)]
pub struct WorkspaceCheckpointView {
    pub checkpoint_id: String,
    pub run_id: String,
    pub owner_epoch: i64,
    pub workspace_generation: String,
    pub tree_id: Option<String>,
    pub status: CheckpointStatus,
}

/// One page of work for this executor.
#[derive(Debug)]
pub struct WorkPage {
    pub attachment: AttachmentView,
    pub execution: Option<ExecutionView>,
    pub operations: Vec<OperationView>,
    pub issued_operations: Vec<IssuedOperation>,
    /// The process handles the hosted side believes are live.
    pub live_handles: Vec<String>,
    pub poll_after_seconds: Option<i64>,
    pub transport: Option<PageTransport>,
    pub workspace_checkpoint: Option<WorkspaceCheckpointView>,
}

/// The protocol an executor speaks.
#[derive(Debug, Clone, Copy, PartialEq, Eq, Structural)]
pub enum ProtocolVersion {
    SikaruComputeV1,
}

/// A capability an executor offers.
#[derive(Debug, Clone, Copy, PartialEq, Eq, Structural)]
pub enum ReadyCapability {
    ComputeExecute,
    BashRun,
    FilesystemCheckpointV1,
    ConditionWaitsV1,
}

/// What an executor declares when it connects or becomes ready.
#[derive(Debug)]
pub struct ReadyInput {
    pub executor_instance_id: String,
    pub journal_id: String,
    pub workspace_provenance: WorkspaceProvenance,
    pub protocol_version: ProtocolVersion,
    pub capabilities: Vec<ReadyCapability>,
}

/// What an executor reports when it gives up an attachment: whether its children
/// are known to be gone, and the evidence for that.
#[derive(Debug)]
pub struct CleanupInput {
    pub children_terminated: bool,
    pub evidence: String,
}

/// How an executor observes one process the hosted side believes live.
#[derive(Debug, Clone, Copy, PartialEq, Eq, Structural)]
pub enum ObservationStatus {
    Running,
    Exited,
    Cancelled,
    Failed,
    Lost,
}

/// One process observation for reconciliation.
#[derive(Debug)]
pub struct ProcessObservation {
    pub handle_id: String,
    pub status: ObservationStatus,
    pub evidence: String,
}

} // verus!
