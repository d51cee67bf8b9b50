//! Remote failures, lease arithmetic and the persistent executor channel's rules.
//! Every remote operation runs under a complete-future deadline in the caller;
//! what is decided about its outcome is decided here.
use vstd::prelude::*;
use vstd::string::StringSliceAdditionalSpecFns;
use crate::api::{AttachmentView, CleanupInput, ProtocolVersion, ReadyCapability, ReadyInput, WorkPage};
use crate::config::Bootstrap;
use crate::deps::{hex_upper, keeps_byte, percent_encode_byte, percent_encoded, random_u64};
use crate::journal::Binding;
use crate::text::{chars_of, has_prefix, push_range, push_text, starts_with, string_of, text_equal};
use crate::types::{CloseFrameReason, HandshakeFrameProtocol};

verus! {

/// A classified remote failure. No response body or URL is retained.
#[derive(Debug, Clone, Copy, PartialEq, Eq, Structural)]
pub enum TransportFailure {
    /// Worth retrying: the service was unreachable, busy or failing.
    Transient,
    /// Not worth retrying.
    Permanent,
    /// Refused for this caller with the given status.
    Rejected(u16),
}

impl TransportFailure {
    /// The stable code of this failure.
    pub fn code(&self) -> (r: &'static str)
        ensures
            *self == TransportFailure::Transient ==> r@ == "transient_transport_failure"@,
            *self == TransportFailure::Permanent ==> r@ == "permanent_transport_failure"@,
            *self is Rejected ==> r@ == "request_rejected"@,
    {
        match self {
            TransportFailure::Transient => "transient_transport_failure",
            TransportFailure::Permanent => "permanent_transport_failure",
            TransportFailure::Rejected(_) => "request_rejected",
        }
    }
}

/// What a remote call reported, as the API client distinguishes it.
#[derive(Debug)]
pub enum ApiFailure {
    /// The request did not reach the service.
    Network,
    ServiceUnavailable,
    Unauthorized,
    Forbidden,
    NotFound,
    Conflict { detail: Option<String> },
    /// Any other HTTP status.
    Http { status: u16 },
    /// Anything else, such as an undecodable response.
    Other,
}

/// The rejection status an API failure carries, if it is a refusal for this caller.
pub open spec fn spec_rejected_status(error: &ApiFailure) -> Option<u16> {
    match error {
        ApiFailure::Unauthorized => Some(401u16),
        ApiFailure::Forbidden => Some(403u16),
        ApiFailure::NotFound => Some(404u16),
        ApiFailure::Http { status } => if 401 <= *status <= 404 { Some(*status) } else { None },
        _ => None,
    }
}

/// The classification of an API failure.
pub open spec fn spec_classify(error: &ApiFailure) -> TransportFailure {
    match spec_rejected_status(error) {
        Some(s) => TransportFailure::Rejected(s),
        None => match error {
            ApiFailure::Network | ApiFailure::ServiceUnavailable => TransportFailure::Transient,
            ApiFailure::Http { status } => if *status == 429 || (500 <= *status < 600) {
                TransportFailure::Transient
            } else {
                TransportFailure::Permanent
            },
            _ => TransportFailure::Permanent,
        },
    }
}

/// The status of a failure that refuses this caller: 401 to 404.
pub fn rejected_status(error: &ApiFailure) -> (r: Option<u16>)
    ensures
        r == spec_rejected_status(error),
{
    match error {
        ApiFailure::Unauthorized => Some(401),
        ApiFailure::Forbidden => Some(403),
        ApiFailure::NotFound => Some(404),
        ApiFailure::Http { status } => if 401 <= *status && *status <= 404 {
            Some(*status)
        } else {
            None
        },
        _ => None,
    }
}

/// Classifies a failure without retaining its body: refusals keep their status;
/// network failures, unavailability, 429 and 5xx are transient; the rest permanent.
pub fn classify(error: ApiFailure) -> (r: TransportFailure)
    ensures
        r == spec_classify(&error),
{
    if let Some(status) = rejected_status(&error) {
        return TransportFailure::Rejected(status);
    }
    let transient = match error {
        ApiFailure::Network | ApiFailure::ServiceUnavailable => true,
        ApiFailure::Http { status } => status == 429 || (500 <= status && status < 600),
        _ => false,
    };
    if transient {
        TransportFailure::Transient
    } else {
        TransportFailure::Permanent
    }
}

/// Whether a failure, if it is a transport failure, is worth retrying.
pub fn transient(failure: Option<TransportFailure>) -> (r: bool)
    ensures
        r == (failure == Some(TransportFailure::Transient)),
{
    match failure {
        Some(TransportFailure::Transient) => true,
        _ => false,
    }
}

/// The base retry delay after `attempt` failures, in milliseconds: 100 ms doubled
/// per attempt, at most 1.6 s.
pub open spec fn backoff_base(attempt: u32) -> u64 {
    if attempt == 0 {
        100
    } else if attempt == 1 {
        200
    } else if attempt == 2 {
        400
    } else if attempt == 3 {
        800
    } else {
        1600
    }
}

/// A retry delay of `base` milliseconds with the jitter that the random `draw`
/// selects: `draw % 100` more milliseconds.
pub fn jittered(base: u64, draw: u64) -> (r: u64)
    requires
        base <= 1600,
    ensures
        r == base + draw % 100,
{
    base + draw % 100
}

/// The delay before the next retry, in milliseconds, with up to 100 ms of jitter;
/// counts the attempt. The jitter is [`jittered`] of one random draw.
pub fn backoff(attempt: &mut u32) -> (r: u64)
    ensures
        backoff_base(*old(attempt)) <= r < backoff_base(*old(attempt)) + 100,
        exists|draw: u64| r == backoff_base(*old(attempt)) + #[trigger] (draw % 100),
        *final(attempt) == if *old(attempt) == u32::MAX { u32::MAX } else { (*old(attempt) + 1) as u32 },
{
    let a = *attempt;
    let base: u64 = if a == 0 {
        100
    } else if a == 1 {
        200
    } else if a == 2 {
        400
    } else if a == 3 {
        800
    } else {
        1600
    };
    *attempt = if a == u32::MAX { u32::MAX } else { a + 1 };
    let draw = random_u64();
    jittered(base, draw)
}

/// The base reconnect delay after `attempt` failures, in milliseconds: 250 ms
/// doubled per attempt, at most 8 s.
pub open spec fn channel_backoff_base(attempt: u32) -> u64 {
    if attempt == 0 {
        250
    } else if attempt == 1 {
        500
    } else if attempt == 2 {
        1000
    } else if attempt == 3 {
        2000
    } else if attempt == 4 {
        4000
    } else {
        8000
    }
}

/// A reconnect delay around `base` milliseconds that the random `draw` selects:
/// half the base plus `draw % (base + 1)`.
pub fn spread_delay(base: u64, draw: u64) -> (r: u64)
    requires
        base <= 8000,
    ensures
        r == base / 2 + (draw as int) % (base + 1),
{
    base / 2 + draw % (base + 1)
}

/// The reconnect delay in milliseconds: spread uniformly over half to one and a
/// half times the base, so executors dropped together do not reconnect together.
/// The spread is [`spread_delay`] of one random draw.
pub fn channel_backoff(attempt: u32) -> (r: u64)
    ensures
        channel_backoff_base(attempt) / 2 <= r <= channel_backoff_base(attempt) / 2 + channel_backoff_base(attempt),
        exists|draw: u64| r == channel_backoff_base(attempt) / 2 + #[trigger] ((draw as int) % (channel_backoff_base(attempt) + 1)),
{
    let base: u64 = if attempt == 0 {
        250
    } else if attempt == 1 {
        500
    } else if attempt == 2 {
        1000
    } else if attempt == 3 {
        2000
    } else if attempt == 4 {
        4000
    } else {
        8000
    };
    let draw = random_u64();
    spread_delay(base, draw)
}

/// Why the executor's view of its authority was refused.
#[derive(Debug, Clone, Copy, PartialEq, Eq, Structural)]
pub enum TransportError {
    UnsupportedScheme,
    AuthorityMismatch,
    InvalidLeaseTtl,
    LateRenewal,
    CredentialMismatch,
    CredentialExpired,
}

impl TransportError {
    /// The operator-facing message.
    pub fn message(&self) -> (r: &'static str)
        ensures
            *self == TransportError::AuthorityMismatch ==> r@ == "attachment authority or workspace identity mismatch"@,
            *self == TransportError::CredentialMismatch ==> r@ == "credential renewal identity mismatch"@,
            *self == TransportError::CredentialExpired ==> r@ == "credential_expired"@,
    {
        match self {
            TransportError::UnsupportedScheme => "unsupported base URL scheme",
            TransportError::AuthorityMismatch => "attachment authority or workspace identity mismatch",
            TransportError::InvalidLeaseTtl => "invalid authority lease TTL",
            TransportError::LateRenewal => "lease renewal arrived after its deadline",
            TransportError::CredentialMismatch => "credential renewal identity mismatch",
            TransportError::CredentialExpired => "credential_expired",
        }
    }
}

/// `s` without its trailing slashes.
pub open spec fn trim_trailing_slashes(s: Seq<char>) -> Seq<char>
    decreases s.len(),
{
    if s.len() > 0 && s.last() == '/' {
        trim_trailing_slashes(s.drop_last())
    } else {
        s
    }
}

/// A text as one percent-encoded URL path segment.
pub open spec fn segment(s: Seq<char>) -> Seq<char> {
    percent_encoded(vstd::utf8::encode_utf8(s))
}

/// The channel URL of an attachment for an API base URL: the scheme becomes a
/// WebSocket scheme; only HTTP and HTTPS bases are supported.
pub open spec fn spec_channel_url(base: Seq<char>, project: Seq<char>, attachment: Seq<char>) -> Option<Seq<char>> {
    let t = trim_trailing_slashes(base);
    let path = "/v1/projects/"@ + segment(project) + "/compute-attachments/"@ + segment(attachment) + "/channel"@;
    if starts_with(t, "https://"@) {
        Some("wss://"@ + t.skip("https://"@.len() as int) + path)
    } else if starts_with(t, "http://"@) {
        Some("ws://"@ + t.skip("http://"@.len() as int) + path)
    } else {
        None
    }
}

/// `s` as one URL path segment: every UTF-8 byte other than an ASCII letter or
/// digit, `-`, `_`, `.` or `~` is percent-encoded.
pub fn path_segment(s: &str) -> (r: String)
    ensures
        r@ == segment(s@),
{
    let bytes = s.as_bytes();
    let ghost all = bytes@;
    let mut out: Vec<char> = Vec::new();
    let mut i: usize = 0;
    proof {
        assert(all.skip(0) =~= all);
        assert(out@ + percent_encoded(all) =~= percent_encoded(all));
    }
    while i < bytes.len()
        invariant
            all == bytes@,
            all == vstd::utf8::encode_utf8(s@),
            i <= all.len(),
            out@ + percent_encoded(all.skip(i as int)) == percent_encoded(all),
        decreases all.len() - i,
    {
        let b = bytes[i];
        let ghost before = out@;
        proof { assert(all.skip(i as int).skip(1) =~= all.skip(i + 1)); }
        if (48 <= b && b <= 57) || (65 <= b && b <= 90) || (97 <= b && b <= 122) || b == 45 || b == 95 || b == 46 || b == 126 {
            out.push(crate::text::char_from_ascii(b as u32));
            proof {
                assert(percent_encoded(all.skip(i as int)) == seq![b as char] + percent_encoded(all.skip(i + 1)));
                assert(out@ + percent_encoded(all.skip(i + 1)) =~= before + percent_encoded(all.skip(i as int)));
            }
        } else {
            push_text(&mut out, percent_encode_byte(b));
            proof {
                assert(percent_encoded(all.skip(i as int)) == seq!['%', hex_upper(b / 16), hex_upper(b % 16)] + percent_encoded(all.skip(i + 1)));
                assert(out@ + percent_encoded(all.skip(i + 1)) =~= before + percent_encoded(all.skip(i as int)));
            }
        }
        i = i + 1;
    }
    proof { assert(all.skip(all.len() as int) =~= Seq::<u8>::empty()); }
    assert(out@ =~= percent_encoded(all));
    string_of(out.as_slice())
}

/// The persistent channel URL of the bound attachment.
pub fn channel_url(base_url: &str, b: &Binding) -> (r: Result<String, TransportError>)
    ensures
        match spec_channel_url(base_url@, b.project_id@, b.attachment_id@) {
            Some(u) => r matches Ok(x) && x@ == u,
            None => r == Err::<String, TransportError>(TransportError::UnsupportedScheme),
        },
{
    let v = chars_of(base_url);
    let mut n = v.len();
    proof { assert(v@.subrange(0, n as int) =~= v@); }
    while n > 0 && v[n - 1] == '/'
        invariant
            n <= v@.len(),
            trim_trailing_slashes(v@) == trim_trailing_slashes(v@.subrange(0, n as int)),
        decreases n,
    {
        proof { assert(v@.subrange(0, n as int).drop_last() =~= v@.subrange(0, n - 1)); }
        n = n - 1;
    }
    let ghost t = v@.subrange(0, n as int);
    proof { assert(trim_trailing_slashes(v@) == t); }
    let mut trimmed: Vec<char> = Vec::new();
    push_range(&mut trimmed, v.as_slice(), 0, n);
    proof { assert(trimmed@ =~= t); }
    let https = chars_of("https://");
    let http = chars_of("http://");
    let mut out: Vec<char> = Vec::new();
    if has_prefix(trimmed.as_slice(), https.as_slice()) {
        push_text(&mut out, "wss://");
        push_range(&mut out, trimmed.as_slice(), https.len(), trimmed.len());
        proof { assert(trimmed@.subrange(https@.len() as int, trimmed@.len() as int) =~= t.skip("https://"@.len() as int)); }
    } else if has_prefix(trimmed.as_slice(), http.as_slice()) {
        push_text(&mut out, "ws://");
        push_range(&mut out, trimmed.as_slice(), http.len(), trimmed.len());
        proof { assert(trimmed@.subrange(http@.len() as int, trimmed@.len() as int) =~= t.skip("http://"@.len() as int)); }
    } else {
        return Err(TransportError::UnsupportedScheme);
    }
    let ghost prefix = out@;
    push_text(&mut out, "/v1/projects/");
    let project = path_segment(b.project_id.as_str());
    push_text(&mut out, project.as_str());
    push_text(&mut out, "/compute-attachments/");
    let attachment = path_segment(b.attachment_id.as_str());
    push_text(&mut out, attachment.as_str());
    push_text(&mut out, "/channel");
    proof {
        let path = "/v1/projects/"@ + segment(b.project_id@) + "/compute-attachments/"@ + segment(b.attachment_id@) + "/channel"@;
        assert(out@ =~= prefix + path);
    }
    Ok(string_of(out.as_slice()))
}

/// The end of a renewed lease, in milliseconds of the monotonic clock: the renewal
/// started at `start` and answered at `now` with a lease of `ttl` seconds, which
/// must lie in (0, 180]. A renewal whose lease already ended is refused.
pub fn renewal_deadline(start: u64, now: u64, ttl: Option<i64>) -> (r: Result<u64, TransportError>)
    requires
        start <= u64::MAX - 180000,
    ensures
        match ttl {
            Some(n) if 0 < n <= 180 => if start + n * 1000 <= now {
                r == Err::<u64, TransportError>(TransportError::LateRenewal)
            } else {
                r == Ok::<u64, TransportError>((start + n * 1000) as u64)
            },
            _ => r == Err::<u64, TransportError>(TransportError::InvalidLeaseTtl),
        },
{
    let n = match ttl {
        Some(n) if 0 < n && n <= 180 => n,
        _ => { return Err(TransportError::InvalidLeaseTtl); },
    };
    let end = start + (n as u64) * 1000;
    if end <= now {
        return Err(TransportError::LateRenewal);
    }
    Ok(end)
}


/// The longest a renewed credential is trusted, in milliseconds.
pub const CREDENTIAL_HORIZON_MS: u64 = 86_400_000;

/// The credential a renewal names must be the one already held, if any.
pub open spec fn credential_matches(identity: Option<Seq<char>>, credential_id: Seq<char>) -> bool {
    match identity {
        Some(id) => id == credential_id,
        None => true,
    }
}

/// The end of a renewed credential, in milliseconds of the monotonic clock: the
/// renewal started at `started`, is judged at `now`, and left `remaining` milliseconds
/// before the credential expires (`None` where the service's expiry is not after its
/// clock, or is not a number). The horizon caps what is trusted. On success the held
/// identity becomes the renewed credential; on refusal it is unchanged.
pub fn credential_deadline(
    identity: &mut Option<String>,
    credential_id: String,
    started: u64,
    now: u64,
    remaining: Option<u64>,
) -> (r: Result<u64, TransportError>)
    requires
        started <= u64::MAX - CREDENTIAL_HORIZON_MS,
    ensures
        ({
            let held = match *old(identity) { Some(s) => Some(s@), None => None::<Seq<char>> };
            if !credential_matches(held, credential_id@) {
                r == Err::<u64, TransportError>(TransportError::CredentialMismatch)
            } else {
                match remaining {
                    Some(ms) if ms > 0 && now < started + (if ms < CREDENTIAL_HORIZON_MS { ms } else { CREDENTIAL_HORIZON_MS }) =>
                        r == Ok::<u64, TransportError>((started + (if ms < CREDENTIAL_HORIZON_MS { ms } else { CREDENTIAL_HORIZON_MS })) as u64),
                    _ => r == Err::<u64, TransportError>(TransportError::CredentialExpired),
                }
            }
        }),
        r is Ok ==> (*final(identity) matches Some(s) && s@ == credential_id@),
        r is Err ==> *final(identity) == *old(identity),
{
    let matches = match &*identity {
        Some(id) => text_equal(id.as_str(), credential_id.as_str()),
        None => true,
    };
    if !matches {
        return Err(TransportError::CredentialMismatch);
    }
    let ms: u64 = match remaining {
        Some(ms) => ms,
        None => 0,
    };
    if ms == 0 {
        return Err(TransportError::CredentialExpired);
    }
    let capped = if ms < CREDENTIAL_HORIZON_MS { ms } else { CREDENTIAL_HORIZON_MS };
    let expires = started + capped;
    if expires <= now {
        return Err(TransportError::CredentialExpired);
    }
    *identity = Some(credential_id);
    Ok(expires)
}

/// The executor's side of the hosted API: its binding and the channel URL derived
/// from it. The API client itself lives with the caller.
#[derive(Debug)]
pub struct Transport {
    pub binding: Binding,
    pub channel_url: Result<String, TransportError>,
}

impl Transport {
    /// The transport of an executor bound by `binding`, serving the API at `base_url`.
    pub fn new(base_url: &str, binding: Binding) -> (r: Transport)
        ensures
            r.binding@ == binding@,
            match spec_channel_url(base_url@, binding.project_id@, binding.attachment_id@) {
                Some(u) => r.channel_url matches Ok(x) && x@ == u,
                None => r.channel_url == Err::<String, TransportError>(TransportError::UnsupportedScheme),
            },
    {
        let channel_url = channel_url(base_url, &binding);
        Transport { binding, channel_url }
    }

    /// The attachment names this binding's authority and workspace.
    pub open spec fn spec_same_authority(&self, a: &AttachmentView) -> bool {
        let b = &self.binding;
        &&& a.id@ == b.attachment_id@
        &&& a.project_id@ == b.project_id@
        &&& a.session_id@ == b.session_id@
        &&& a.journal_id@ == b.journal_id@
        &&& a.owner_epoch == b.owner_epoch
        &&& a.workspace_generation@ == b.workspace_generation@
        &&& a.workspace_provenance@ == b.workspace_provenance@
    }

    /// Accepts an attachment view only if it names this binding's authority and workspace.
    pub fn validate(&self, a: &AttachmentView) -> (r: Result<(), TransportError>)
        ensures
            r is Ok <==> self.spec_same_authority(a),
            r is Err ==> r == Err::<(), TransportError>(TransportError::AuthorityMismatch),
    {
        let b = &self.binding;
        let same = a.id == b.attachment_id && a.project_id == b.project_id && a.session_id
            == b.session_id && a.journal_id == b.journal_id;
        if !same || a.owner_epoch != b.owner_epoch || a.workspace_generation != b.workspace_generation
            || !a.workspace_provenance.same(&b.workspace_provenance) {
            return Err(TransportError::AuthorityMismatch);
        }
        Ok(())
    }

    /// What this executor declares when it connects or becomes ready: its instance,
    /// journal and workspace, the protocol, and its four capabilities.
    pub fn ready_input(&self, instance: &str) -> (r: ReadyInput)
        ensures
            r.executor_instance_id@ == instance@,
            r.journal_id@ == self.binding.journal_id@,
            r.workspace_provenance@ == self.binding.workspace_provenance@,
            r.protocol_version == ProtocolVersion::SikaruComputeV1,
            r.capabilities@ == seq![ReadyCapability::ComputeExecute, ReadyCapability::BashRun, ReadyCapability::FilesystemCheckpointV1, ReadyCapability::ConditionWaitsV1],
    {
        let mut capabilities = Vec::new();
        capabilities.push(ReadyCapability::ComputeExecute);
        capabilities.push(ReadyCapability::BashRun);
        capabilities.push(ReadyCapability::FilesystemCheckpointV1);
        capabilities.push(ReadyCapability::ConditionWaitsV1);
        ReadyInput {
            executor_instance_id: instance.to_owned(),
            journal_id: self.binding.journal_id.clone(),
            workspace_provenance: self.binding.workspace_provenance.clone(),
            protocol_version: ProtocolVersion::SikaruComputeV1,
            capabilities,
        }
    }

    /// Admits a channel whose handshake names this attachment's authority and the
    /// known protocol; a handshake that selects polling returns the executor to it.
    pub fn admit_handshake(&self, h: &Handshake) -> (r: Result<(), ChannelEnd>)
        ensures
            !(h.attachment_id@ == self.binding.attachment_id@ && h.owner_epoch == self.binding.owner_epoch
                && h.workspace_generation@ == self.binding.workspace_generation@ && h.protocol_ok) ==> r == Err::<(), ChannelEnd>(ChannelEnd::Fenced),
            (h.attachment_id@ == self.binding.attachment_id@ && h.owner_epoch == self.binding.owner_epoch
                && h.workspace_generation@ == self.binding.workspace_generation@ && h.protocol_ok) ==> r == (if h.channel {
                Ok::<(), ChannelEnd>(())
            } else {
                Err::<(), ChannelEnd>(ChannelEnd::Poll)
            }),
    {
        let b = &self.binding;
        if h.attachment_id != b.attachment_id || h.owner_epoch != b.owner_epoch
            || h.workspace_generation != b.workspace_generation || !h.protocol_ok {
            return Err(ChannelEnd::Fenced);
        }
        if h.channel {
            Ok(())
        } else {
            Err(ChannelEnd::Poll)
        }
    }
}

/// Why a channel ended, which decides what the executor does next.
#[derive(Debug, Clone, Copy, PartialEq, Eq, Structural)]
pub enum ChannelEnd {
    /// The turn selects polling, or the page needs the HTTP route: poll now.
    Poll,
    /// Credential, owner, generation, environment or stop: poll to surface the authority.
    Fenced,
    /// The connection failed: reconcile, then reconnect with jittered backoff.
    Lost,
}

/// What the channel delivers.
#[derive(Debug)]
pub enum ChannelEvent {
    Page(WorkPage),
    /// The receipt for this tool call was recorded.
    Accepted(String),
    /// A receipt was refused, for this tool call when named.
    Rejected(Option<String>),
    Ended(ChannelEnd),
}

/// Whether a receipt sent over the channel was accepted.
#[derive(Debug, Clone, Copy, PartialEq, Eq, Structural)]
pub enum Delivery {
    Accepted,
    NotAccepted,
}

/// How the next pages are delivered, as a handshake selects it.
#[derive(Debug, Clone, Copy, PartialEq, Eq, Structural)]
pub enum HandshakeFrameTransport {
    Channel,
    Poll,
}

/// A frame from the hosted side, as decoded by its `type` tag. The handshake's
/// heartbeat timing, a fractional number of seconds, stays with the caller.
#[derive(Debug)]
pub enum ServerFrame {
    Close { detail: String, reason: CloseFrameReason },
    Handshake {
        attachment_id: String,
        owner_epoch: i64,
        workspace_generation: String,
        protocol: Option<HandshakeFrameProtocol>,
        transport: HandshakeFrameTransport,
    },
    Heartbeat,
    Operations { page: WorkPage },
    ReceiptAccepted { run_id: String, tool_call_id: String },
    ReceiptRejected { detail: String, run_id: Option<String>, status: i64, tool_call_id: Option<String> },
    /// A frame of a type this version does not know.
    Unknown,
}

/// The handshake fields the executor acts on.
#[derive(Debug)]
pub struct Handshake {
    pub attachment_id: String,
    pub owner_epoch: i64,
    pub workspace_generation: String,
    /// No protocol named, or the known one.
    pub protocol_ok: bool,
    /// The handshake selects the channel rather than polling.
    pub channel: bool,
}

impl Handshake {
    /// The handshake a frame carries, if it is one.
    pub fn from_frame(frame: ServerFrame) -> (r: Option<Handshake>)
        ensures
            match frame {
                ServerFrame::Handshake { attachment_id, owner_epoch, workspace_generation, protocol, transport } =>
                    r matches Some(h) && h.attachment_id == attachment_id && h.owner_epoch == owner_epoch
                        && h.workspace_generation == workspace_generation
                        && h.protocol_ok == (protocol is None || protocol == Some(HandshakeFrameProtocol::SikaruComputeChannelV1))
                        && h.channel == (transport == HandshakeFrameTransport::Channel),
                _ => r is None,
            },
    {
        match frame {
            ServerFrame::Handshake { attachment_id, owner_epoch, workspace_generation, protocol, transport } => {
                let protocol_ok = match protocol {
                    None => true,
                    Some(p) => p == HandshakeFrameProtocol::SikaruComputeChannelV1,
                };
                Some(Handshake {
                    attachment_id,
                    owner_epoch,
                    workspace_generation,
                    protocol_ok,
                    channel: transport == HandshakeFrameTransport::Channel,
                })
            },
            _ => None,
        }
    }
}

/// What one inbound frame means for the channel.
#[derive(Debug)]
pub enum Inbound {
    Skip,
    Event(ChannelEvent),
    End(ChannelEnd),
}

/// Where a close frame's reason sends the executor: polling when asked to, a fence
/// for lost authority, otherwise a lost connection.
pub open spec fn spec_close_reason(reason: crate::types::CloseFrameReasonView) -> ChannelEnd {
    match reason {
        crate::types::CloseFrameReasonView::TransportPoll => ChannelEnd::Poll,
        crate::types::CloseFrameReasonView::CredentialInvalid
        | crate::types::CloseFrameReasonView::EnvironmentDisabled
        | crate::types::CloseFrameReasonView::StaleOwner
        | crate::types::CloseFrameReasonView::WorkspaceGenerationChanged
        | crate::types::CloseFrameReasonView::AttachmentStopped => ChannelEnd::Fenced,
        _ => ChannelEnd::Lost,
    }
}

/// The end a close frame's reason selects.
pub fn close_reason(reason: &CloseFrameReason) -> (r: ChannelEnd)
    ensures
        r == spec_close_reason(reason@),
{
    match reason {
        CloseFrameReason::TransportPoll => ChannelEnd::Poll,
        CloseFrameReason::CredentialInvalid | CloseFrameReason::EnvironmentDisabled
        | CloseFrameReason::StaleOwner | CloseFrameReason::WorkspaceGenerationChanged
        | CloseFrameReason::AttachmentStopped => ChannelEnd::Fenced,
        _ => ChannelEnd::Lost,
    }
}

/// The end a WebSocket close code selects when no close frame said why: a normal
/// close polls, the authority codes fence, anything else is a lost connection.
pub fn close_code(code: u16) -> (r: ChannelEnd)
    ensures
        r == if code == 1000 {
            ChannelEnd::Poll
        } else if code == 4401 || code == 4403 || code == 4409 || code == 4410 || code == 4412 {
            ChannelEnd::Fenced
        } else {
            ChannelEnd::Lost
        },
{
    if code == 1000 {
        ChannelEnd::Poll
    } else if code == 4401 || code == 4403 || code == 4409 || code == 4410 || code == 4412 {
        ChannelEnd::Fenced
    } else {
        ChannelEnd::Lost
    }
}

/// What a decoded frame means. Heartbeats only keep the connection alive; a
/// handshake after the first frame, or an unknown frame, ends the channel.
pub fn frame_event(frame: ServerFrame) -> (r: Inbound)
    ensures
        match frame {
            ServerFrame::Heartbeat => r is Skip,
            ServerFrame::Operations { page } => r matches Inbound::Event(ChannelEvent::Page(p)) && p == page,
            ServerFrame::ReceiptAccepted { tool_call_id, .. } => r matches Inbound::Event(ChannelEvent::Accepted(id)) && id == tool_call_id,
            ServerFrame::ReceiptRejected { tool_call_id, .. } => r matches Inbound::Event(ChannelEvent::Rejected(id)) && id == tool_call_id,
            ServerFrame::Close { reason, .. } => r == Inbound::End(spec_close_reason(reason@)),
            _ => r == Inbound::End(ChannelEnd::Lost),
        },
{
    match frame {
        ServerFrame::Heartbeat => Inbound::Skip,
        ServerFrame::Operations { page } => Inbound::Event(ChannelEvent::Page(page)),
        ServerFrame::ReceiptAccepted { tool_call_id, .. } => Inbound::Event(ChannelEvent::Accepted(tool_call_id)),
        ServerFrame::ReceiptRejected { tool_call_id, .. } => Inbound::Event(ChannelEvent::Rejected(tool_call_id)),
        ServerFrame::Close { reason, .. } => Inbound::End(close_reason(&reason)),
        _ => Inbound::End(ChannelEnd::Lost),
    }
}

/// The contract's heartbeat frame, as the executor sends it: `{"type":"heartbeat"}`.
pub fn heartbeat_text() -> (r: String)
    ensures
        r@ == "{\"type\":\"heartbeat\"}"@,
{
    "{\"type\":\"heartbeat\"}".to_string()
}

/// One message as the socket delivered it. A text message is carried as the
/// server frame it decoded to, or none when it did not decode.
#[derive(Debug)]
pub enum SocketMessage {
    Text(Option<ServerFrame>),
    Ping,
    Pong,
    /// A close, with its code when the peer sent one.
    Close(Option<u16>),
    /// Any other kind of message.
    Other,
}

/// What one socket message means: pings and pongs are skipped, a close ends the
/// channel as its code says (lost without one), a text frame means what its
/// decoded frame means, and anything else is a lost connection.
pub fn inbound(message: SocketMessage) -> (r: Inbound)
    ensures
        match message {
            SocketMessage::Ping | SocketMessage::Pong => r is Skip,
            SocketMessage::Close(None) => r == Inbound::End(ChannelEnd::Lost),
            SocketMessage::Close(Some(code)) => r == Inbound::End(
                if code == 1000 {
                    ChannelEnd::Poll
                } else if code == 4401 || code == 4403 || code == 4409 || code == 4410 || code == 4412 {
                    ChannelEnd::Fenced
                } else {
                    ChannelEnd::Lost
                }),
            SocketMessage::Text(None) | SocketMessage::Other => r == Inbound::End(ChannelEnd::Lost),
            SocketMessage::Text(Some(frame)) => match frame {
                ServerFrame::Heartbeat => r is Skip,
                ServerFrame::Operations { page } => r matches Inbound::Event(ChannelEvent::Page(p)) && p == page,
                ServerFrame::ReceiptAccepted { tool_call_id, .. } => r matches Inbound::Event(ChannelEvent::Accepted(id)) && id == tool_call_id,
                ServerFrame::ReceiptRejected { tool_call_id, .. } => r matches Inbound::Event(ChannelEvent::Rejected(id)) && id == tool_call_id,
                ServerFrame::Close { reason, .. } => r == Inbound::End(spec_close_reason(reason@)),
                _ => r == Inbound::End(ChannelEnd::Lost),
            },
        },
{
    match message {
        SocketMessage::Text(Some(frame)) => frame_event(frame),
        SocketMessage::Ping | SocketMessage::Pong => Inbound::Skip,
        SocketMessage::Close(Some(code)) => Inbound::End(close_code(code)),
        SocketMessage::Close(None) | SocketMessage::Text(None) | SocketMessage::Other => Inbound::End(ChannelEnd::Lost),
    }
}

/// What the executor reports when it gives up its attachment: that its owned
/// process groups are gone when `confirmed`, and otherwise that it cannot prove it.
pub fn cleanup_input(confirmed: bool) -> (r: CleanupInput)
    ensures
        r.children_terminated == confirmed,
        confirmed ==> r.evidence@ == "native owned process groups terminated"@,
        !confirmed ==> r.evidence@ == "native cleanup could not be proven"@,
{
    let evidence = if confirmed {
        "native owned process groups terminated"
    } else {
        "native cleanup could not be proven"
    };
    CleanupInput { children_terminated: confirmed, evidence: evidence.to_string() }
}

/// The channel's own state between socket events: the newest undelivered page
/// and how the channel ended, once it has.
#[derive(Debug)]
pub struct ChannelState {
    pub page: Option<WorkPage>,
    pub ended: Option<ChannelEnd>,
}

impl ChannelState {
    /// A channel just opened.
    pub fn new() -> (r: ChannelState)
        ensures
            r.page is None,
            r.ended is None,
    {
        ChannelState { page: None, ended: None }
    }

    /// How the channel ended, if it has.
    pub fn ended(&self) -> (r: Option<ChannelEnd>)
        ensures
            r == self.ended,
    {
        self.ended
    }

    /// Takes in an event that arrived while waiting for the next page: a page
    /// supersedes any older one, an end is remembered, the rest is dropped.
    pub fn receive(&mut self, event: ChannelEvent)
        ensures
            match event {
                ChannelEvent::Page(p) => final(self).page == Some(p) && final(self).ended == old(self).ended,
                ChannelEvent::Ended(e) => final(self).ended == Some(e) && final(self).page == old(self).page,
                _ => final(self).page == old(self).page && final(self).ended == old(self).ended,
            },
    {
        match event {
            ChannelEvent::Page(p) => { self.page = Some(p); },
            ChannelEvent::Ended(e) => { self.ended = Some(e); },
            _ => {},
        }
    }

    /// The next event to act on: the newest page first, then how the channel
    /// ended; none while the caller must wait for the socket.
    pub fn next(&mut self) -> (r: Option<ChannelEvent>)
        ensures
            match old(self).page {
                Some(p) => r matches Some(ChannelEvent::Page(q)) && q == p && final(self).page is None && final(self).ended == old(self).ended,
                None => final(self).page is None && final(self).ended == old(self).ended && match old(self).ended {
                    Some(e) => r matches Some(ChannelEvent::Ended(x)) && x == e,
                    None => r is None,
                },
            },
    {
        match self.page.take() {
            Some(p) => Some(ChannelEvent::Page(p)),
            None => match self.ended {
                Some(e) => Some(ChannelEvent::Ended(e)),
                None => None,
            },
        }
    }

    /// One step of waiting for the acceptance of the receipt for `tool_call_id`:
    /// `event` is what arrived, or none when the acknowledgement deadline passed.
    /// Answers the delivery once decided; pages that arrive meanwhile are kept.
    pub fn deliver_step(&mut self, tool_call_id: &str, event: Option<ChannelEvent>) -> (r: Option<Delivery>)
        ensures
            match event {
                None => r == Some(Delivery::NotAccepted) && final(self).ended == Some(ChannelEnd::Lost) && final(self).page == old(self).page,
                Some(ChannelEvent::Accepted(id)) => (if id@ == tool_call_id@ {
                    r == Some(Delivery::Accepted)
                } else {
                    r is None
                }) && final(self).page == old(self).page && final(self).ended == old(self).ended,
                Some(ChannelEvent::Rejected(id)) => (if id is None || id->0@ == tool_call_id@ {
                    r == Some(Delivery::NotAccepted)
                } else {
                    r is None
                }) && final(self).page == old(self).page && final(self).ended == old(self).ended,
                Some(ChannelEvent::Page(p)) => r is None && final(self).page == Some(p) && final(self).ended == old(self).ended,
                Some(ChannelEvent::Ended(e)) => r == Some(Delivery::NotAccepted) && final(self).ended == Some(e) && final(self).page == old(self).page,
            },
    {
        match event {
            None => {
                self.ended = Some(ChannelEnd::Lost);
                Some(Delivery::NotAccepted)
            },
            Some(ChannelEvent::Accepted(id)) => if text_equal(id.as_str(), tool_call_id) {
                Some(Delivery::Accepted)
            } else {
                None
            },
            Some(ChannelEvent::Rejected(id)) => match id {
                None => Some(Delivery::NotAccepted),
                Some(id) => if text_equal(id.as_str(), tool_call_id) {
                    Some(Delivery::NotAccepted)
                } else {
                    None
                },
            },
            Some(ChannelEvent::Page(p)) => {
                self.page = Some(p);
                None
            },
            Some(ChannelEvent::Ended(e)) => {
                self.ended = Some(e);
                Some(Delivery::NotAccepted)
            },
        }
    }
}

} // verus!
