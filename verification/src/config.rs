//! Protected executor bootstrap. The credential is never rendered or persisted.
use vstd::prelude::*;
use crate::text::chars_of;
use crate::workspace::NodeStat;

verus! {

/// How the hosted side identifies the workspace an attachment serves.
#[derive(Debug)]
pub struct WorkspaceProvenance {
    pub kind: String,
    pub identity: String,
}

pub struct WorkspaceProvenanceView {
    pub kind: Seq<char>,
    pub identity: Seq<char>,
}

impl View for WorkspaceProvenance {
    type V = WorkspaceProvenanceView;

    open spec fn view(&self) -> WorkspaceProvenanceView {
        WorkspaceProvenanceView { kind: self.kind@, identity: self.identity@ }
    }
}

impl Clone for WorkspaceProvenance {
    fn clone(&self) -> (r: Self)
        ensures
            r@ == self@,
    {
        WorkspaceProvenance { kind: self.kind.clone(), identity: self.identity.clone() }
    }
}

impl WorkspaceProvenance {
    /// Whether both provenances name the same workspace.
    pub fn same(&self, other: &WorkspaceProvenance) -> (r: bool)
        ensures
            r == (self@ == other@),
    {
        self.kind == other.kind && self.identity == other.identity
    }
}

/// Why a bootstrap was refused.
#[derive(Debug, Clone, Copy, PartialEq, Eq, Structural)]
pub enum ConfigError {
    /// More than 64 KiB of input.
    TooLarge,
    /// The input is not a bootstrap document.
    Invalid,
    /// An identity or credential field is empty.
    EmptyIdentity,
    /// The owner epoch or the command deadline is out of range.
    InvalidBounds,
    /// The bootstrap file is not a private regular file of this user.
    NotPrivate,
}

impl ConfigError {
    /// The operator-facing message of this refusal.
    pub fn message(&self) -> (r: &'static str)
        ensures
            *self == ConfigError::TooLarge ==> r@ == "bootstrap exceeds 64 KiB"@,
            *self == ConfigError::Invalid ==> r@ == "invalid private bootstrap"@,
            *self == ConfigError::EmptyIdentity ==> r@
                == "bootstrap identity and credential fields must be nonempty"@,
            *self == ConfigError::InvalidBounds ==> r@ == "invalid executor epoch or command deadline"@,
            *self == ConfigError::NotPrivate ==> r@ == "bootstrap must be a private, owned regular file"@,
    {
        match self {
            ConfigError::TooLarge => "bootstrap exceeds 64 KiB",
            ConfigError::Invalid => "invalid private bootstrap",
            ConfigError::EmptyIdentity => "bootstrap identity and credential fields must be nonempty",
            ConfigError::InvalidBounds => "invalid executor epoch or command deadline",
            ConfigError::NotPrivate => "bootstrap must be a private, owned regular file",
        }
    }
}

/// The largest private JSON document accepted, in bytes.
pub const PRIVATE_INPUT_LIMIT: usize = 65536;

/// The command deadline used when a bootstrap does not name one, in seconds.
pub fn command_timeout() -> (r: u64)
    ensures
        r == 120,
{
    120
}

/// One executor's identity, credential and local paths.
pub struct Bootstrap {
    pub project_id: String,
    pub session_id: String,
    pub attachment_id: String,
    pub owner_epoch: i64,
    pub workspace_generation: String,
    pub journal_id: String,
    pub credential_id: String,
    pub token: String,
    pub workspace_provenance: WorkspaceProvenance,
    pub workspace: String,
    pub state_dir: String,
    pub command_timeout_seconds: u64,
}

impl Bootstrap {
    /// Every identity and credential field is nonempty.
    pub open spec fn identities_present(&self) -> bool {
        &&& self.project_id@.len() > 0
        &&& self.session_id@.len() > 0
        &&& self.attachment_id@.len() > 0
        &&& self.workspace_generation@.len() > 0
        &&& self.journal_id@.len() > 0
        &&& self.credential_id@.len() > 0
        &&& self.token@.len() > 0
        &&& self.workspace_provenance.identity@.len() > 0
    }

    /// The owner epoch is positive and the command deadline lies in one day.
    pub open spec fn bounds_valid(&self) -> bool {
        self.owner_epoch >= 1 && 1 <= self.command_timeout_seconds <= 86400
    }

    /// Accepts a bootstrap whose identities are present and whose bounds are valid.
    pub fn validate(&self) -> (r: Result<(), ConfigError>)
        ensures
            r is Ok <==> self.identities_present() && self.bounds_valid(),
            !self.identities_present() ==> r == Err::<(), ConfigError>(ConfigError::EmptyIdentity),
            self.identities_present() && !self.bounds_valid() ==> r == Err::<(), ConfigError>(
                ConfigError::InvalidBounds,
            ),
    {
        if self.project_id.as_str().is_empty() || self.session_id.as_str().is_empty()
            || self.attachment_id.as_str().is_empty()
            || self.workspace_generation.as_str().is_empty() || self.journal_id.as_str().is_empty()
            || self.credential_id.as_str().is_empty() || self.token.as_str().is_empty()
            || self.workspace_provenance.identity.as_str().is_empty() {
            return Err(ConfigError::EmptyIdentity);
        }
        if self.owner_epoch < 1 || self.command_timeout_seconds < 1
            || self.command_timeout_seconds > 86400 {
            return Err(ConfigError::InvalidBounds);
        }
        Ok(())
    }

    /// Accepts the document read from the private input: `input_len` bytes were
    /// read (at most one past the limit), and `decoded` is the bootstrap they
    /// encode, if they encode one.
    pub fn read(input_len: usize, decoded: Option<Bootstrap>) -> (r: Result<Bootstrap, ConfigError>)
        ensures
            input_len > PRIVATE_INPUT_LIMIT ==> r matches Err(ConfigError::TooLarge),
            input_len <= PRIVATE_INPUT_LIMIT && decoded is None ==> r matches Err(
                ConfigError::Invalid,
            ),
            input_len <= PRIVATE_INPUT_LIMIT && decoded is Some ==> match r {
                Ok(b) => b == decoded->0 && b.identities_present() && b.bounds_valid(),
                Err(e) => !(decoded->0.identities_present() && decoded->0.bounds_valid()) && (
                !decoded->0.identities_present() ==> e == ConfigError::EmptyIdentity) && (
                decoded->0.identities_present() ==> e == ConfigError::InvalidBounds),
            },
    {
        if input_len > PRIVATE_INPUT_LIMIT {
            return Err(ConfigError::TooLarge);
        }
        match decoded {
            None => Err(ConfigError::Invalid),
            Some(b) => match b.validate() {
                Ok(()) => Ok(b),
                Err(e) => Err(e),
            },
        }
    }
}

/// A bootstrap file the executor may read: a regular file with one link, no
/// group or other permissions, owned by `euid`. It was opened without following
/// a symbolic link, so a link is refused before it is observed.
pub open spec fn private_input(m: NodeStat, euid: u32) -> bool {
    m.is_file && m.nlink == 1 && (m.mode & 63u32) == 0 && m.uid == euid
}

impl Bootstrap {
    /// Accepts a bootstrap read from a file observed as `file` (none for standard
    /// input) by a process whose effective user is `euid`: the file must be
    /// private, then the document is judged as [`Bootstrap::read`] does.
    pub fn read_private(file: Option<&NodeStat>, euid: u32, input_len: usize, decoded: Option<Bootstrap>) -> (r: Result<Bootstrap, ConfigError>)
        ensures
            (file matches Some(m) && !private_input(*m, euid)) ==> (r matches Err(ConfigError::NotPrivate)),
            !(file matches Some(m) && !private_input(*m, euid)) ==> {
                &&& (input_len > PRIVATE_INPUT_LIMIT ==> (r matches Err(ConfigError::TooLarge)))
                &&& (input_len <= PRIVATE_INPUT_LIMIT && decoded is None ==> (r matches Err(ConfigError::Invalid)))
                &&& input_len <= PRIVATE_INPUT_LIMIT && decoded is Some ==> match r {
                    Ok(b) => b == decoded->0 && b.identities_present() && b.bounds_valid(),
                    Err(e) => !(decoded->0.identities_present() && decoded->0.bounds_valid()) && (
                    !decoded->0.identities_present() ==> e == ConfigError::EmptyIdentity) && (
                    decoded->0.identities_present() ==> e == ConfigError::InvalidBounds),
                }
            },
    {
        match file {
            Some(m) => {
                if !(m.is_file && m.nlink == 1 && (m.mode & 63u32) == 0 && m.uid == euid) {
                    return Err(ConfigError::NotPrivate);
                }
            },
            None => {},
        }
        Bootstrap::read(input_len, decoded)
    }
}

/// An environment variable reserved for the executor's own control: its name,
/// in ASCII uppercase, begins with `SIKARU_`.
pub open spec fn is_control_variable(name: Seq<char>) -> bool {
    let prefix = seq!['S', 'I', 'K', 'A', 'R', 'U', '_'];
    name.len() >= 7 && forall|i: int|
        0 <= i < 7 ==> crate::text::ascii_upper(#[trigger] name[i]) == prefix[i]
}

/// Whether `name` is reserved for the executor's own control, so never passed to tasks.
pub fn control_variable(name: &str) -> (r: bool)
    ensures
        r == is_control_variable(name@),
{
    let v = chars_of(name);
    let prefix = ['S', 'I', 'K', 'A', 'R', 'U', '_'];
    if v.len() < 7 {
        return false;
    }
    let mut i: usize = 0;
    while i < 7
        invariant
            i <= 7,
            v@ == name@,
            v@.len() >= 7,
            prefix@ == seq!['S', 'I', 'K', 'A', 'R', 'U', '_'],
            forall|k: int| 0 <= k < i ==> crate::text::ascii_upper(#[trigger] v@[k]) == prefix@[k],
        decreases 7 - i,
    {
        if crate::text::to_ascii_upper(v[i]) != prefix[i] {
            return false;
        }
        i = i + 1;
    }
    true
}

} // verus!
