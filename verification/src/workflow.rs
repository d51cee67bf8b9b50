//! The controller workflow's durable state and decisions: resuming, rotating the
//! keys that make each remote step idempotent, and assembling the executor's
//! bootstrap and result.
use vstd::prelude::*;
use crate::api::AttachmentView;
use crate::config::{Bootstrap, WorkspaceProvenance};
use crate::deps::random_identity;
use crate::journal::Anchor;
use crate::text::{append_text, is_lower_hex_text, text_equal};

verus! {

/// Why the workflow refused to go on.
#[derive(Debug, Clone, Copy, PartialEq, Eq, Structural)]
pub enum WorkflowError {
    ModelConflict,
    JournalUnclean,
    AgentMismatch,
    IdentityMismatch,
    RemoteChanged,
    PromptRequired,
    MissingSession,
}

impl WorkflowError {
    /// The message reported for this refusal.
    pub fn message(&self) -> (r: &'static str)
        ensures
            *self == WorkflowError::JournalUnclean ==> r@ == "resume requires original cleaned journal"@,
            *self == WorkflowError::RemoteChanged ==> r@ == "remote workspace changed"@,
            *self == WorkflowError::MissingSession ==> r@ == "missing session identity"@,
    {
        match self {
            WorkflowError::ModelConflict => "Resumed sessions retain their model. Start a new session to use a different model.",
            WorkflowError::JournalUnclean => "resume requires original cleaned journal",
            WorkflowError::AgentMismatch => "resume agent mismatch",
            WorkflowError::IdentityMismatch => "resume identity mismatch",
            WorkflowError::RemoteChanged => "remote workspace changed",
            WorkflowError::PromptRequired => "fresh execution requires a prompt",
            WorkflowError::MissingSession => "missing session identity",
        }
    }
}

/// The executor ownership a claim grants.
#[derive(Debug)]
pub struct ClaimView {
    pub owner_id: String,
    pub owner_epoch: i64,
}

/// What the workflow keeps durably between its remote steps.
#[derive(Debug)]
pub struct Saved {
    pub project: String,
    pub agent: String,
    pub model: Option<String>,
    pub anchor: Anchor,
    pub key: String,
    pub session: Option<String>,
    pub environment: Option<String>,
    pub attachment: Option<AttachmentView>,
    pub credential_id: Option<String>,
    pub run_id: Option<String>,
    pub clean: bool,
    pub claim_key: Option<String>,
    pub claim: Option<ClaimView>,
    pub executor_started: bool,
    pub turn_key: Option<String>,
}

impl Saved {
    /// The state of a fresh invocation with idempotency key `key`.
    pub fn fresh(project: String, agent: String, model: Option<String>, anchor: Anchor, key: String) -> (r: Saved)
        ensures
            r.project@ == project@ && r.agent@ == agent@ && r.model == model && r.anchor@ == anchor@
                && r.key@ == key@,
            r.session is None && r.environment is None && r.attachment is None && r.credential_id is None
                && r.run_id is None && r.claim_key is None && r.claim is None && r.turn_key is None,
            !r.clean && !r.executor_started,
    {
        Saved {
            project,
            agent,
            model,
            anchor,
            key,
            session: None,
            environment: None,
            attachment: None,
            credential_id: None,
            run_id: None,
            clean: false,
            claim_key: None,
            claim: None,
            executor_started: false,
            turn_key: None,
        }
    }

    /// Begins a claim under the idempotency key `key`: no claim, start or
    /// cleanliness is recorded for it yet. Nothing else changes.
    pub fn begin_claim(&mut self, key: String)
        ensures
            (*final(self) == Saved {
                claim_key: Some(key),
                claim: None,
                executor_started: false,
                clean: false,
                ..*old(self)
            }),
    {
        self.claim_key = Some(key);
        self.claim = None;
        self.executor_started = false;
        self.clean = false;
    }

    /// Starts a new claim when there is none yet or the last executor ended
    /// cleanly: [`Saved::begin_claim`] under a fresh random key. Returns whether it
    /// did, so the state must be saved; otherwise nothing changes.
    pub fn rotate_claim(&mut self) -> (r: bool)
        ensures
            r == (old(self).claim_key is None || old(self).clean),
            r ==> (final(self).claim_key matches Some(k) && is_lower_hex_text(k@, 32)) && (*final(self) == Saved {
                claim_key: final(self).claim_key,
                claim: None,
                executor_started: false,
                clean: false,
                ..*old(self)
            }),
            !r ==> *final(self) == *old(self),
    {
        if self.claim_key.is_none() || self.clean {
            let key = random_identity();
            self.begin_claim(key);
            true
        } else {
            false
        }
    }

    /// Begins a turn under the idempotency key `key`: it has no run yet. Nothing
    /// else changes.
    pub fn begin_turn(&mut self, key: String)
        ensures
            (*final(self) == Saved { turn_key: Some(key), run_id: None, ..*old(self) }),
    {
        self.turn_key = Some(key);
        self.run_id = None;
    }

    /// Starts a new turn when there is none yet or the last one has its run:
    /// [`Saved::begin_turn`] under a fresh random key. Returns whether it did;
    /// otherwise nothing changes.
    pub fn rotate_turn(&mut self) -> (r: bool)
        ensures
            r == (old(self).turn_key is None || old(self).run_id is Some),
            r ==> (final(self).turn_key matches Some(k) && is_lower_hex_text(k@, 32)) && (*final(self) == Saved {
                turn_key: final(self).turn_key,
                run_id: None,
                ..*old(self)
            }),
            !r ==> *final(self) == *old(self),
    {
        if self.turn_key.is_none() || self.run_id.is_some() {
            let key = random_identity();
            self.begin_turn(key);
            true
        } else {
            false
        }
    }

    /// Records an issued executor credential: the executor is about to start and
    /// is not clean. Nothing else changes.
    pub fn credential_issued(&mut self, credential_id: String)
        ensures
            (*final(self) == Saved {
                credential_id: Some(credential_id),
                clean: false,
                executor_started: true,
                ..*old(self)
            }),
    {
        self.credential_id = Some(credential_id);
        self.clean = false;
        self.executor_started = true;
    }

    /// Records the session the service created: the id its answer carried, or
    /// a refusal, changing nothing, when the answer carried none.
    pub fn record_session(&mut self, id: Option<String>) -> (r: Result<(), WorkflowError>)
        ensures
            match id {
                Some(s) => r is Ok && (*final(self) == Saved { session: Some(s), ..*old(self) }),
                None => r == Err::<(), WorkflowError>(WorkflowError::MissingSession) && *final(self) == *old(self),
            },
    {
        match id {
            Some(s) => {
                self.session = Some(s);
                Ok(())
            },
            None => Err(WorkflowError::MissingSession),
        }
    }

    /// Records the compute environment the service created. Nothing else changes.
    pub fn record_environment(&mut self, id: String)
        ensures
            (*final(self) == Saved { environment: Some(id), ..*old(self) }),
    {
        self.environment = Some(id);
    }

    /// Records the attachment the service created. Nothing else changes.
    pub fn record_attachment(&mut self, a: AttachmentView)
        ensures
            (*final(self) == Saved { attachment: Some(a), ..*old(self) }),
    {
        self.attachment = Some(a);
    }
}

/// The next remote step of setting up an invocation. Each carries the invocation's
/// idempotency key, so a setup interrupted before the executor starts resumes
/// where it stopped without creating anything twice.
#[derive(Debug)]
pub enum ProvisionStep {
    CreateSession { idempotency_key: String },
    CreateEnvironment { session_id: String, slug: String, idempotency_key: String },
    CreateAttachment {
        session_id: String,
        environment_id: String,
        idempotency_key: String,
        provenance: WorkspaceProvenance,
    },
    Done,
}

/// The step that setting up `saved` needs next: a session, then an environment
/// named `local-KEY`, then an attachment for the existing workspace directory
/// identified by the key; nothing once all three exist.
pub fn provision_step(saved: &Saved) -> (r: ProvisionStep)
    ensures
        match saved.session {
            None => r matches ProvisionStep::CreateSession { idempotency_key } && idempotency_key@ == saved.key@,
            Some(s) => match saved.environment {
                None => r matches ProvisionStep::CreateEnvironment { session_id, slug, idempotency_key }
                    && session_id@ == s@ && slug@ == "local-"@ + saved.key@ && idempotency_key@ == saved.key@,
                Some(e) => match saved.attachment {
                    None => r matches ProvisionStep::CreateAttachment {
                        session_id,
                        environment_id,
                        idempotency_key,
                        provenance,
                    } && session_id@ == s@ && environment_id@ == e@ && idempotency_key@ == saved.key@
                        && provenance.kind@ == "existing_directory"@ && provenance.identity@ == saved.key@,
                    Some(_) => r is Done,
                },
            },
        },
{
    let session = match &saved.session {
        None => {
            return ProvisionStep::CreateSession { idempotency_key: saved.key.clone() };
        },
        Some(s) => s,
    };
    let environment = match &saved.environment {
        None => {
            let mut slug = String::new();
            append_text(&mut slug, "local-");
            append_text(&mut slug, saved.key.as_str());
            return ProvisionStep::CreateEnvironment {
                session_id: session.clone(),
                slug,
                idempotency_key: saved.key.clone(),
            };
        },
        Some(e) => e,
    };
    if saved.attachment.is_some() {
        return ProvisionStep::Done;
    }
    ProvisionStep::CreateAttachment {
        session_id: session.clone(),
        environment_id: environment.clone(),
        idempotency_key: saved.key.clone(),
        provenance: WorkspaceProvenance {
            kind: "existing_directory".to_string(),
            identity: saved.key.clone(),
        },
    }
}

/// Accepts resuming `saved` with the given `model` and `agent` options: a model
/// must be the session's; a started executor must have ended cleanly with its
/// journal present; an agent must be the saved one.
pub fn validate_resume(saved: &Saved, model: Option<&str>, agent: Option<&str>, journal_present: bool) -> (r: Result<(), WorkflowError>)
    ensures
        (model matches Some(m) && !(saved.model matches Some(s) && s@ == m@)) ==> r == Err::<(), WorkflowError>(
            WorkflowError::ModelConflict,
        ),
        !(model matches Some(m) && !(saved.model matches Some(s) && s@ == m@)) ==> {
            if saved.executor_started && (!saved.clean || !journal_present) {
                r == Err::<(), WorkflowError>(WorkflowError::JournalUnclean)
            } else if (agent matches Some(a) && a@ != saved.agent@) {
                r == Err::<(), WorkflowError>(WorkflowError::AgentMismatch)
            } else {
                r is Ok
            }
        },
{
    match model {
        Some(m) => {
            let same = match &saved.model {
                Some(s) => text_equal(s.as_str(), m),
                None => false,
            };
            if !same {
                return Err(WorkflowError::ModelConflict);
            }
        },
        None => {},
    }
    if saved.executor_started && (!saved.clean || !journal_present) {
        return Err(WorkflowError::JournalUnclean);
    }
    match agent {
        Some(a) => if !text_equal(a, saved.agent.as_str()) {
            return Err(WorkflowError::AgentMismatch);
        },
        None => {},
    }
    Ok(())
}

/// A resumed state belongs to `project` and to the workspace pinned by `current`.
pub fn resume_identity(saved: &Saved, project: &str, current: &Anchor) -> (r: Result<(), WorkflowError>)
    ensures
        r is Ok <==> (saved.project@ == project@ && saved.anchor@ == current@),
        r is Err ==> r == Err::<(), WorkflowError>(WorkflowError::IdentityMismatch),
{
    if !text_equal(saved.project.as_str(), project) || !saved.anchor.same(current) {
        return Err(WorkflowError::IdentityMismatch);
    }
    Ok(())
}

/// A fresh execution needs a prompt; a started one may resume without.
pub fn requires_prompt(executor_started: bool, has_prompt: bool) -> (r: Result<(), WorkflowError>)
    ensures
        r is Err <==> (!executor_started && !has_prompt),
        r is Err ==> r == Err::<(), WorkflowError>(WorkflowError::PromptRequired),
{
    if !executor_started && !has_prompt {
        return Err(WorkflowError::PromptRequired);
    }
    Ok(())
}

/// The hosted attachment still names the saved journal, workspace and session.
pub fn same_remote(remote: &AttachmentView, local: &AttachmentView) -> (r: Result<(), WorkflowError>)
    ensures
        r is Ok <==> (remote.journal_id@ == local.journal_id@ && remote.workspace_generation@
            == local.workspace_generation@ && remote.workspace_provenance@ == local.workspace_provenance@
            && remote.session_id@ == local.session_id@),
        r is Err ==> r == Err::<(), WorkflowError>(WorkflowError::RemoteChanged),
{
    if remote.journal_id != local.journal_id || remote.workspace_generation != local.workspace_generation
        || !remote.workspace_provenance.same(&local.workspace_provenance) || remote.session_id
        != local.session_id {
        return Err(WorkflowError::RemoteChanged);
    }
    Ok(())
}

/// The bootstrap of the executor serving attachment `a` under `claim`, with the
/// issued credential, the saved workspace and the state directory `state_dir`.
pub fn bootstrap(saved: &Saved, a: &AttachmentView, claim: &ClaimView, credential_id: &str, token: String, state_dir: String) -> (r: Bootstrap)
    ensures
        r.project_id@ == saved.project@,
        r.session_id@ == a.session_id@,
        r.attachment_id@ == a.id@,
        r.owner_epoch == claim.owner_epoch,
        r.workspace_generation@ == a.workspace_generation@,
        r.journal_id@ == a.journal_id@,
        r.credential_id@ == credential_id@,
        r.token@ == token@,
        r.workspace_provenance@ == a.workspace_provenance@,
        r.workspace@ == saved.anchor.path@,
        r.state_dir@ == state_dir@,
        r.command_timeout_seconds == 120,
{
    Bootstrap {
        project_id: saved.project.clone(),
        session_id: a.session_id.clone(),
        attachment_id: a.id.clone(),
        owner_epoch: claim.owner_epoch,
        workspace_generation: a.workspace_generation.clone(),
        journal_id: a.journal_id.clone(),
        credential_id: credential_id.to_owned(),
        token,
        workspace_provenance: a.workspace_provenance.clone(),
        workspace: saved.anchor.path().to_owned(),
        state_dir,
        command_timeout_seconds: 120,
    }
}

/// How an attached run is reported: the executor's result when it served,
/// otherwise a startup failure; a turn whose submission is unconfirmed while the
/// executor served requires recovery.
pub enum AttachedVerdict {
    /// Report what the executor returned.
    Served,
    /// The executor failed to start.
    StartupFailed,
    /// The executor served, but the turn's submission is unconfirmed.
    SubmissionUnconfirmed,
}

/// The verdict of an attached run from whether the executor served and whether
/// the turn was submitted.
pub fn attached_verdict(served: bool, submitted: bool) -> (r: AttachedVerdict)
    ensures
        !served ==> r is StartupFailed,
        served && !submitted ==> r is SubmissionUnconfirmed,
        served && submitted ==> r is Served,
{
    if !served {
        AttachedVerdict::StartupFailed
    } else if !submitted {
        AttachedVerdict::SubmissionUnconfirmed
    } else {
        AttachedVerdict::Served
    }
}

/// The executor credential is revoked only after confirmed cleanup of a run that
/// does not require recovery.
pub fn revoke_due(cleanup_confirmed: bool, status: &str) -> (r: bool)
    ensures
        r == (cleanup_confirmed && status@ != "recovery_required"@),
{
    cleanup_confirmed && !text_equal(status, "recovery_required")
}

/// The default state directory of a fresh invocation: `.sikaru-KEY` in the workspace.
pub fn default_state_dir(workspace: &str, key: &str) -> (r: String)
    ensures
        r@ == crate::tasks::spec_resolve(workspace@, ".sikaru-"@ + key@),
{
    let mut name = String::new();
    append_text(&mut name, ".sikaru-");
    append_text(&mut name, key);
    crate::tasks::resolve(workspace, name.as_str())
}

/// The last `run.completed` event of a page, by index.
pub fn latest_completion(event_types: &Vec<String>) -> (r: Option<usize>)
    ensures
        match r {
            Some(i) => i < event_types@.len() && event_types@[i as int]@ == "run.completed"@
                && forall|k: int| i < k < event_types@.len() ==> (#[trigger] event_types@[k])@ != "run.completed"@,
            None => forall|k: int| 0 <= k < event_types@.len() ==> (#[trigger] event_types@[k])@ != "run.completed"@,
        },
{
    let mut i: usize = event_types.len();
    while i > 0
        invariant
            i <= event_types@.len(),
            forall|k: int| i <= k < event_types@.len() ==> (#[trigger] event_types@[k])@ != "run.completed"@,
        decreases i,
    {
        if text_equal(event_types[i - 1].as_str(), "run.completed") {
            return Some(i - 1);
        }
        i = i - 1;
    }
    None
}

/// Where the next page of events starts, or nothing when the pages are exhausted:
/// an empty page, or a cursor that does not advance, ends the scan.
pub fn next_cursor(empty: bool, next_after: i64, after: i64) -> (r: Option<i64>)
    ensures
        r == (if empty || next_after <= after { None } else { Some(next_after) }),
{
    if empty || next_after <= after {
        None
    } else {
        Some(next_after)
    }
}

} // verus!
