//! Fsynced intent/receipt ledger. Numeric process IDs are never recovery authority.
//!
//! The ledger's decisions live here: each operation either refuses, answers from
//! what is already recorded, or names the one record to append. The caller appends
//! that record durably, then applies it with [`Journal::restore`].
use vstd::prelude::*;
use crate::config::{Bootstrap, WorkspaceProvenance, WorkspaceProvenanceView};
use crate::deps::{sha256_hex, sha256_hex_of};
use crate::pairs::{find_key, keys_distinct, pairs_map, lemma_pairs_map_contains,
    lemma_pairs_map_index, lemma_pairs_map_push, lemma_pairs_map_update};
use crate::process::{ProcessReason, ProcessState, ProcessStateView, ProcessStatus};
use crate::text::text_equal;

verus! {

/// Why the ledger refused an operation.
#[derive(Debug, Clone, Copy, PartialEq, Eq, Structural)]
pub enum JournalError {
    NotADirectory,
    Replaced,
    InvalidHeader,
    NestedHeader,
    RestoredReceiptWithoutIntent,
    RestoredAckWithoutIntent,
    RestartNeedsNewEpoch,
    RestartUnproven,
    AlteredArguments,
    UncertainEffect,
    ReceiptTooLarge,
    ReceiptWithoutIntent,
    ReceiptConflict,
    UnknownAck,
    RecordTooLarge,
    InterruptedWrite,
    InvalidArtifact,
}

impl JournalError {
    /// The operator-facing message of this refusal.
    pub fn message(&self) -> (r: &'static str)
        ensures
            *self == JournalError::RestartNeedsNewEpoch ==> r@
                == "recovery_required: executor restart requires teardown and a new epoch"@,
            *self == JournalError::RestartUnproven ==> r@
                == "recovery_required: journal identity or cleanup is unproven"@,
            *self == JournalError::UncertainEffect ==> r@
                == "recovery_required: uncertain effect must not be replayed"@,
            *self == JournalError::AlteredArguments ==> r@
                == "operation identity was reused with altered arguments"@,
            *self == JournalError::ReceiptConflict ==> r@ == "immutable receipt conflict"@,
    {
        match self {
            JournalError::NotADirectory => "workspace must be a directory",
            JournalError::Replaced => "workspace or private state was replaced",
            JournalError::InvalidHeader => "invalid journal header",
            JournalError::NestedHeader => "unexpected nested journal header",
            JournalError::RestoredReceiptWithoutIntent => "receipt without intent",
            JournalError::RestoredAckWithoutIntent => "ack without intent",
            JournalError::RestartNeedsNewEpoch =>
                "recovery_required: executor restart requires teardown and a new epoch",
            JournalError::RestartUnproven =>
                "recovery_required: journal identity or cleanup is unproven",
            JournalError::AlteredArguments => "operation identity was reused with altered arguments",
            JournalError::UncertainEffect => "recovery_required: uncertain effect must not be replayed",
            JournalError::ReceiptTooLarge => "receipt exceeds transport limit; effect remains uncertain",
            JournalError::ReceiptWithoutIntent => "receipt has no intent",
            JournalError::ReceiptConflict => "immutable receipt conflict",
            JournalError::UnknownAck => "unknown ack",
            JournalError::RecordTooLarge => "journal record exceeds limit",
            JournalError::InterruptedWrite => "recovery_required: interrupted journal write",
            JournalError::InvalidArtifact => "invalid artifact identity",
        }
    }
}

/// A directory pinned by its path, device and inode.
#[derive(Debug)]
pub struct Anchor {
    pub path: String,
    pub device: u64,
    pub inode: u64,
}

pub struct AnchorView {
    pub path: Seq<char>,
    pub device: u64,
    pub inode: u64,
}

impl View for Anchor {
    type V = AnchorView;

    open spec fn view(&self) -> AnchorView {
        AnchorView { path: self.path@, device: self.device, inode: self.inode }
    }
}

impl Clone for Anchor {
    fn clone(&self) -> (r: Self)
        ensures
            r@ == self@,
    {
        Anchor { path: self.path.clone(), device: self.device, inode: self.inode }
    }
}

impl Anchor {
    /// Pins the directory observed at the canonical `path`; anything else is refused.
    pub fn capture(path: String, is_dir: bool, device: u64, inode: u64) -> (r: Result<
        Anchor,
        JournalError,
    >)
        ensures
            is_dir ==> (r matches Ok(a) && a@ == (AnchorView { path: path@, device, inode })),
            !is_dir ==> r == Err::<Anchor, JournalError>(JournalError::NotADirectory),
    {
        if !is_dir {
            return Err(JournalError::NotADirectory);
        }
        Ok(Anchor { path, device, inode })
    }

    /// Accepts `current`, a fresh capture of this anchor's path, only if it pins the
    /// same directory.
    pub fn verify(&self, current: &Anchor) -> (r: Result<(), JournalError>)
        ensures
            r is Ok <==> current@ == self@,
            r is Err ==> r == Err::<(), JournalError>(JournalError::Replaced),
    {
        if self.same(current) {
            Ok(())
        } else {
            Err(JournalError::Replaced)
        }
    }

    /// The pinned path.
    pub fn path(&self) -> (r: &str)
        ensures
            r@ == self.path@,
    {
        self.path.as_str()
    }

    /// Whether both anchors pin the same directory at the same path.
    pub fn same(&self, other: &Anchor) -> (r: bool)
        ensures
            r == (self@ == other@),
    {
        self.path == other.path && self.device == other.device && self.inode == other.inode
    }
}

/// The authority an executor journal belongs to.
#[derive(Debug)]
pub struct Binding {
    pub project_id: String,
    pub session_id: String,
    pub attachment_id: String,
    pub owner_epoch: i64,
    pub workspace_generation: String,
    pub journal_id: String,
    pub credential_id: String,
    pub workspace_provenance: WorkspaceProvenance,
    pub anchor: Anchor,
}

pub struct BindingView {
    pub project_id: Seq<char>,
    pub session_id: Seq<char>,
    pub attachment_id: Seq<char>,
    pub owner_epoch: i64,
    pub workspace_generation: Seq<char>,
    pub journal_id: Seq<char>,
    pub credential_id: Seq<char>,
    pub workspace_provenance: WorkspaceProvenanceView,
    pub anchor: AnchorView,
}

impl View for Binding {
    type V = BindingView;

    open spec fn view(&self) -> BindingView {
        BindingView {
            project_id: self.project_id@,
            session_id: self.session_id@,
            attachment_id: self.attachment_id@,
            owner_epoch: self.owner_epoch,
            workspace_generation: self.workspace_generation@,
            journal_id: self.journal_id@,
            credential_id: self.credential_id@,
            workspace_provenance: self.workspace_provenance@,
            anchor: self.anchor@,
        }
    }
}

impl Clone for Binding {
    fn clone(&self) -> (r: Self)
        ensures
            r@ == self@,
    {
        Binding {
            project_id: self.project_id.clone(),
            session_id: self.session_id.clone(),
            attachment_id: self.attachment_id.clone(),
            owner_epoch: self.owner_epoch,
            workspace_generation: self.workspace_generation.clone(),
            journal_id: self.journal_id.clone(),
            credential_id: self.credential_id.clone(),
            workspace_provenance: self.workspace_provenance.clone(),
            anchor: self.anchor.clone(),
        }
    }
}

impl Binding {
    /// The binding of an executor started from `b`, whose workspace is pinned by `anchor`.
    pub fn from_bootstrap(b: &Bootstrap, anchor: Anchor) -> (r: Binding)
        ensures
            r@ == (BindingView {
                project_id: b.project_id@,
                session_id: b.session_id@,
                attachment_id: b.attachment_id@,
                owner_epoch: b.owner_epoch,
                workspace_generation: b.workspace_generation@,
                journal_id: b.journal_id@,
                credential_id: b.credential_id@,
                workspace_provenance: b.workspace_provenance@,
                anchor: anchor@,
            }),
    {
        Binding {
            project_id: b.project_id.clone(),
            session_id: b.session_id.clone(),
            attachment_id: b.attachment_id.clone(),
            owner_epoch: b.owner_epoch,
            workspace_generation: b.workspace_generation.clone(),
            journal_id: b.journal_id.clone(),
            credential_id: b.credential_id.clone(),
            workspace_provenance: b.workspace_provenance.clone(),
            anchor,
        }
    }

    /// Whether both bindings name the same authority.
    pub fn same(&self, other: &Binding) -> (r: bool)
        ensures
            r == (self@ == other@),
    {
        self.project_id == other.project_id && self.session_id == other.session_id
            && self.attachment_id == other.attachment_id && self.owner_epoch == other.owner_epoch
            && self.workspace_generation == other.workspace_generation && self.journal_id
            == other.journal_id && self.credential_id == other.credential_id
            && self.workspace_provenance.same(&other.workspace_provenance) && self.anchor.same(
            &other.anchor,
        )
    }
}

/// The capability a receipt answers.
#[derive(Debug, Clone, Copy, PartialEq, Eq, Structural)]
pub enum ReceiptCapability {
    ComputeExecute,
}

/// How an operation ended.
#[derive(Debug, Clone, Copy, PartialEq, Eq, Structural)]
pub enum ReceiptStatus {
    Completed,
    Failed,
}

/// The immutable result of one issued operation, as the hosted side receives it.
#[derive(Debug)]
pub struct Receipt {
    pub run_id: String,
    pub tool_call_id: String,
    pub tool_provider_id: String,
    pub capability_name: Option<ReceiptCapability>,
    pub request_digest: String,
    pub idempotency_key: String,
    pub status: ReceiptStatus,
    /// The payload's canonical JSON encoding.
    pub payload: Vec<u8>,
}

pub struct ReceiptView {
    pub run_id: Seq<char>,
    pub tool_call_id: Seq<char>,
    pub tool_provider_id: Seq<char>,
    pub capability_name: Option<ReceiptCapability>,
    pub request_digest: Seq<char>,
    pub idempotency_key: Seq<char>,
    pub status: ReceiptStatus,
    pub payload: Seq<u8>,
}

impl View for Receipt {
    type V = ReceiptView;

    open spec fn view(&self) -> ReceiptView {
        ReceiptView {
            run_id: self.run_id@,
            tool_call_id: self.tool_call_id@,
            tool_provider_id: self.tool_provider_id@,
            capability_name: self.capability_name,
            request_digest: self.request_digest@,
            idempotency_key: self.idempotency_key@,
            status: self.status,
            payload: self.payload@,
        }
    }
}

impl Clone for Receipt {
    fn clone(&self) -> (r: Self)
        ensures
            r@ == self@,
    {
        Receipt {
            run_id: self.run_id.clone(),
            tool_call_id: self.tool_call_id.clone(),
            tool_provider_id: self.tool_provider_id.clone(),
            capability_name: self.capability_name,
            request_digest: self.request_digest.clone(),
            idempotency_key: self.idempotency_key.clone(),
            status: self.status,
            payload: crate::text::bytes_copy(self.payload.as_slice()),
        }
    }
}

impl Receipt {
    /// Whether both receipts are identical.
    pub fn same(&self, other: &Receipt) -> (r: bool)
        ensures
            r == (self@ == other@),
    {
        self.run_id == other.run_id && self.tool_call_id == other.tool_call_id
            && self.tool_provider_id == other.tool_provider_id && self.capability_name
            == other.capability_name && self.request_digest == other.request_digest
            && self.idempotency_key == other.idempotency_key && self.status == other.status
            && crate::text::bytes_equal(self.payload.as_slice(), other.payload.as_slice())
    }
}

/// One issued operation: the digest of its request, its receipt once executed, and
/// whether the hosted side acknowledged that receipt.
#[derive(Debug)]
pub struct Entry {
    pub request: String,
    pub receipt: Option<Receipt>,
    pub acknowledged: bool,
}

pub struct EntryView {
    pub request: Seq<char>,
    pub receipt: Option<ReceiptView>,
    pub acknowledged: bool,
}

pub open spec fn receipt_opt_view(r: Option<Receipt>) -> Option<ReceiptView> {
    match r {
        Some(x) => Some(x@),
        None => None,
    }
}

impl View for Entry {
    type V = EntryView;

    open spec fn view(&self) -> EntryView {
        EntryView {
            request: self.request@,
            receipt: receipt_opt_view(self.receipt),
            acknowledged: self.acknowledged,
        }
    }
}

impl Clone for Entry {
    fn clone(&self) -> (r: Self)
        ensures
            r@ == self@,
    {
        Entry {
            request: self.request.clone(),
            receipt: match &self.receipt {
                Some(x) => Some(x.clone()),
                None => None,
            },
            acknowledged: self.acknowledged,
        }
    }
}

/// One line of the ledger.
#[derive(Debug)]
pub enum Record {
    Header { binding: Binding, instance: String },
    Intent { key: String, request: String },
    Receipt { key: String, receipt: Receipt },
    Ack { key: String },
    Handle { id: String, state: ProcessState },
    Clean,
}

pub enum RecordView {
    Header { binding: BindingView, instance: Seq<char> },
    Intent { key: Seq<char>, request: Seq<char> },
    Receipt { key: Seq<char>, receipt: ReceiptView },
    Ack { key: Seq<char> },
    Handle { id: Seq<char>, state: ProcessStateView },
    Clean,
}

impl View for Record {
    type V = RecordView;

    open spec fn view(&self) -> RecordView {
        match self {
            Record::Header { binding, instance } => RecordView::Header {
                binding: binding@,
                instance: instance@,
            },
            Record::Intent { key, request } => RecordView::Intent { key: key@, request: request@ },
            Record::Receipt { key, receipt } => RecordView::Receipt {
                key: key@,
                receipt: receipt@,
            },
            Record::Ack { key } => RecordView::Ack { key: key@ },
            Record::Handle { id, state } => RecordView::Handle { id: id@, state: state@ },
            Record::Clean => RecordView::Clean,
        }
    }
}

impl Clone for Record {
    fn clone(&self) -> (r: Self)
        ensures
            r@ == self@,
    {
        match self {
            Record::Header { binding, instance } => Record::Header {
                binding: binding.clone(),
                instance: instance.clone(),
            },
            Record::Intent { key, request } => Record::Intent {
                key: key.clone(),
                request: request.clone(),
            },
            Record::Receipt { key, receipt } => Record::Receipt {
                key: key.clone(),
                receipt: receipt.clone(),
            },
            Record::Ack { key } => Record::Ack { key: key.clone() },
            Record::Handle { id, state } => Record::Handle { id: id.clone(), state: state.clone() },
            Record::Clean => Record::Clean,
        }
    }
}


/// What an intent decides: answer from the recorded receipt, or append this intent.
#[derive(Debug)]
pub enum IntentStep {
    Replay(Receipt),
    Record(Record),
}

pub enum IntentStepView {
    Replay(ReceiptView),
    Record(RecordView),
}

pub open spec fn intent_result_view(r: Result<IntentStep, JournalError>) -> Result<
    IntentStepView,
    JournalError,
> {
    match r {
        Ok(IntentStep::Replay(x)) => Ok(IntentStepView::Replay(x@)),
        Ok(IntentStep::Record(x)) => Ok(IntentStepView::Record(x@)),
        Err(e) => Err(e),
    }
}

pub open spec fn record_result_view(r: Result<Option<Record>, JournalError>) -> Result<
    Option<RecordView>,
    JournalError,
> {
    match r {
        Ok(Some(x)) => Ok(Some(x@)),
        Ok(None) => Ok(None),
        Err(e) => Err(e),
    }
}

/// The in-memory ledger of one executor.
#[derive(Debug)]
pub struct Journal {
    pub binding: Binding,
    pub instance: String,
    pub entries: Vec<(String, Entry)>,
    pub handles: Vec<(String, ProcessState)>,
    pub clean: bool,
}

pub struct JournalView {
    pub binding: BindingView,
    pub instance: Seq<char>,
    pub entries: Map<Seq<char>, EntryView>,
    pub handles: Map<Seq<char>, ProcessStateView>,
    pub clean: bool,
}

impl View for Journal {
    type V = JournalView;

    open spec fn view(&self) -> JournalView {
        JournalView {
            binding: self.binding@,
            instance: self.instance@,
            entries: pairs_map(self.entries@),
            handles: pairs_map(self.handles@),
            clean: self.clean,
        }
    }
}

/// The largest receipt the transport carries, in encoded bytes.
pub const RECEIPT_LIMIT: usize = 262144;

/// Some issued operation has no receipt: its effect is uncertain.
pub open spec fn spec_uncertain(j: JournalView) -> bool {
    exists|k: Seq<char>| #[trigger] j.entries.contains_key(k) && j.entries[k].receipt is None
}

/// An intent for `key` whose request has digest `digest`.
pub open spec fn spec_intent(j: JournalView, key: Seq<char>, digest: Seq<char>) -> Result<
    IntentStepView,
    JournalError,
> {
    if j.entries.contains_key(key) {
        let e = j.entries[key];
        if e.request != digest {
            Err(JournalError::AlteredArguments)
        } else {
            match e.receipt {
                Some(r) => Ok(IntentStepView::Replay(r)),
                None => Err(JournalError::UncertainEffect),
            }
        }
    } else {
        Ok(IntentStepView::Record(RecordView::Intent { key, request: digest }))
    }
}

/// A receipt for `key`, `encoded_len` bytes once encoded.
pub open spec fn spec_receipt(
    j: JournalView,
    key: Seq<char>,
    receipt: ReceiptView,
    encoded_len: nat,
) -> Result<Option<RecordView>, JournalError> {
    if encoded_len > RECEIPT_LIMIT {
        Err(JournalError::ReceiptTooLarge)
    } else if !j.entries.contains_key(key) {
        Err(JournalError::ReceiptWithoutIntent)
    } else {
        match j.entries[key].receipt {
            Some(old) => if old == receipt {
                Ok(None)
            } else {
                Err(JournalError::ReceiptConflict)
            },
            None => Ok(Some(RecordView::Receipt { key, receipt })),
        }
    }
}

/// An acknowledgement of the receipt for `key`.
pub open spec fn spec_ack(j: JournalView, key: Seq<char>) -> Result<
    Option<RecordView>,
    JournalError,
> {
    if !j.entries.contains_key(key) {
        Err(JournalError::UnknownAck)
    } else if j.entries[key].acknowledged {
        Ok(None)
    } else {
        Ok(Some(RecordView::Ack { key }))
    }
}

/// The ledger after applying one non-header record.
pub open spec fn spec_restore(j: JournalView, record: RecordView) -> Result<
    JournalView,
    JournalError,
> {
    match record {
        RecordView::Intent { key, request } => Ok(
            JournalView {
                entries: j.entries.insert(
                    key,
                    EntryView { request, receipt: None, acknowledged: false },
                ),
                ..j
            },
        ),
        RecordView::Receipt { key, receipt } => if j.entries.contains_key(key) {
            Ok(
                JournalView {
                    entries: j.entries.insert(
                        key,
                        EntryView { receipt: Some(receipt), ..j.entries[key] },
                    ),
                    ..j
                },
            )
        } else {
            Err(JournalError::RestoredReceiptWithoutIntent)
        },
        RecordView::Ack { key } => if j.entries.contains_key(key) {
            Ok(
                JournalView {
                    entries: j.entries.insert(key, EntryView { acknowledged: true, ..j.entries[key] }),
                    ..j
                },
            )
        } else {
            Err(JournalError::RestoredAckWithoutIntent)
        },
        RecordView::Handle { id, state } => Ok(
            JournalView { handles: j.handles.insert(id, state), ..j },
        ),
        RecordView::Clean => Ok(JournalView { clean: true, ..j }),
        RecordView::Header { .. } => Err(JournalError::NestedHeader),
    }
}

impl Journal {
    /// Distinct keys in both keyed collections.
    pub open spec fn wf(&self) -> bool {
        keys_distinct(self.entries@) && keys_distinct(self.handles@)
    }

    /// An empty ledger for `binding` and this process's `instance`, before loading.
    pub fn open(binding: Binding, instance: String) -> (r: Journal)
        ensures
            r.wf(),
            r@ == (JournalView {
                binding: binding@,
                instance: instance@,
                entries: Map::empty(),
                handles: Map::empty(),
                clean: false,
            }),
    {
        let r = Journal { binding, instance, entries: Vec::new(), handles: Vec::new(), clean: false };
        assert(r@.entries =~= Map::empty());
        assert(r@.handles =~= Map::empty());
        r
    }

    /// Whether some issued operation has no receipt.
    pub fn has_uncertain_effects(&self) -> (r: bool)
        requires
            self.wf(),
        ensures
            r == spec_uncertain(self@),
    {
        let mut i: usize = 0;
        while i < self.entries.len()
            invariant
                self.wf(),
                i <= self.entries@.len(),
                forall|k: int| 0 <= k < i ==> (#[trigger] self.entries@[k]).1.receipt is Some,
            decreases self.entries@.len() - i,
        {
            if self.entries[i].1.receipt.is_none() {
                proof {
                    lemma_pairs_map_index(self.entries@, i as int);
                    assert(self@.entries.contains_key(self.entries@[i as int].0@));
                }
                return true;
            }
            i = i + 1;
        }
        proof {
            assert forall|k: Seq<char>| #[trigger] self@.entries.contains_key(k) implies self@.entries[k].receipt is Some by {
                lemma_pairs_map_contains(self.entries@, k);
                let a = choose|a: int| 0 <= a < self.entries@.len() && self.entries@[a].0@ == k;
                lemma_pairs_map_index(self.entries@, a);
                assert(self.entries@[a].1.receipt is Some);
            }
        }
        false
    }

    /// Records the intent to execute `key` with request encoding `request`.
    /// Only a digest of the request is kept, never the request itself.
    pub fn intent(&self, key: &str, request: &[u8]) -> (r: Result<IntentStep, JournalError>)
        requires
            self.wf(),
        ensures
            intent_result_view(r) == spec_intent(self@, key@, sha256_hex_of(request@)),
    {
        let digest = sha256_hex(request);
        match find_key(&self.entries, key) {
            Some(i) => {
                proof { lemma_pairs_map_index(self.entries@, i as int); }
                let e = &self.entries[i].1;
                if e.request != digest {
                    return Err(JournalError::AlteredArguments);
                }
                match &e.receipt {
                    Some(receipt) => Ok(IntentStep::Replay(receipt.clone())),
                    None => Err(JournalError::UncertainEffect),
                }
            },
            None => {
                proof { lemma_pairs_map_contains(self.entries@, key@); }
                Ok(IntentStep::Record(Record::Intent { key: key.to_owned(), request: digest }))
            },
        }
    }

    /// Records the receipt for `key`; `encoded_len` is its encoded size.
    pub fn receipt(&self, key: &str, receipt: Receipt, encoded_len: usize) -> (r: Result<
        Option<Record>,
        JournalError,
    >)
        requires
            self.wf(),
        ensures
            record_result_view(r) == spec_receipt(self@, key@, receipt@, encoded_len as nat),
    {
        if encoded_len > RECEIPT_LIMIT {
            return Err(JournalError::ReceiptTooLarge);
        }
        match find_key(&self.entries, key) {
            None => {
                proof { lemma_pairs_map_contains(self.entries@, key@); }
                Err(JournalError::ReceiptWithoutIntent)
            },
            Some(i) => {
                proof { lemma_pairs_map_index(self.entries@, i as int); }
                match &self.entries[i].1.receipt {
                    Some(old) => if old.same(&receipt) {
                        Ok(None)
                    } else {
                        Err(JournalError::ReceiptConflict)
                    },
                    None => Ok(Some(Record::Receipt { key: key.to_owned(), receipt })),
                }
            },
        }
    }

    /// Records that the hosted side accepted the receipt for `key`.
    pub fn ack(&self, key: &str) -> (r: Result<Option<Record>, JournalError>)
        requires
            self.wf(),
        ensures
            record_result_view(r) == spec_ack(self@, key@),
    {
        match find_key(&self.entries, key) {
            None => {
                proof { lemma_pairs_map_contains(self.entries@, key@); }
                Err(JournalError::UnknownAck)
            },
            Some(i) => {
                proof { lemma_pairs_map_index(self.entries@, i as int); }
                if self.entries[i].1.acknowledged {
                    Ok(None)
                } else {
                    Ok(Some(Record::Ack { key: key.to_owned() }))
                }
            },
        }
    }

    /// Records the state of owned process `id`.
    pub fn handle(&self, id: &str, state: ProcessState) -> (r: Record)
        ensures
            r@ == (RecordView::Handle { id: id@, state: state@ }),
    {
        Record::Handle { id: id.to_owned(), state }
    }

    /// Records that every owned effect was cleaned up.
    pub fn mark_clean(&self) -> (r: Record)
        ensures
            r@ == RecordView::Clean,
    {
        Record::Clean
    }

    fn put_entry(&mut self, key: &String, entry: Entry)
        requires
            old(self).wf(),
        ensures
            final(self).wf(),
            final(self)@ == (JournalView {
                entries: old(self)@.entries.insert(key@, entry@),
                ..old(self)@
            }),
    {
        match find_key(&self.entries, key.as_str()) {
            Some(i) => {
                let ghost before = self.entries@;
                let pair = (key.clone(), entry);
                self.entries.set(i, pair);
                proof { lemma_pairs_map_update(before, i as int, pair); }
            },
            None => {
                let ghost before = self.entries@;
                proof { lemma_pairs_map_contains(before, key@); }
                let pair = (key.clone(), entry);
                self.entries.push(pair);
                proof { lemma_pairs_map_push(before, pair); }
            },
        }
    }

    fn put_handle(&mut self, id: &String, state: ProcessState)
        requires
            old(self).wf(),
        ensures
            final(self).wf(),
            final(self)@ == (JournalView {
                handles: old(self)@.handles.insert(id@, state@),
                ..old(self)@
            }),
    {
        match find_key(&self.handles, id.as_str()) {
            Some(i) => {
                let ghost before = self.handles@;
                let pair = (id.clone(), state);
                self.handles.set(i, pair);
                proof { lemma_pairs_map_update(before, i as int, pair); }
            },
            None => {
                let ghost before = self.handles@;
                proof { lemma_pairs_map_contains(before, id@); }
                let pair = (id.clone(), state);
                self.handles.push(pair);
                proof { lemma_pairs_map_push(before, pair); }
            },
        }
    }

    /// Applies one appended record to the ledger; a header never nests.
    pub fn restore(&mut self, record: &Record) -> (r: Result<(), JournalError>)
        requires
            old(self).wf(),
        ensures
            final(self).wf(),
            match spec_restore(old(self)@, record@) {
                Ok(j) => r is Ok && final(self)@ == j,
                Err(e) => r == Err::<(), JournalError>(e) && final(self)@ == old(self)@,
            },
    {
        match record {
            Record::Intent { key, request } => {
                self.put_entry(key, Entry { request: request.clone(), receipt: None, acknowledged: false });
                Ok(())
            },
            Record::Receipt { key, receipt } => match find_key(&self.entries, key.as_str()) {
                Some(i) => {
                    proof { lemma_pairs_map_index(self.entries@, i as int); }
                    let mut entry = self.entries[i].1.clone();
                    entry.receipt = Some(receipt.clone());
                    self.put_entry(key, entry);
                    Ok(())
                },
                None => {
                    proof { lemma_pairs_map_contains(self.entries@, key@); }
                    Err(JournalError::RestoredReceiptWithoutIntent)
                },
            },
            Record::Ack { key } => match find_key(&self.entries, key.as_str()) {
                Some(i) => {
                    proof { lemma_pairs_map_index(self.entries@, i as int); }
                    let mut entry = self.entries[i].1.clone();
                    entry.acknowledged = true;
                    self.put_entry(key, entry);
                    Ok(())
                },
                None => {
                    proof { lemma_pairs_map_contains(self.entries@, key@); }
                    Err(JournalError::RestoredAckWithoutIntent)
                },
            },
            Record::Handle { id, state } => {
                self.put_handle(id, state.clone());
                Ok(())
            },
            Record::Clean => {
                self.clean = true;
                Ok(())
            },
            Record::Header { .. } => Err(JournalError::NestedHeader),
        }
    }
}


pub open spec fn record_views(s: Seq<Record>) -> Seq<RecordView> {
    s.map_values(|r: Record| r@)
}

/// Replays `records` after a header that named `old` and `instance`; a later header
/// takes over and leaves the ledger unclean.
pub open spec fn spec_replay(
    j: JournalView,
    records: Seq<RecordView>,
    old: BindingView,
    instance: Seq<char>,
) -> Result<(JournalView, BindingView, Seq<char>), JournalError>
    decreases records.len(),
{
    if records.len() == 0 {
        Ok((j, old, instance))
    } else {
        match records[0] {
            RecordView::Header { binding, instance: next } => spec_replay(
                JournalView { clean: false, ..j },
                records.skip(1),
                binding,
                next,
            ),
            r => match spec_restore(j, r) {
                Ok(j2) => spec_replay(j2, records.skip(1), old, instance),
                Err(e) => Err(e),
            },
        }
    }
}

/// Replays a whole ledger file, which must begin with a header.
pub open spec fn spec_restore_records(j: JournalView, records: Seq<RecordView>) -> Result<
    (JournalView, BindingView, Seq<char>),
    JournalError,
> {
    if records.len() > 0 && records[0] is Header {
        spec_replay(j, records.skip(1), records[0]->binding, records[0]->Header_instance)
    } else {
        Err(JournalError::InvalidHeader)
    }
}

/// A process still running when the launcher confirmed teardown is cancelled.
pub open spec fn torn_down(s: ProcessStateView) -> ProcessStateView {
    if s.status == ProcessStatus::Running {
        ProcessStateView {
            status: ProcessStatus::Cancelled,
            reason: Some(ProcessReason::ExternalTeardownConfirmed),
            ..s
        }
    } else {
        s
    }
}

/// `records` record the teardown of exactly the running processes of `handles`, once each.
pub open spec fn teardown_covers(
    handles: Map<Seq<char>, ProcessStateView>,
    records: Seq<RecordView>,
) -> bool {
    &&& forall|i: int|
        0 <= i < records.len() ==> {
            &&& #[trigger] records[i] is Handle
            &&& handles.contains_key(records[i]->id)
            &&& handles[records[i]->id].status == ProcessStatus::Running
            &&& records[i]->state == torn_down(handles[records[i]->id])
        }
    &&& forall|i: int, k: int|
        0 <= i < records.len() && 0 <= k < records.len() && i != k ==> #[trigger] records[i]->id
            != #[trigger] records[k]->id
    &&& forall|id: Seq<char>|
        #[trigger] handles.contains_key(id) && handles[id].status == ProcessStatus::Running
            ==> exists|i: int| 0 <= i < records.len() && records[i]->id == id
}

/// Whether a restart of the ledger last written by `old` and `old_instance` may
/// proceed, and how the ledger looks afterwards.
pub open spec fn restart_allowed(j: JournalView, old: BindingView, old_instance: Seq<char>, teardown_verified: bool) -> Result<(), JournalError> {
    if old == j.binding && old_instance == j.instance {
        Ok(())
    } else if old.owner_epoch >= j.binding.owner_epoch {
        Err(JournalError::RestartNeedsNewEpoch)
    } else if (BindingView {
        owner_epoch: j.binding.owner_epoch,
        credential_id: j.binding.credential_id,
        ..old
    }) != j.binding || !(j.clean || teardown_verified) || spec_uncertain(j) {
        Err(JournalError::RestartUnproven)
    } else {
        Ok(())
    }
}

/// The ledger after an admitted restart by a new process.
pub open spec fn restarted(j: JournalView, teardown_verified: bool) -> JournalView {
    JournalView {
        handles: if teardown_verified {
            j.handles.map_values(|s: ProcessStateView| torn_down(s))
        } else {
            j.handles
        },
        clean: false,
        ..j
    }
}

/// The map of a vector whose values were each rewritten by `torn_down`.
proof fn lemma_torn_down_map(s: Seq<(String, ProcessState)>, t: Seq<(String, ProcessState)>)
    requires
        keys_distinct(s),
        s.len() == t.len(),
        forall|i: int| 0 <= i < s.len() ==> (#[trigger] t[i]).0@ == s[i].0@ && t[i].1@ == torn_down(s[i].1@),
    ensures
        keys_distinct(t),
        pairs_map(t) == pairs_map(s).map_values(|x: ProcessStateView| torn_down(x)),
    decreases s.len(),
{
    assert forall|a: int, b: int| 0 <= a < t.len() && 0 <= b < t.len() && a != b implies t[a].0@ != t[b].0@ by {
        assert(t[a].0@ == s[a].0@);
        assert(t[b].0@ == s[b].0@);
    }
    if s.len() > 0 {
        assert(keys_distinct(s.drop_last()));
        assert forall|i: int| 0 <= i < s.drop_last().len() implies (#[trigger] t.drop_last()[i]).0@ == s.drop_last()[i].0@ && t.drop_last()[i].1@ == torn_down(s.drop_last()[i].1@) by {
            assert(t.drop_last()[i] == t[i]);
            assert(s.drop_last()[i] == s[i]);
        }
        lemma_torn_down_map(s.drop_last(), t.drop_last());
        assert(t.last().0@ == s.last().0@);
        assert(pairs_map(t) =~= pairs_map(s).map_values(|x: ProcessStateView| torn_down(x)));
    } else {
        assert(pairs_map(t) =~= pairs_map(s).map_values(|x: ProcessStateView| torn_down(x)));
    }
}

impl Journal {
    /// Replays a ledger file: a header, then records. A later header (a restart)
    /// takes over the authority and leaves the ledger unclean. Answers the binding
    /// and instance of the last header.
    pub fn restore_records(&mut self, records: &Vec<Record>) -> (r: Result<(Binding, String), JournalError>)
        requires
            old(self).wf(),
        ensures
            final(self).wf(),
            match spec_restore_records(old(self)@, record_views(records@)) {
                Ok(x) => r matches Ok(y) && y.0@ == x.1 && y.1@ == x.2 && final(self)@ == x.0,
                Err(e) => r == Err::<(Binding, String), JournalError>(e),
            },
    {
        let ghost views = record_views(records@);
        let ghost j0 = self@;
        if records.len() == 0 {
            return Err(JournalError::InvalidHeader);
        }
        let (mut last_binding, mut instance) = match &records[0] {
            Record::Header { binding, instance } => (binding.clone(), instance.clone()),
            _ => { return Err(JournalError::InvalidHeader); },
        };
        let mut i: usize = 1;
        while i < records.len()
            invariant
                self.wf(),
                1 <= i <= records@.len(),
                views == record_views(records@),
                views.len() == records@.len(),
                j0 == old(self)@,
                spec_restore_records(j0, views) == spec_replay(self@, views.skip(i as int), last_binding@, instance@),
            decreases records@.len() - i,
        {
            proof {
                assert(views[i as int] == records@[i as int]@);
                assert(views.skip(i as int)[0] == views[i as int]);
                assert(views.skip(i as int).skip(1) =~= views.skip(i + 1));
            }
            match &records[i] {
                Record::Header { binding, instance: next } => {
                    last_binding = binding.clone();
                    instance = next.clone();
                    self.clean = false;
                },
                record => {
                    let ghost jb = self@;
                    proof { assert(!(views[i as int] is Header)); }
                    match self.restore(record) {
                        Ok(()) => {},
                        Err(e) => {
                            proof {
                                assert(spec_restore(jb, views[i as int]) == Err::<JournalView, JournalError>(e));
                                assert(spec_replay(jb, views.skip(i as int), last_binding@, instance@) == Err::<(JournalView, BindingView, Seq<char>), JournalError>(e));
                                assert(spec_restore_records(j0, views) == Err::<(JournalView, BindingView, Seq<char>), JournalError>(e));
                                assert(j0 == old(self)@);
                                assert(views == record_views(records@));
                            }
                            return Err(e);
                        },
                    }
                },
            }
            i = i + 1;
        }
        proof { assert(views.skip(records@.len() as int).len() == 0); }
        Ok((last_binding, instance))
    }

    /// Admits a restart after a ledger last written by `old` and `old_instance`, or
    /// refuses it. The same process continues silently. Another process needs a
    /// higher epoch, the same authority otherwise, no uncertain effect, and proof of
    /// cleanup: a recorded clean shutdown or a verified external teardown, which
    /// cancels the processes that were running. Answers the records to append.
    pub fn validate_restart(&mut self, previous: Binding, previous_instance: String, teardown_verified: bool) -> (r: Result<Vec<Record>, JournalError>)
        requires
            old(self).wf(),
        ensures
            final(self).wf(),
            match restart_allowed(old(self)@, previous@, previous_instance@, teardown_verified) {
                Err(e) => r == Err::<Vec<Record>, JournalError>(e) && final(self)@ == old(self)@,
                Ok(()) => r is Ok && if previous@ == old(self)@.binding && previous_instance@ == old(self)@.instance {
                    final(self)@ == old(self)@ && r->Ok_0@.len() == 0
                } else {
                    let recs = record_views(r->Ok_0@);
                    &&& final(self)@ == restarted(old(self)@, teardown_verified)
                    &&& recs.len() >= 1
                    &&& recs.last() == (RecordView::Header { binding: old(self)@.binding, instance: old(self)@.instance })
                    &&& if teardown_verified {
                        teardown_covers(old(self)@.handles, recs.drop_last())
                    } else {
                        recs.len() == 1
                    }
                },
            },
    {
        if previous.same(&self.binding) && previous_instance == self.instance {
            return Ok(Vec::new());
        }
        if previous.owner_epoch >= self.binding.owner_epoch {
            return Err(JournalError::RestartNeedsNewEpoch);
        }
        let mut claimed = previous;
        claimed.owner_epoch = self.binding.owner_epoch;
        claimed.credential_id = self.binding.credential_id.clone();
        let uncertain = self.has_uncertain_effects();
        if !claimed.same(&self.binding) || !(self.clean || teardown_verified) || uncertain {
            return Err(JournalError::RestartUnproven);
        }
        let mut records: Vec<Record> = if teardown_verified {
            self.cancel_running()
        } else {
            Vec::new()
        };
        let ghost handle_records = record_views(records@);
        records.push(Record::Header { binding: self.binding.clone(), instance: self.instance.clone() });
        self.clean = false;
        proof {
            assert(record_views(records@).drop_last() == handle_records);
        }
        Ok(records)
    }
}

impl Journal {
    /// Cancels every running process after a verified external teardown; answers
    /// the handle records to append.
    #[verifier::rlimit(50)]
    fn cancel_running(&mut self) -> (records: Vec<Record>)
        requires
            old(self).wf(),
        ensures
            final(self).wf(),
            final(self)@ == (JournalView {
                handles: old(self)@.handles.map_values(|s: ProcessStateView| torn_down(s)),
                ..old(self)@
            }),
            teardown_covers(old(self)@.handles, record_views(records@)),
    {
        let ghost before = self.handles@;
        let ghost map_before = self@.handles;
        let ghost j0 = self@;
        let ghost e0 = self.entries@;
        let ghost mut idx: Seq<int> = Seq::empty();
        let mut records: Vec<Record> = Vec::new();
        let mut k: usize = 0;
        while k < self.handles.len()
            invariant
                keys_distinct(before),
                map_before == pairs_map(before),
                self.entries@ == e0,
                keys_distinct(e0),
                j0.entries == pairs_map(e0),
                self.binding@ == j0.binding,
                self.instance@ == j0.instance,
                self.clean == j0.clean,
                self.handles@.len() == before.len(),
                k <= before.len(),
                forall|i: int| 0 <= i < k ==> (#[trigger] self.handles@[i]).0@ == before[i].0@ && self.handles@[i].1@ == torn_down(before[i].1@),
                forall|i: int| k <= i < before.len() ==> #[trigger] self.handles@[i] == before[i],
                record_views(records@).len() == idx.len(),
                forall|i: int| 0 <= i < idx.len() ==> {
                    &&& 0 <= #[trigger] idx[i] < k
                    &&& before[idx[i]].1@.status == ProcessStatus::Running
                    &&& record_views(records@)[i] == (RecordView::Handle { id: before[idx[i]].0@, state: torn_down(before[idx[i]].1@) })
                },
                forall|i: int, m: int| 0 <= i < m < idx.len() ==> #[trigger] idx[i] < #[trigger] idx[m],
                forall|a: int| 0 <= a < k && (#[trigger] before[a]).1@.status == ProcessStatus::Running ==> exists|i: int| 0 <= i < idx.len() && #[trigger] idx[i] == a,
            decreases before.len() - k,
        {
            if self.handles[k].1.status == ProcessStatus::Running {
                let mut state = self.handles[k].1.clone();
                state.status = ProcessStatus::Cancelled;
                state.reason = Some(ProcessReason::ExternalTeardownConfirmed);
                let id = self.handles[k].0.clone();
                let ghost old_views = record_views(records@);
                let ghost old_idx = idx;
                records.push(Record::Handle { id: id.clone(), state: state.clone() });
                self.handles.set(k, (id, state));
                proof {
                    idx = idx.push(k as int);
                    assert(record_views(records@) =~= old_views.push(RecordView::Handle { id: before[k as int].0@, state: torn_down(before[k as int].1@) }));
                    assert forall|a: int| 0 <= a < k + 1 && (#[trigger] before[a]).1@.status == ProcessStatus::Running implies exists|i: int| 0 <= i < idx.len() && #[trigger] idx[i] == a by {
                        if a == k {
                            assert(idx[old_idx.len() as int] == a);
                        } else {
                            let i = choose|i: int| 0 <= i < old_idx.len() && old_idx[i] == a;
                            assert(idx[i] == a);
                        }
                    }
                }
            } else {
                proof {
                    assert(torn_down(before[k as int].1@) == before[k as int].1@);
                }
            }
            k = k + 1;
        }
        proof {
            lemma_torn_down_map(before, self.handles@);
            let recs = record_views(records@);
            assert forall|i: int| 0 <= i < recs.len() implies {
                &&& #[trigger] recs[i] is Handle
                &&& map_before.contains_key(recs[i]->id)
                &&& map_before[recs[i]->id].status == ProcessStatus::Running
                &&& recs[i]->state == torn_down(map_before[recs[i]->id])
            } by {
                lemma_pairs_map_index(before, idx[i]);
            }
            assert forall|i: int, m: int| 0 <= i < recs.len() && 0 <= m < recs.len() && i != m implies #[trigger] recs[i]->id != #[trigger] recs[m]->id by {
                if i < m {
                    assert(idx[i] < idx[m]);
                } else {
                    assert(idx[m] < idx[i]);
                }
            }
            assert forall|id: Seq<char>| #[trigger] map_before.contains_key(id) && map_before[id].status == ProcessStatus::Running implies exists|i: int| 0 <= i < recs.len() && recs[i]->id == id by {
                lemma_pairs_map_contains(before, id);
                let a = choose|a: int| 0 <= a < before.len() && before[a].0@ == id;
                lemma_pairs_map_index(before, a);
                assert(before[a].1@.status == ProcessStatus::Running);
                let i = choose|i: int| 0 <= i < idx.len() && idx[i] == a;
                assert(recs[i]->id == id);
            }
            assert(self@.handles =~= map_before.map_values(|s: ProcessStateView| torn_down(s)));
        }
        records
    }
}


/// The empty ledger of the same authority and process as `j`.
pub open spec fn fresh(j: JournalView) -> JournalView {
    JournalView { entries: Map::empty(), handles: Map::empty(), clean: false, ..j }
}

/// How a restart check of the ledger `j` (last written by `previous` and
/// `previous_instance`) answered `r` and left the ledger `after`.
pub open spec fn restart_outcome(
    j: JournalView,
    previous: BindingView,
    previous_instance: Seq<char>,
    teardown_verified: bool,
    r: Result<Vec<Record>, JournalError>,
    after: JournalView,
) -> bool {
    match restart_allowed(j, previous, previous_instance, teardown_verified) {
        Err(e) => r == Err::<Vec<Record>, JournalError>(e),
        Ok(()) => r is Ok && if previous == j.binding && previous_instance == j.instance {
            after == j && r->Ok_0@.len() == 0
        } else {
            let recs = record_views(r->Ok_0@);
            &&& after == restarted(j, teardown_verified)
            &&& recs.len() >= 1
            &&& recs.last() == (RecordView::Header { binding: j.binding, instance: j.instance })
            &&& if teardown_verified {
                teardown_covers(j.handles, recs.drop_last())
            } else {
                recs.len() == 1
            }
        },
    }
}

/// Replaying `a` then `c` is replaying `a + c`.
pub proof fn lemma_replay_append(
    j: JournalView,
    a: Seq<RecordView>,
    c: Seq<RecordView>,
    b: BindingView,
    i: Seq<char>,
)
    ensures
        spec_replay(j, a + c, b, i) == match spec_replay(j, a, b, i) {
            Ok(x) => spec_replay(x.0, c, x.1, x.2),
            Err(e) => Err(e),
        },
    decreases a.len(),
{
    if a.len() == 0 {
        assert(a + c =~= c);
    } else {
        assert((a + c)[0] == a[0]);
        assert((a + c).skip(1) =~= a.skip(1) + c);
        match a[0] {
            RecordView::Header { binding, instance } => {
                lemma_replay_append(JournalView { clean: false, ..j }, a.skip(1), c, binding, instance);
            },
            r => {
                match spec_restore(j, r) {
                    Ok(j2) => { lemma_replay_append(j2, a.skip(1), c, b, i); },
                    Err(e) => {},
                }
            },
        }
    }
}

/// Replaying the records that describe one entry inserts that entry.
proof fn lemma_replay_entry(j: JournalView, key: Seq<char>, e: EntryView, recs: Seq<RecordView>, b: BindingView, i: Seq<char>)
    requires
        recs == entry_records(key, e),
    ensures
        spec_replay(j, recs, b, i) == Ok::<(JournalView, BindingView, Seq<char>), JournalError>((JournalView { entries: j.entries.insert(key, e), ..j }, b, i)),
{
    let first = RecordView::Intent { key, request: e.request };
    let j1 = JournalView { entries: j.entries.insert(key, EntryView { request: e.request, receipt: None, acknowledged: false }), ..j };
    let rest1 = match e.receipt {
        Some(r) => seq![RecordView::Receipt { key, receipt: r }],
        None => Seq::<RecordView>::empty(),
    };
    let rest2 = if e.acknowledged { seq![RecordView::Ack { key }] } else { Seq::<RecordView>::empty() };
    assert(recs == seq![first] + rest1 + rest2);
    lemma_replay_append(j, seq![first] + rest1, rest2, b, i);
    lemma_replay_append(j, seq![first], rest1, b, i);
    assert(seq![first].skip(1) =~= Seq::<RecordView>::empty());
    assert(seq![first][0] == first);
    assert(spec_restore(j, first) == Ok::<JournalView, JournalError>(j1));
    assert(spec_replay(j1, seq![first].skip(1), b, i) == Ok::<(JournalView, BindingView, Seq<char>), JournalError>((j1, b, i)));
    assert(spec_replay(j, seq![first], b, i) == Ok::<(JournalView, BindingView, Seq<char>), JournalError>((j1, b, i)));
    let j2 = match e.receipt {
        Some(r) => JournalView { entries: j.entries.insert(key, EntryView { request: e.request, receipt: Some(r), acknowledged: false }), ..j },
        None => j1,
    };
    match e.receipt {
        Some(r) => {
            assert(rest1.skip(1) =~= Seq::<RecordView>::empty());
            assert(rest1[0] == RecordView::Receipt { key, receipt: r });
            assert(j1.entries.contains_key(key));
            assert(spec_replay(j2, rest1.skip(1), b, i) == Ok::<(JournalView, BindingView, Seq<char>), JournalError>((j2, b, i)));
            assert(j1.entries.insert(key, EntryView { receipt: Some(r), ..j1.entries[key] }) =~= j2.entries);
        },
        None => {},
    }
    assert(spec_replay(j1, rest1, b, i) == Ok::<(JournalView, BindingView, Seq<char>), JournalError>((j2, b, i)));
    let target = JournalView { entries: j.entries.insert(key, e), ..j };
    if e.acknowledged {
        assert(rest2.skip(1) =~= Seq::<RecordView>::empty());
        assert(rest2[0] == RecordView::Ack { key });
        assert(j2.entries.contains_key(key));
        let j3 = JournalView { entries: j2.entries.insert(key, EntryView { acknowledged: true, ..j2.entries[key] }), ..j2 };
        assert(j3.entries =~= j.entries.insert(key, e));
        assert(j3 == target);
        assert(spec_replay(j3, rest2.skip(1), b, i) == Ok::<(JournalView, BindingView, Seq<char>), JournalError>((j3, b, i)));
        assert(spec_replay(j2, rest2, b, i) == Ok::<(JournalView, BindingView, Seq<char>), JournalError>((target, b, i)));
    } else {
        assert(j2.entries =~= j.entries.insert(key, e));
        assert(j2 == target);
        assert(spec_replay(j2, rest2, b, i) == Ok::<(JournalView, BindingView, Seq<char>), JournalError>((target, b, i)));
    }
    assert(spec_replay(j, seq![first] + rest1, b, i) == Ok::<(JournalView, BindingView, Seq<char>), JournalError>((j2, b, i)));
}

/// The records a snapshot writes for one entry: its intent, then its receipt and
/// acknowledgement when recorded.
pub open spec fn entry_records(key: Seq<char>, e: EntryView) -> Seq<RecordView> {
    seq![RecordView::Intent { key, request: e.request }] + match e.receipt {
        Some(r) => seq![RecordView::Receipt { key, receipt: r }],
        None => Seq::<RecordView>::empty(),
    } + if e.acknowledged {
        seq![RecordView::Ack { key }]
    } else {
        Seq::<RecordView>::empty()
    }
}

impl Journal {
    /// Loads the ledger file's `records`. An empty file only needs this process's
    /// header; otherwise the records are replayed and the restart is checked (see
    /// [`Journal::validate_restart`]). Answers the records to append.
    pub fn load(&mut self, records: &Vec<Record>, teardown_verified: bool) -> (r: Result<Vec<Record>, JournalError>)
        requires
            old(self).wf(),
        ensures
            final(self).wf(),
            records@.len() == 0 ==> (r matches Ok(v) && final(self)@ == old(self)@ && record_views(v@) == seq![RecordView::Header { binding: old(self)@.binding, instance: old(self)@.instance }]),
            records@.len() > 0 ==> match spec_restore_records(old(self)@, record_views(records@)) {
                Err(e) => r == Err::<Vec<Record>, JournalError>(e),
                Ok(x) => restart_outcome(x.0, x.1, x.2, teardown_verified, r, final(self)@),
            },
    {
        if records.len() == 0 {
            let mut v: Vec<Record> = Vec::new();
            v.push(Record::Header { binding: self.binding.clone(), instance: self.instance.clone() });
            proof { assert(record_views(v@) =~= seq![RecordView::Header { binding: self@.binding, instance: self@.instance }]); }
            return Ok(v);
        }
        let (previous, previous_instance) = self.restore_records(records)?;
        self.validate_restart(previous, previous_instance, teardown_verified)
    }

    /// The records of a compacted ledger: this header, every entry, every process
    /// state, and the clean mark when set. Replaying them on an empty ledger of
    /// the same authority gives back exactly this ledger.
    #[verifier::rlimit(50)]
    pub fn write_snapshot(&self) -> (r: Vec<Record>)
        requires
            self.wf(),
        ensures
            record_views(r@).len() >= 1,
            record_views(r@)[0] == (RecordView::Header { binding: self@.binding, instance: self@.instance }),
            spec_restore_records(fresh(self@), record_views(r@)) == Ok::<(JournalView, BindingView, Seq<char>), JournalError>((self@, self@.binding, self@.instance)),
    {
        let ghost b = self@.binding;
        let ghost inst = self@.instance;
        let mut out: Vec<Record> = Vec::new();
        out.push(Record::Header { binding: self.binding.clone(), instance: self.instance.clone() });
        let mut k: usize = 0;
        while k < self.entries.len()
            invariant
                self.wf(),
                b == self@.binding,
                inst == self@.instance,
                k <= self.entries@.len(),
                record_views(out@).len() >= 1,
                record_views(out@)[0] == (RecordView::Header { binding: b, instance: inst }),
                spec_replay(fresh(self@), record_views(out@).skip(1), b, inst) == Ok::<(JournalView, BindingView, Seq<char>), JournalError>((JournalView { entries: pairs_map(self.entries@.take(k as int)), ..fresh(self@) }, b, inst)),
            decreases self.entries@.len() - k,
        {
            let ghost before = record_views(out@);
            let key = &self.entries[k].0;
            let entry = &self.entries[k].1;
            out.push(Record::Intent { key: key.clone(), request: entry.request.clone() });
            match &entry.receipt {
                Some(receipt) => { out.push(Record::Receipt { key: key.clone(), receipt: receipt.clone() }); },
                None => {},
            }
            if entry.acknowledged {
                out.push(Record::Ack { key: key.clone() });
            }
            proof {
                let added = entry_records(key@, entry@);
                assert(record_views(out@) =~= before + added);
                assert(record_views(out@).skip(1) =~= before.skip(1) + added);
                lemma_replay_append(fresh(self@), before.skip(1), added, b, inst);
                let jk = JournalView { entries: pairs_map(self.entries@.take(k as int)), ..fresh(self@) };
                lemma_replay_entry(jk, key@, entry@, added, b, inst);
                assert(self.entries@.take(k + 1).drop_last() =~= self.entries@.take(k as int));
                assert(pairs_map(self.entries@.take(k + 1)) == pairs_map(self.entries@.take(k as int)).insert(key@, entry@));
            }
            k = k + 1;
        }
        proof { assert(self.entries@.take(self.entries@.len() as int) =~= self.entries@); }
        let mut h: usize = 0;
        while h < self.handles.len()
            invariant
                self.wf(),
                b == self@.binding,
                inst == self@.instance,
                h <= self.handles@.len(),
                record_views(out@).len() >= 1,
                record_views(out@)[0] == (RecordView::Header { binding: b, instance: inst }),
                spec_replay(fresh(self@), record_views(out@).skip(1), b, inst) == Ok::<(JournalView, BindingView, Seq<char>), JournalError>((JournalView { entries: self@.entries, handles: pairs_map(self.handles@.take(h as int)), ..fresh(self@) }, b, inst)),
            decreases self.handles@.len() - h,
        {
            let ghost before = record_views(out@);
            out.push(Record::Handle { id: self.handles[h].0.clone(), state: self.handles[h].1.clone() });
            proof {
                let added = seq![RecordView::Handle { id: self.handles@[h as int].0@, state: self.handles@[h as int].1@ }];
                assert(record_views(out@) =~= before + added);
                assert(record_views(out@).skip(1) =~= before.skip(1) + added);
                lemma_replay_append(fresh(self@), before.skip(1), added, b, inst);
                assert(added.skip(1) =~= Seq::<RecordView>::empty());
                assert(added[0] == RecordView::Handle { id: self.handles@[h as int].0@, state: self.handles@[h as int].1@ });
                assert(self.handles@.take(h + 1).drop_last() =~= self.handles@.take(h as int));
                assert(self.handles@.take(h + 1).last() == self.handles@[h as int]);
                assert(pairs_map(self.handles@.take(h + 1)) == pairs_map(self.handles@.take(h as int)).insert(self.handles@[h as int].0@, self.handles@[h as int].1@));
                let jh = JournalView { entries: self@.entries, handles: pairs_map(self.handles@.take(h as int)), ..fresh(self@) };
                let jh2 = JournalView { entries: self@.entries, handles: pairs_map(self.handles@.take(h + 1)), ..fresh(self@) };
                assert(spec_restore(jh, added[0]) == Ok::<JournalView, JournalError>(jh2));
                assert(spec_replay(jh2, added.skip(1), b, inst) == Ok::<(JournalView, BindingView, Seq<char>), JournalError>((jh2, b, inst)));
                assert(spec_replay(jh, added, b, inst) == Ok::<(JournalView, BindingView, Seq<char>), JournalError>((jh2, b, inst)));
            }
            h = h + 1;
        }
        proof { assert(self.handles@.take(self.handles@.len() as int) =~= self.handles@); }
        if self.clean {
            let ghost before = record_views(out@);
            out.push(Record::Clean);
            proof {
                let added = seq![RecordView::Clean];
                assert(record_views(out@) =~= before + added);
                assert(record_views(out@).skip(1) =~= before.skip(1) + added);
                lemma_replay_append(fresh(self@), before.skip(1), added, b, inst);
                assert(added.skip(1) =~= Seq::<RecordView>::empty());
                assert(added[0] == RecordView::Clean);
                let jc = JournalView { entries: self@.entries, handles: self@.handles, ..fresh(self@) };
                assert(spec_restore(jc, added[0]) == Ok::<JournalView, JournalError>(JournalView { clean: true, ..jc }));
                assert(spec_replay(JournalView { clean: true, ..jc }, added.skip(1), b, inst) == Ok::<(JournalView, BindingView, Seq<char>), JournalError>((JournalView { clean: true, ..jc }, b, inst)));
                assert(JournalView { clean: true, ..jc } == self@);
            }
        } else {
            proof {
                assert(JournalView { entries: self@.entries, handles: self@.handles, ..fresh(self@) } == self@);
            }
        }
        proof {
            let v = record_views(out@);
            assert(v[0] is Header);
            assert(v[0]->binding == b);
            assert(v[0]->Header_instance == inst);
            assert(spec_replay(fresh(self@), v.skip(1), b, inst) == Ok::<(JournalView, BindingView, Seq<char>), JournalError>((self@, b, inst)));
            assert(JournalView { entries: self@.entries, handles: self@.handles, clean: self@.clean, ..fresh(self@) } == self@);
        }
        out
    }
}


/// The largest encoded record, in bytes, before its line end.
pub const RECORD_LIMIT: usize = 1048576;

/// The line that holds one encoded record.
pub fn frame_record(encoded: Vec<u8>) -> (r: Result<Vec<u8>, JournalError>)
    ensures
        encoded@.len() > RECORD_LIMIT ==> r == Err::<Vec<u8>, JournalError>(JournalError::RecordTooLarge),
        encoded@.len() <= RECORD_LIMIT ==> (r matches Ok(line) && line@ == encoded@.push(10u8)),
{
    if encoded.len() > RECORD_LIMIT {
        return Err(JournalError::RecordTooLarge);
    }
    let mut line = encoded;
    line.push(10u8);
    Ok(line)
}

/// The first line end in `data[from..to)`, if any.
pub open spec fn first_newline(data: Seq<u8>, from: int, to: int) -> Option<int>
    decreases to - from,
{
    if from >= to {
        None
    } else if data[from] == 10u8 {
        Some(from)
    } else {
        first_newline(data, from + 1, to)
    }
}

/// The next record line at or after `pos`, as the bounds of its content: a reader
/// takes at most the limit plus two bytes, up to and including a line end.
/// Empty lines are skipped; a longer line, or a last line without its end (an
/// interrupted write), is refused.
pub open spec fn spec_next_record(data: Seq<u8>, pos: int) -> Result<Option<(int, int)>, JournalError>
    decreases data.len() - pos,
{
    if pos >= data.len() {
        Ok(None)
    } else {
        let window = if data.len() - pos > RECORD_LIMIT + 2 { pos + RECORD_LIMIT + 2 } else { data.len() as int };
        match first_newline(data, pos, window) {
            Some(q) => if q - pos > RECORD_LIMIT {
                Err(JournalError::RecordTooLarge)
            } else if q == pos {
                spec_next_record(data, q + 1)
            } else {
                Ok(Some((pos, q)))
            },
            None => if window - pos > RECORD_LIMIT + 1 {
                Err(JournalError::RecordTooLarge)
            } else {
                Err(JournalError::InterruptedWrite)
            },
        }
    }
}

proof fn lemma_first_newline_bounds(data: Seq<u8>, from: int, to: int)
    ensures
        first_newline(data, from, to) matches Some(q) ==> from <= q < to && data[q] == 10u8 && forall|k: int| from <= k < q ==> data[k] != 10u8,
        first_newline(data, from, to) is None ==> forall|k: int| from <= k < to ==> data[k] != 10u8,
    decreases to - from,
{
    if from < to {
        lemma_first_newline_bounds(data, from + 1, to);
    }
}

proof fn lemma_first_newline_scan(data: Seq<u8>, from: int, mid: int, to: int)
    requires
        from <= mid <= to,
        forall|k: int| from <= k < mid ==> data[k] != 10u8,
    ensures
        first_newline(data, from, to) == first_newline(data, mid, to),
    decreases mid - from,
{
    if from < mid {
        lemma_first_newline_scan(data, from + 1, mid, to);
    }
}

/// Finds the next record line at or after `pos` in `data` (see [`spec_next_record`]):
/// the bounds of its content, or none at the end of the data.
pub fn next_record(data: &[u8], pos: usize) -> (r: Result<Option<(usize, usize)>, JournalError>)
    ensures
        match spec_next_record(data@, pos as int) {
            Ok(Some(x)) => r matches Ok(Some(y)) && y.0 == x.0 && y.1 == x.1,
            Ok(None) => r matches Ok(None),
            Err(e) => r == Err::<Option<(usize, usize)>, JournalError>(e),
        },
{
    let mut p = pos;
    loop
        invariant
            pos <= p,
            spec_next_record(data@, pos as int) == spec_next_record(data@, p as int),
        decreases data@.len() - p,
    {
        if p >= data.len() {
            return Ok(None);
        }
        let window = if data.len() - p > RECORD_LIMIT + 2 { p + RECORD_LIMIT + 2 } else { data.len() };
        let mut q = p;
        while q < window && data[q] != 10u8
            invariant
                p <= q <= window,
                window <= data@.len(),
                forall|k: int| p <= k < q ==> data@[k] != 10u8,
            decreases window - q,
        {
            q = q + 1;
        }
        proof {
            lemma_first_newline_scan(data@, p as int, q as int, window as int);
            lemma_first_newline_bounds(data@, q as int, window as int);
        }
        if q == window {
            if window - p > RECORD_LIMIT + 1 {
                return Err(JournalError::RecordTooLarge);
            }
            return Err(JournalError::InterruptedWrite);
        }
        if q - p > RECORD_LIMIT {
            return Err(JournalError::RecordTooLarge);
        }
        if q > p {
            return Ok(Some((p, q)));
        }
        p = q + 1;
    }
}

/// A read of a framed record gives back exactly that record: for an encoding
/// without line ends and within the limit, the first record line of its frame
/// spans the whole encoding.
pub proof fn law_framed_record_reads_back(encoded: Seq<u8>, rest: Seq<u8>)
    requires
        0 < encoded.len() <= RECORD_LIMIT,
        forall|k: int| 0 <= k < encoded.len() ==> encoded[k] != 10u8,
    ensures
        spec_next_record(encoded.push(10u8) + rest, 0) == Ok::<Option<(int, int)>, JournalError>(Some((0, encoded.len() as int))),
{
    let data = encoded.push(10u8) + rest;
    let n = encoded.len() as int;
    let window = if data.len() - 0 > RECORD_LIMIT + 2 { RECORD_LIMIT + 2 } else { data.len() as int };
    assert(data[n] == 10u8);
    assert forall|k: int| 0 <= k < n implies data[k] != 10u8 by {
        assert(data[k] == encoded[k]);
    }
    lemma_first_newline_scan(data, 0, n, window);
    assert(first_newline(data, n, window) == Some(n));
}

/// The file name of the output artifact of process `id`.
pub fn artifact_name(id: &str) -> (r: String)
    ensures
        r@ == "output-"@ + id@,
{
    let mut name = String::from_str("output-");
    name.append(id);
    name
}

/// An ASCII hexadecimal digit in either case.
pub open spec fn is_hex_digit(c: char) -> bool {
    ('0' <= c && c <= '9') || ('a' <= c && c <= 'f') || ('A' <= c && c <= 'F')
}

impl Journal {
    /// The file name of the existing output artifact of process `id`, which must be
    /// a 32-digit hexadecimal identity.
    pub fn existing_artifact(&self, id: &str) -> (r: Result<String, JournalError>)
        ensures
            (id@.len() == 32 && forall|k: int| 0 <= k < id@.len() ==> is_hex_digit(#[trigger] id@[k])) ==> (r matches Ok(name) && name@ == "output-"@ + id@),
            !(id@.len() == 32 && forall|k: int| 0 <= k < id@.len() ==> is_hex_digit(#[trigger] id@[k])) ==> r == Err::<String, JournalError>(JournalError::InvalidArtifact),
    {
        let v = crate::text::chars_of(id);
        if v.len() != 32 {
            return Err(JournalError::InvalidArtifact);
        }
        let mut i: usize = 0;
        while i < v.len()
            invariant
                v@ == id@,
                i <= v@.len(),
                forall|k: int| 0 <= k < i ==> is_hex_digit(#[trigger] v@[k]),
            decreases v@.len() - i,
        {
            let c = v[i];
            if !(('0' <= c && c <= '9') || ('a' <= c && c <= 'f') || ('A' <= c && c <= 'F')) {
                return Err(JournalError::InvalidArtifact);
            }
            i = i + 1;
        }
        Ok(artifact_name(id))
    }

    /// The file name of a new output artifact for process `id`.
    pub fn artifact(&self, id: &str) -> (r: String)
        ensures
            r@ == "output-"@ + id@,
    {
        artifact_name(id)
    }
}

/// Once an intent is recorded without a receipt, the same operation is never
/// executed again: its effect is uncertain.
pub proof fn law_intent_is_never_replayed(j: JournalView, key: Seq<char>, digest: Seq<char>)
    requires
        spec_intent(j, key, digest) matches Ok(IntentStepView::Record(_)),
    ensures
        spec_restore(j, spec_intent(j, key, digest)->Ok_0->Record_0) matches Ok(j2) && spec_intent(j2, key, digest) == Err::<IntentStepView, JournalError>(JournalError::UncertainEffect),
{
    let rec = spec_intent(j, key, digest)->Ok_0->Record_0;
    let j2 = spec_restore(j, rec)->Ok_0;
    assert(j2.entries.contains_key(key));
}

/// An operation whose receipt is recorded is answered with that same receipt when
/// it arrives again with the same request; it is not executed again.
pub proof fn law_recorded_receipt_is_replayed(j: JournalView, key: Seq<char>, digest: Seq<char>, receipt: ReceiptView, len: nat)
    requires
        j.entries.contains_key(key),
        j.entries[key].request == digest,
        spec_receipt(j, key, receipt, len) matches Ok(Some(_)),
    ensures
        spec_restore(j, spec_receipt(j, key, receipt, len)->Ok_0->Some_0) matches Ok(j2) && spec_intent(j2, key, digest) == Ok::<IntentStepView, JournalError>(IntentStepView::Replay(receipt)),
{
}

/// The same operation identity with altered arguments is refused.
pub proof fn law_altered_arguments_are_refused(j: JournalView, key: Seq<char>, digest: Seq<char>)
    requires
        j.entries.contains_key(key),
        j.entries[key].request != digest,
    ensures
        spec_intent(j, key, digest) == Err::<IntentStepView, JournalError>(JournalError::AlteredArguments),
{
}

/// A recorded receipt is immutable: recording it again writes nothing, and
/// recording a different one is refused.
pub proof fn law_receipts_are_immutable(j: JournalView, key: Seq<char>, receipt: ReceiptView, other: ReceiptView, len: nat, other_len: nat)
    requires
        spec_receipt(j, key, receipt, len) matches Ok(Some(_)),
        other_len <= RECEIPT_LIMIT,
    ensures
        spec_restore(j, spec_receipt(j, key, receipt, len)->Ok_0->Some_0) matches Ok(j2) && spec_receipt(j2, key, other, other_len) == if other == receipt {
            Ok::<Option<RecordView>, JournalError>(None)
        } else {
            Err::<Option<RecordView>, JournalError>(JournalError::ReceiptConflict)
        },
{
}

/// A restart by another process with an epoch no higher than the recorded one is
/// refused.
pub proof fn law_restart_requires_new_epoch(j: JournalView, previous: BindingView, previous_instance: Seq<char>, teardown_verified: bool)
    requires
        !(previous == j.binding && previous_instance == j.instance),
        previous.owner_epoch >= j.binding.owner_epoch,
    ensures
        restart_allowed(j, previous, previous_instance, teardown_verified) == Err::<(), JournalError>(JournalError::RestartNeedsNewEpoch),
{
}

/// A restart is refused while any recorded operation has an uncertain effect.
pub proof fn law_restart_refused_with_uncertain_effects(j: JournalView, previous: BindingView, previous_instance: Seq<char>, teardown_verified: bool)
    requires
        !(previous == j.binding && previous_instance == j.instance),
        spec_uncertain(j),
    ensures
        restart_allowed(j, previous, previous_instance, teardown_verified) is Err,
{
}


/// A restart by another process needs proof that the old one is gone: without a
/// recorded clean shutdown and without a verified teardown it is refused as
/// unproven, whatever the authority and effects.
pub proof fn law_restart_needs_cleanup_proof(j: JournalView, previous: BindingView, previous_instance: Seq<char>)
    requires
        !(previous == j.binding && previous_instance == j.instance),
        previous.owner_epoch < j.binding.owner_epoch,
        !j.clean,
    ensures
        restart_allowed(j, previous, previous_instance, false) == Err::<(), JournalError>(JournalError::RestartUnproven),
{
}

/// Every admitted restart by another process comes with a higher epoch, no
/// uncertain effect, and a recorded clean shutdown or a verified teardown.
pub proof fn law_admitted_restart_is_proven(j: JournalView, previous: BindingView, previous_instance: Seq<char>, teardown_verified: bool)
    requires
        !(previous == j.binding && previous_instance == j.instance),
        restart_allowed(j, previous, previous_instance, teardown_verified) is Ok,
    ensures
        previous.owner_epoch < j.binding.owner_epoch,
        j.clean || teardown_verified,
        !spec_uncertain(j),
{
}

} // verus!
