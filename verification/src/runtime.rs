//! The executor's lifecycle decisions: when a run is over, which pages the channel
//! serves, how operations are checked and answered, and how a run is settled.
use vstd::prelude::*;
use vstd::string::StringSliceAdditionalSpecFns;
use vstd::utf8::encode_utf8;
use crate::api::{AttachmentStatus, IssuedOperation, ObservationStatus, OperationCapability,
    OperationView, PageTransport, ProcessObservation, WorkPage};
use crate::deps::{json_string, json_string_of, sha256_hex, sha256_hex_of};
use crate::journal::{Binding, EntryView, Journal, Receipt, ReceiptCapability, ReceiptStatus};
use crate::pairs::{find_key, keys_distinct, lemma_pairs_map_contains, lemma_pairs_map_index, pairs_map};
use crate::text::{append_text, bytes_copy, lemma_text_lt_total, lemma_text_lt_transitive, text_before, text_equal, text_lt};
use crate::transport::{channel_backoff, channel_backoff_base};

verus! {

/// Why the executor refused to go on.
#[derive(Debug, Clone, Copy, PartialEq, Eq, Structural)]
pub enum RuntimeError {
    /// An operation names another owner epoch or workspace generation.
    StaleAuthority,
    /// An operation is not a compute operation or lacks its identity.
    InvalidIdentity,
    /// An issued operation's request no longer matches its recorded receipt.
    IdentityChanged,
    /// Effects are uncertain or process ownership was lost.
    RecoveryRequired,
}

impl RuntimeError {
    /// The operator-facing message of this refusal.
    pub fn message(&self) -> (r: &'static str)
        ensures
            *self == RuntimeError::StaleAuthority ==> r@ == "stale operation authority"@,
            *self == RuntimeError::InvalidIdentity ==> r@ == "invalid admitted operation identity"@,
            *self == RuntimeError::IdentityChanged ==> r@ == "issued operation identity changed"@,
            *self == RuntimeError::RecoveryRequired ==> r@
                == "recovery_required: uncertain effects or lost process ownership"@,
    {
        match self {
            RuntimeError::StaleAuthority => "stale operation authority",
            RuntimeError::InvalidIdentity => "invalid admitted operation identity",
            RuntimeError::IdentityChanged => "issued operation identity changed",
            RuntimeError::RecoveryRequired =>
                "recovery_required: uncertain effects or lost process ownership",
        }
    }
}

/// How a page ends the run.
#[derive(Debug, Clone, Copy, PartialEq, Eq, Structural)]
pub enum Completion {
    /// The attachment is stopping.
    Cancelled,
    /// The hosted side requires recovery.
    RecoveryRequired,
    /// The run waits for an approval.
    ApprovalRequired,
    /// The run ended; its own status is the result's.
    Terminal,
}

/// How `page` ends the run, if it does: a stopping or recovering attachment
/// first, then a run awaiting approval, then a terminal run.
pub open spec fn spec_completion(page: &WorkPage) -> Option<Completion> {
    if page.attachment.status == AttachmentStatus::Stopping {
        Some(Completion::Cancelled)
    } else if page.attachment.status == AttachmentStatus::RecoveryRequired {
        Some(Completion::RecoveryRequired)
    } else {
        match page.execution {
            None => None,
            Some(e) => if e.approval_required {
                Some(Completion::ApprovalRequired)
            } else if e.terminal {
                Some(Completion::Terminal)
            } else {
                None
            },
        }
    }
}

/// How `page` ends the run, if it does.
pub fn completion(page: &WorkPage) -> (r: Option<Completion>)
    ensures
        r == spec_completion(page),
{
    match page.attachment.status {
        AttachmentStatus::Stopping => return Some(Completion::Cancelled),
        AttachmentStatus::RecoveryRequired => return Some(Completion::RecoveryRequired),
        _ => {},
    }
    match &page.execution {
        None => None,
        Some(e) => if e.approval_required {
            Some(Completion::ApprovalRequired)
        } else if e.terminal {
            Some(Completion::Terminal)
        } else {
            None
        },
    }
}

/// How `page` ends the run once the approval wait is over. An approval starts a
/// wait of `wait_ms` from `now_ms` the first time it is seen; it ends the run only
/// when that wait has passed. Every other completion ends it at once.
pub fn completion_after_wait(page: &WorkPage, wait_ms: u64, now_ms: u64, deadline: &mut Option<u64>) -> (r: Option<Completion>)
    requires
        now_ms + wait_ms <= u64::MAX,
    ensures
        match spec_completion(page) {
            None => r is None && *final(deadline) == *old(deadline),
            Some(Completion::ApprovalRequired) => {
                let end = match *old(deadline) {
                    Some(d) => d,
                    None => (now_ms + wait_ms) as u64,
                };
                &&& *final(deadline) == Some(end)
                &&& r == (if now_ms >= end { Some(Completion::ApprovalRequired) } else { None })
            },
            Some(c) => r == Some(c) && *final(deadline) == *old(deadline),
        },
{
    let result = match completion(page) {
        None => return None,
        Some(c) => c,
    };
    if result != Completion::ApprovalRequired {
        return Some(result);
    }
    let end = match *deadline {
        Some(d) => d,
        None => now_ms + wait_ms,
    };
    *deadline = Some(end);
    if now_ms >= end {
        Some(result)
    } else {
        None
    }
}

/// A page the channel serves: a running turn with nothing but operations.
/// Checkpoints, approvals, and terminal or stopping states go by the HTTP route.
pub open spec fn spec_channel_page(page: &WorkPage) -> bool {
    page.transport == Some(PageTransport::Channel) && page.workspace_checkpoint is None
        && spec_completion(page) is None
}

/// Whether the channel serves `page`.
pub fn channel_page(page: &WorkPage) -> (r: bool)
    ensures
        r == spec_channel_page(page),
{
    let channel = match page.transport {
        Some(PageTransport::Channel) => true,
        _ => false,
    };
    channel && page.workspace_checkpoint.is_none() && completion(page).is_none()
}

/// Consecutive channel failures after which a run stays on polling.
pub const CHANNEL_ATTEMPTS: u32 = 3;

/// One channel event's effect on the failures in a row and whether the channel
/// was given up: a failure counts, and the third in a row gives the channel up;
/// a page that arrived over the channel starts the count afresh.
pub open spec fn link_step(s: (int, bool), failed: bool) -> (int, bool) {
    if failed {
        (s.0 + 1, s.1 || s.0 + 1 >= CHANNEL_ATTEMPTS)
    } else {
        (0, s.1)
    }
}

/// The state after the channel events `events`, in order, starting from `s`;
/// `true` is a failure, `false` a page that arrived.
pub open spec fn link_after(s: (int, bool), events: Seq<bool>) -> (int, bool)
    decreases events.len(),
{
    if events.len() == 0 {
        s
    } else {
        link_after(link_step(s, events[0]), events.skip(1))
    }
}

proof fn lemma_link_after_concat(s: (int, bool), a: Seq<bool>, b: Seq<bool>)
    ensures
        link_after(s, a + b) == link_after(link_after(s, a), b),
    decreases a.len(),
{
    if a.len() > 0 {
        assert((a + b).skip(1) =~= a.skip(1) + b);
        assert((a + b)[0] == a[0]);
        lemma_link_after_concat(link_step(s, a[0]), a.skip(1), b);
    } else {
        assert(a + b =~= b);
    }
}

proof fn lemma_link_stays_given_up(s: (int, bool), events: Seq<bool>)
    requires
        s.1,
    ensures
        link_after(s, events).1,
    decreases events.len(),
{
    if events.len() > 0 {
        lemma_link_stays_given_up(link_step(s, events[0]), events.skip(1));
    }
}

/// Once the channel failed three times in a row it stays given up: from any state
/// with a nonnegative count, after any events, three failures in a row, and any
/// events after them, the channel is given up, so [`ChannelLink::admits`] admits
/// no page ever after.
pub proof fn law_channel_stays_given_up(s: (int, bool), before: Seq<bool>, after: Seq<bool>)
    requires
        s.0 >= 0,
    ensures
        link_after(s, before + seq![true, true, true] + after).1,
        forall|page: WorkPage| !(!link_after(s, before + seq![true, true, true] + after).1 && #[trigger] spec_channel_page(&page)),
{
    let three = seq![true, true, true];
    lemma_link_after_concat(s, before + three, after);
    lemma_link_after_concat(s, before, three);
    let m = link_after(s, before);
    assert(m.0 >= 0) by {
        lemma_link_count_nonnegative(s, before);
    }
    reveal_with_fuel(link_after, 4);
    assert(three.skip(1) =~= seq![true, true]);
    assert(three.skip(1).skip(1) =~= seq![true]);
    assert(three.skip(1).skip(1).skip(1) =~= Seq::<bool>::empty());
    assert(link_after(m, three).1);
    lemma_link_stays_given_up(link_after(m, three), after);
}

proof fn lemma_link_count_nonnegative(s: (int, bool), events: Seq<bool>)
    requires
        s.0 >= 0,
    ensures
        link_after(s, events).0 >= 0,
    decreases events.len(),
{
    if events.len() > 0 {
        lemma_link_count_nonnegative(link_step(s, events[0]), events.skip(1));
    }
}

/// How many failures end `events`, in a row.
pub open spec fn trailing_failures(events: Seq<bool>) -> int
    decreases events.len(),
{
    if events.len() == 0 || !events.last() {
        0
    } else {
        1 + trailing_failures(events.drop_last())
    }
}

/// Three failures in a row occur somewhere in `events`.
pub open spec fn three_failures(events: Seq<bool>) -> bool {
    exists|i: int| 0 <= i && i + 2 < events.len() && #[trigger] events[i] && events[i + 1] && events[i + 2]
}

proof fn lemma_link_after_push(s: (int, bool), events: Seq<bool>, e: bool)
    ensures
        link_after(s, events.push(e)) == link_step(link_after(s, events), e),
{
    lemma_link_after_concat(s, events, seq![e]);
    assert(events.push(e) =~= events + seq![e]);
    let m = link_after(s, events);
    assert(seq![e].skip(1) =~= Seq::<bool>::empty());
    assert(link_after(m, seq![e]) == link_after(link_step(m, e), seq![e].skip(1)));
}

/// From a fresh link, the state after `events` counts the failures that end
/// them, and the channel is given up exactly when three failures in a row occur.
proof fn lemma_link_from_start(events: Seq<bool>)
    ensures
        link_after((0, false), events) == (trailing_failures(events), three_failures(events)),
    decreases events.len(),
{
    if events.len() == 0 {
        assert(!three_failures(events));
    } else {
        let t = events.drop_last();
        let e = events.last();
        assert(events == t.push(e));
        lemma_link_from_start(t);
        lemma_link_after_push((0, false), t, e);
        if e {
            if three_failures(events) && !three_failures(t) {
                let i = choose|i: int| 0 <= i && i + 2 < events.len() && #[trigger] events[i] && events[i + 1] && events[i + 2];
                if i + 2 < t.len() {
                    assert(t[i] && t[i + 1] && t[i + 2]);
                }
                assert(i + 2 == t.len());
                assert(t.last() && t.drop_last().last());
                assert(trailing_failures(t) >= 2) by {
                    reveal_with_fuel(trailing_failures, 3);
                    lemma_trailing_nonnegative(t.drop_last().drop_last());
                }
            }
            if trailing_failures(t) >= 2 {
                reveal_with_fuel(trailing_failures, 3);
                assert(t.len() >= 2 && t.last() && t.drop_last().last());
                let i = t.len() - 2;
                assert(events[i] && events[i + 1] && events[i + 2]);
            }
            if three_failures(t) {
                let i = choose|i: int| 0 <= i && i + 2 < t.len() && #[trigger] t[i] && t[i + 1] && t[i + 2];
                assert(events[i] && events[i + 1] && events[i + 2]);
            }
        } else {
            if three_failures(events) {
                let i = choose|i: int| 0 <= i && i + 2 < events.len() && #[trigger] events[i] && events[i + 1] && events[i + 2];
                assert(i + 2 < t.len());
                assert(t[i] && t[i + 1] && t[i + 2]);
            }
            if three_failures(t) {
                let i = choose|i: int| 0 <= i && i + 2 < t.len() && #[trigger] t[i] && t[i + 1] && t[i + 2];
                assert(events[i] && events[i + 1] && events[i + 2]);
            }
        }
    }
}

proof fn lemma_trailing_nonnegative(events: Seq<bool>)
    ensures
        trailing_failures(events) >= 0,
    decreases events.len(),
{
    if events.len() > 0 {
        lemma_trailing_nonnegative(events.drop_last());
    }
}

/// A channel link admits pages exactly until three failures in a row: from a
/// fresh link, after any channel events it admits exactly the pages the channel
/// serves while no three failures in a row occurred, and none ever after.
pub proof fn law_channel_admits_until_three_failures(events: Seq<bool>, page: WorkPage)
    ensures
        link_after((0, false), events).1 == three_failures(events),
        (!link_after((0, false), events).1 && spec_channel_page(&page)) == (!three_failures(events)
            && spec_channel_page(&page)),
{
    lemma_link_from_start(events);
}

/// The channel attempts of one run.
pub struct ChannelLink {
    pub failures: u32,
    pub exhausted: bool,
    /// The channel events so far: `true` for a failure, `false` for a page that arrived.
    pub history: Ghost<Seq<bool>>,
}

impl ChannelLink {
    /// The failure count and the given-up flag are what the recorded events give
    /// from a fresh link.
    pub open spec fn wf(&self) -> bool {
        (self.failures as int, self.exhausted) == link_after((0, false), self.history@)
    }

    /// A run that has not tried the channel yet.
    pub fn new() -> (r: ChannelLink)
        ensures
            r.failures == 0,
            !r.exhausted,
            r.history@ == Seq::<bool>::empty(),
            r.wf(),
    {
        ChannelLink { failures: 0, exhausted: false, history: Ghost(Seq::empty()) }
    }

    /// Whether `page` goes over the channel: the channel is not given up and serves
    /// it. For a link built by these methods, that is: no three failures in a row
    /// ever occurred, and the channel serves the page.
    pub fn admits(&self, page: &WorkPage) -> (r: bool)
        ensures
            r == (!self.exhausted && spec_channel_page(page)),
            self.wf() ==> r == (!three_failures(self.history@) && spec_channel_page(page)),
    {
        proof {
            lemma_link_from_start(self.history@);
        }
        !self.exhausted && channel_page(page)
    }

    /// A page arrived over the channel: failures start counting afresh.
    pub fn progressed(&mut self)
        ensures
            final(self).failures == 0,
            final(self).exhausted == old(self).exhausted,
            (final(self).failures as int, final(self).exhausted) == link_step((old(self).failures as int, old(self).exhausted), false),
            final(self).history@ == old(self).history@.push(false),
            old(self).wf() ==> final(self).wf(),
    {
        proof {
            lemma_link_after_push((0, false), self.history@, false);
        }
        self.failures = 0;
        self.history = Ghost(self.history@.push(false));
    }

    /// Counts a channel failure. At the third in a row the run gives the channel
    /// up and `None` is returned; otherwise the reconnect delay in milliseconds.
    pub fn retry_later(&mut self) -> (r: Option<u64>)
        requires
            old(self).failures < u32::MAX,
        ensures
            final(self).failures == old(self).failures + 1,
            final(self).failures >= CHANNEL_ATTEMPTS ==> r is None && final(self).exhausted,
            final(self).failures < CHANNEL_ATTEMPTS ==> final(self).exhausted == old(self).exhausted
                && (r matches Some(d) && channel_backoff_base(final(self).failures) / 2 <= d
                <= channel_backoff_base(final(self).failures) / 2 + channel_backoff_base(
                final(self).failures,
            ) && exists|draw: u64| d == channel_backoff_base(final(self).failures) / 2
                + #[trigger] ((draw as int) % (channel_backoff_base(final(self).failures) + 1))),
            (final(self).failures as int, final(self).exhausted) == link_step((old(self).failures as int, old(self).exhausted), true),
            final(self).history@ == old(self).history@.push(true),
            old(self).wf() ==> final(self).wf(),
    {
        proof {
            lemma_link_after_push((0, false), self.history@, true);
        }
        self.history = Ghost(self.history@.push(true));
        self.failures = self.failures + 1;
        if self.failures >= CHANNEL_ATTEMPTS {
            self.exhausted = true;
            return None;
        }
        Some(channel_backoff(self.failures))
    }
}

/// The idle pause a page without operations asks for, in seconds: the page's
/// hint, one second without one, kept between one and five.
pub open spec fn spec_poll_delay(hint: Option<i64>) -> u64 {
    let s = match hint {
        Some(n) => n,
        None => 1,
    };
    if s < 1 {
        1
    } else if s > 5 {
        5
    } else {
        s as u64
    }
}

/// The idle pause, in seconds, that a page's poll hint asks for: one second
/// without a hint, kept between one and five.
pub fn poll_delay(hint: Option<i64>) -> (r: u64)
    ensures
        r == spec_poll_delay(hint),
{
    let s: i64 = match hint {
        Some(n) => n,
        None => 1,
    };
    if s < 1 {
        1
    } else if s > 5 {
        5
    } else {
        s as u64
    }
}

/// How long to idle after `page`, when it has no operations: the pause in seconds,
/// and the approval deadline that may end it early while the run awaits approval.
pub fn idle_plan(page: &WorkPage, approval_deadline: Option<u64>) -> (r: Option<(u64, Option<u64>)>)
    ensures
        page.operations@.len() > 0 ==> r is None,
        page.operations@.len() == 0 ==> r == Some((
            spec_poll_delay(page.poll_after_seconds),
            if page.execution matches Some(e) && e.approval_required {
                approval_deadline
            } else {
                None
            },
        )),
{
    if page.operations.len() > 0 {
        return None;
    }
    let delay = poll_delay(page.poll_after_seconds);
    let waiting = match &page.execution {
        Some(e) => e.approval_required,
        None => false,
    };
    Some((delay, if waiting { approval_deadline } else { None }))
}

/// When an idle pause of `delay_ms` begun at `now_ms` ends: at its end, or at the
/// approval deadline if that comes first.
pub fn idle_wake(now_ms: u64, delay_ms: u64, approval_deadline: Option<u64>) -> (r: u64)
    requires
        now_ms + delay_ms <= u64::MAX,
    ensures
        r == match approval_deadline {
            Some(d) => if d < now_ms + delay_ms { d } else { (now_ms + delay_ms) as u64 },
            None => (now_ms + delay_ms) as u64,
        },
{
    let wake = now_ms + delay_ms;
    match approval_deadline {
        Some(d) => if d < wake { d } else { wake },
        None => wake,
    }
}

/// An operation's authority and identity: this binding's epoch and generation, a
/// compute operation, and a request digest, run and tool call.
pub open spec fn spec_validate_operation(op: &OperationView, b: &Binding) -> Result<(), RuntimeError> {
    if op.owner_epoch != b.owner_epoch || op.workspace_generation@ != b.workspace_generation@ {
        Err(RuntimeError::StaleAuthority)
    } else if op.capability_name != OperationCapability::ComputeExecute || op.request_digest@.len() == 0
        || op.run_id@.len() == 0 || op.tool_call_id@.len() == 0 {
        Err(RuntimeError::InvalidIdentity)
    } else {
        Ok(())
    }
}

/// Checks that `op` was issued to this binding's authority with a complete identity.
pub fn validate_operation(op: &OperationView, b: &Binding) -> (r: Result<(), RuntimeError>)
    ensures
        r == spec_validate_operation(op, b),
{
    if op.owner_epoch != b.owner_epoch || op.workspace_generation != b.workspace_generation {
        return Err(RuntimeError::StaleAuthority);
    }
    if op.capability_name != OperationCapability::ComputeExecute || op.request_digest.as_str().is_empty()
        || op.run_id.as_str().is_empty() || op.tool_call_id.as_str().is_empty() {
        return Err(RuntimeError::InvalidIdentity);
    }
    Ok(())
}

/// An operation is admitted only under this binding's authority: an admitted
/// operation has the binding's owner epoch and workspace generation, is a compute
/// operation, and names its request digest, run and tool call; one issued for
/// another generation or epoch is refused as stale, whatever else it holds.
pub proof fn law_operations_run_only_under_current_authority(op: OperationView, b: Binding)
    ensures
        spec_validate_operation(&op, &b) is Ok ==> {
            &&& op.owner_epoch == b.owner_epoch
            &&& op.workspace_generation@ == b.workspace_generation@
            &&& op.capability_name == OperationCapability::ComputeExecute
            &&& op.request_digest@.len() > 0 && op.run_id@.len() > 0 && op.tool_call_id@.len() > 0
        },
        op.workspace_generation@ != b.workspace_generation@ ==> spec_validate_operation(&op, &b) == Err::<
            (),
            RuntimeError,
        >(RuntimeError::StaleAuthority),
        op.owner_epoch != b.owner_epoch ==> spec_validate_operation(&op, &b) == Err::<(), RuntimeError>(
            RuntimeError::StaleAuthority,
        ),
{
}

/// The ledger key of a tool call in a run.
pub open spec fn op_key(run_id: Seq<char>, tool_call_id: Seq<char>) -> Seq<char> {
    run_id + seq!['/'] + tool_call_id
}

/// The ledger key of a tool call in a run: `run_id/tool_call_id`.
pub fn operation_key(run_id: &str, tool_call_id: &str) -> (r: String)
    ensures
        r@ == op_key(run_id@, tool_call_id@),
{
    let mut key = String::new();
    append_text(&mut key, run_id);
    key.push('/');
    append_text(&mut key, tool_call_id);
    key
}

/// The tool calls among the first `n` issued operations whose effect the ledger
/// cannot prove, in order; an error when a recorded receipt answers another request.
pub open spec fn spec_uncertain_prefix(issued: Seq<IssuedOperation>, entries: Map<Seq<char>, EntryView>, n: int) -> Result<
    Seq<Seq<char>>,
    RuntimeError,
>
    decreases n,
{
    if n <= 0 {
        Ok(Seq::empty())
    } else {
        match spec_uncertain_prefix(issued, entries, n - 1) {
            Err(e) => Err(e),
            Ok(u) => {
                let op = issued[n - 1];
                let key = op_key(op.run_id@, op.tool_call_id@);
                if entries.contains_key(key) && entries[key].receipt is Some {
                    if entries[key].receipt->0.request_digest == op.request_digest@ {
                        Ok(u)
                    } else {
                        Err(RuntimeError::IdentityChanged)
                    }
                } else {
                    Ok(u.push(op.tool_call_id@))
                }
            },
        }
    }
}

proof fn lemma_uncertain_error_persists(issued: Seq<IssuedOperation>, entries: Map<Seq<char>, EntryView>, i: int, n: int)
    requires
        0 <= i <= n,
        spec_uncertain_prefix(issued, entries, i) is Err,
    ensures
        spec_uncertain_prefix(issued, entries, n) == spec_uncertain_prefix(issued, entries, i),
    decreases n - i,
{
    if n > i {
        lemma_uncertain_error_persists(issued, entries, i, n - 1);
    }
}

/// The tool calls of `page`'s issued operations that the ledger has no receipt for,
/// in page order; an error when a receipt answers a request other than the one issued.
pub fn uncertain_operations(page: &WorkPage, journal: &Journal) -> (r: Result<Vec<String>, RuntimeError>)
    requires
        journal.wf(),
    ensures
        match spec_uncertain_prefix(page.issued_operations@, journal@.entries, page.issued_operations@.len() as int) {
            Ok(u) => r matches Ok(v) && v@.map_values(|s: String| s@) == u,
            Err(e) => r == Err::<Vec<String>, RuntimeError>(e),
        },
{
    let issued = &page.issued_operations;
    let mut uncertain: Vec<String> = Vec::new();
    let mut i: usize = 0;
    assert(uncertain@.map_values(|s: String| s@) =~= Seq::<Seq<char>>::empty());
    while i < issued.len()
        invariant
            journal.wf(),
            issued@ == page.issued_operations@,
            i <= issued@.len(),
            spec_uncertain_prefix(issued@, journal@.entries, i as int) == Ok::<Seq<Seq<char>>, RuntimeError>(
                uncertain@.map_values(|s: String| s@),
            ),
        decreases issued@.len() - i,
    {
        let op = &issued[i];
        let key = operation_key(op.run_id.as_str(), op.tool_call_id.as_str());
        let found = find_key(&journal.entries, key.as_str());
        let recorded = match found {
            Some(k) => {
                proof { lemma_pairs_map_index(journal.entries@, k as int); }
                match &journal.entries[k].1.receipt {
                    Some(receipt) => Some(receipt.request_digest == op.request_digest),
                    None => None,
                }
            },
            None => {
                proof { lemma_pairs_map_contains(journal.entries@, key@); }
                None
            },
        };
        match recorded {
            Some(true) => {},
            Some(false) => {
                proof {
                    assert(spec_uncertain_prefix(issued@, journal@.entries, i + 1) == Err::<Seq<Seq<char>>, RuntimeError>(RuntimeError::IdentityChanged));
                    lemma_uncertain_error_persists(issued@, journal@.entries, i + 1, issued@.len() as int);
                }
                return Err(RuntimeError::IdentityChanged);
            },
            None => {
                uncertain.push(op.tool_call_id.clone());
            },
        }
        proof {
            assert(uncertain@.map_values(|s: String| s@) =~= spec_uncertain_prefix(issued@, journal@.entries, i + 1)->Ok_0);
        }
        i = i + 1;
    }
    Ok(uncertain)
}

/// The unacknowledged receipts of `entries`, with their keys, in ledger order.
pub open spec fn spec_pending(entries: Seq<(String, crate::journal::Entry)>) -> Seq<(Seq<char>, crate::journal::ReceiptView)>
    decreases entries.len(),
{
    if entries.len() == 0 {
        Seq::empty()
    } else {
        let prev = spec_pending(entries.drop_last());
        let (k, e) = entries.last();
        match e.receipt {
            Some(r) => if !e.acknowledged {
                prev.push((k@, r@))
            } else {
                prev
            },
            None => prev,
        }
    }
}

/// The keys and receipts of `r`.
pub open spec fn pending_views(r: Seq<(String, Receipt)>) -> Seq<(Seq<char>, crate::journal::ReceiptView)> {
    r.map_values(|p: (String, Receipt)| (p.0@, p.1@))
}

/// Keys in strictly increasing order.
pub open spec fn in_key_order(s: Seq<(Seq<char>, crate::journal::ReceiptView)>) -> bool {
    forall|i: int, j: int| 0 <= i < j < s.len() ==> text_lt(s[i].0, s[j].0)
}

/// `x` is one of `s`.
pub open spec fn held(s: Seq<(Seq<char>, crate::journal::ReceiptView)>, x: (Seq<char>, crate::journal::ReceiptView)) -> bool {
    exists|j: int| 0 <= j < s.len() && s[j] == x
}

/// Both sequences hold the same pairs.
pub open spec fn same_pairs(a: Seq<(Seq<char>, crate::journal::ReceiptView)>, b: Seq<(Seq<char>, crate::journal::ReceiptView)>) -> bool {
    &&& forall|i: int| 0 <= i < a.len() ==> held(b, #[trigger] a[i])
    &&& forall|j: int| 0 <= j < b.len() ==> held(a, #[trigger] b[j])
}

/// Some entry of `s` has key `k`.
pub open spec fn keyed(s: Seq<(String, crate::journal::Entry)>, k: Seq<char>) -> bool {
    exists|i: int| 0 <= i < s.len() && (#[trigger] s[i]).0@ == k
}

proof fn lemma_pending_keys(s: Seq<(String, crate::journal::Entry)>)
    requires
        keys_distinct(s),
    ensures
        forall|a: int| 0 <= a < spec_pending(s).len() ==> keyed(s, #[trigger] spec_pending(s)[a].0),
        forall|a: int, b: int| 0 <= a < b < spec_pending(s).len() ==> spec_pending(s)[a].0 != spec_pending(s)[b].0,
    decreases s.len(),
{
    if s.len() > 0 {
        let t = s.drop_last();
        assert forall|i: int, j: int| 0 <= i < t.len() && 0 <= j < t.len() && i != j implies t[i].0@ != t[j].0@ by {
            assert(t[i] == s[i] && t[j] == s[j]);
        }
        lemma_pending_keys(t);
        let pt = spec_pending(t);
        let ps = spec_pending(s);
        assert forall|a: int| 0 <= a < pt.len() implies keyed(s, #[trigger] pt[a].0) by {
            assert(keyed(t, pt[a].0));
            let i = choose|i: int| 0 <= i < t.len() && (#[trigger] t[i]).0@ == pt[a].0;
            assert(s[i] == t[i]);
        }
        assert forall|a: int| 0 <= a < pt.len() implies pt[a].0 != s.last().0@ by {
            assert(keyed(t, pt[a].0));
            let i = choose|i: int| 0 <= i < t.len() && (#[trigger] t[i]).0@ == pt[a].0;
            assert(s[i] == t[i]);
            assert(s[i].0@ != s[s.len() - 1].0@);
        }
        if ps.len() > pt.len() {
            assert(ps == pt.push((s.last().0@, s.last().1.receipt->0@)));
            assert(keyed(s, ps[ps.len() - 1].0)) by {
                assert(s[s.len() - 1].0@ == ps[ps.len() - 1].0);
            }
            assert forall|a: int| 0 <= a < ps.len() implies keyed(s, #[trigger] ps[a].0) by {
                if a < pt.len() {
                    assert(ps[a] == pt[a]);
                }
            }
            assert forall|a: int, b: int| 0 <= a < b < ps.len() implies ps[a].0 != ps[b].0 by {
                assert(ps[a] == pt[a]);
                if b < pt.len() {
                    assert(ps[b] == pt[b]);
                }
            }
        } else {
            assert(ps == pt);
        }
    }
}

proof fn lemma_insert_pair(
    before: Seq<(Seq<char>, crate::journal::ReceiptView)>,
    x: (Seq<char>, crate::journal::ReceiptView),
    p: int,
)
    requires
        0 <= p <= before.len(),
        in_key_order(before),
        forall|j: int| 0 <= j < before.len() ==> (#[trigger] before[j]).0 != x.0,
        forall|k: int| 0 <= k < p ==> text_lt(#[trigger] before[k].0, x.0),
        p < before.len() ==> !text_lt(before[p].0, x.0),
    ensures
        in_key_order(before.insert(p, x)),
{
    assert forall|k: int| p <= k < before.len() implies text_lt(x.0, #[trigger] before[k].0) by {
        assert(before[p].0 != x.0);
        lemma_text_lt_total(x.0, before[p].0);
        if k > p {
            lemma_text_lt_transitive(x.0, before[p].0, before[k].0);
        }
    }
    let after = before.insert(p, x);
    assert forall|a: int, b: int| 0 <= a < b < after.len() implies text_lt(after[a].0, after[b].0) by {
        if b < p {
            assert(after[a] == before[a] && after[b] == before[b]);
        } else if b == p {
            assert(after[a] == before[a]);
        } else if a < p {
            assert(after[a] == before[a] && after[b] == before[b - 1]);
            lemma_text_lt_transitive(before[a].0, x.0, before[b - 1].0);
        } else if a == p {
            assert(after[b] == before[b - 1]);
        } else {
            assert(after[a] == before[a - 1] && after[b] == before[b - 1]);
        }
    }
}

proof fn lemma_insert_same_pairs(
    before: Seq<(Seq<char>, crate::journal::ReceiptView)>,
    x: (Seq<char>, crate::journal::ReceiptView),
    p: int,
    prior: Seq<(Seq<char>, crate::journal::ReceiptView)>,
)
    requires
        0 <= p <= before.len(),
        same_pairs(before, prior),
    ensures
        same_pairs(before.insert(p, x), prior.push(x)),
{
    let after = before.insert(p, x);
    let target = prior.push(x);
    assert forall|a: int| 0 <= a < after.len() implies held(target, #[trigger] after[a]) by {
        if a < p {
            assert(held(prior, before[a]));
            let j = choose|j: int| 0 <= j < prior.len() && prior[j] == before[a];
            assert(after[a] == before[a] && target[j] == prior[j]);
        } else if a == p {
            assert(after[a] == target[prior.len() as int]);
        } else {
            assert(held(prior, before[a - 1]));
            let j = choose|j: int| 0 <= j < prior.len() && prior[j] == before[a - 1];
            assert(after[a] == before[a - 1] && target[j] == prior[j]);
        }
    }
    assert forall|j: int| 0 <= j < target.len() implies held(after, #[trigger] target[j]) by {
        if j == prior.len() {
            assert(after[p] == target[j]);
        } else {
            assert(held(before, prior[j]));
            let a = choose|a: int| 0 <= a < before.len() && before[a] == prior[j];
            assert(target[j] == prior[j]);
            if a < p {
                assert(after[a] == before[a]);
            } else {
                assert(after[a + 1] == before[a]);
            }
        }
    }
}

/// Inserts `x` into `out`, kept in increasing key order, where no pair has its key.
fn insert_by_key(out: &mut Vec<(String, Receipt)>, x: (String, Receipt)) -> (p: usize)
    requires
        in_key_order(pending_views(old(out)@)),
        forall|k: int| 0 <= k < old(out)@.len() ==> (#[trigger] old(out)@[k]).0@ != x.0@,
    ensures
        p <= old(out)@.len(),
        pending_views(final(out)@) == pending_views(old(out)@).insert(p as int, (x.0@, x.1@)),
        in_key_order(pending_views(final(out)@)),
{
    let ghost before = pending_views(out@);
    let mut p: usize = 0;
    while p < out.len() && text_before(out[p].0.as_str(), x.0.as_str())
        invariant
            p <= out@.len(),
            before == pending_views(out@),
            forall|k: int| 0 <= k < p ==> text_lt(#[trigger] before[k].0, x.0@),
        decreases out@.len() - p,
    {
        assert(before[p as int] == (out@[p as int].0@, out@[p as int].1@));
        p = p + 1;
    }
    let ghost xv = (x.0@, x.1@);
    proof {
        if p < out@.len() {
            assert(before[p as int] == (out@[p as int].0@, out@[p as int].1@));
        }
        assert forall|j: int| 0 <= j < before.len() implies (#[trigger] before[j]).0 != xv.0 by {
            assert(before[j] == (out@[j].0@, out@[j].1@));
        }
        lemma_insert_pair(before, xv, p as int);
    }
    let ghost old_out = out@;
    out.insert(p, x);
    proof {
        assert(out@ == old_out.insert(p as int, x));
        assert(pending_views(out@) =~= before.insert(p as int, xv));
    }
    p
}

/// The receipts the hosted side has not acknowledged, to replay before new work,
/// in key order: exactly the unacknowledged receipts of the ledger.
pub fn pending_receipts(journal: &Journal) -> (r: Vec<(String, Receipt)>)
    requires
        journal.wf(),
    ensures
        in_key_order(pending_views(r@)),
        same_pairs(pending_views(r@), spec_pending(journal.entries@)),
        r@.len() == spec_pending(journal.entries@).len(),
{
    let entries = &journal.entries;
    let mut found: Vec<(String, Receipt)> = Vec::new();
    let mut i: usize = 0;
    assert(pending_views(found@) =~= spec_pending(entries@.take(0)));
    while i < entries.len()
        invariant
            entries@ == journal.entries@,
            i <= entries@.len(),
            pending_views(found@) == spec_pending(entries@.take(i as int)),
        decreases entries@.len() - i,
    {
        assert(entries@.take(i + 1).drop_last() =~= entries@.take(i as int));
        let (k, e) = (&entries[i].0, &entries[i].1);
        if !e.acknowledged {
            match &e.receipt {
                Some(receipt) => {
                    found.push((k.clone(), receipt.clone()));
                },
                None => {},
            }
        }
        i = i + 1;
        assert(pending_views(found@) =~= spec_pending(entries@.take(i as int)));
    }
    assert(entries@.take(entries@.len() as int) =~= entries@);
    let ghost all = spec_pending(entries@);
    proof {
        lemma_pending_keys(entries@);
    }
    let mut out: Vec<(String, Receipt)> = Vec::new();
    let mut n: usize = 0;
    assert(pending_views(out@) =~= Seq::<(Seq<char>, crate::journal::ReceiptView)>::empty());
    assert(all.take(0) =~= Seq::<(Seq<char>, crate::journal::ReceiptView)>::empty());
    while n < found.len()
        invariant
            n <= found@.len(),
            all == pending_views(found@),
            forall|a: int, b: int| 0 <= a < b < all.len() ==> all[a].0 != all[b].0,
            out@.len() == n,
            in_key_order(pending_views(out@)),
            same_pairs(pending_views(out@), all.take(n as int)),
        decreases found@.len() - n,
    {
        let x = (found[n].0.clone(), found[n].1.clone());
        let ghost before = pending_views(out@);
        let ghost xv = (x.0@, x.1@);
        proof {
            assert(xv == all[n as int]);
            assert forall|k: int| 0 <= k < out@.len() implies (#[trigger] out@[k]).0@ != x.0@ by {
                assert(before[k] == (out@[k].0@, out@[k].1@));
                assert(held(all.take(n as int), before[k]));
                let j = choose|j: int| 0 <= j < all.take(n as int).len() && all.take(n as int)[j] == before[k];
                assert(all.take(n as int)[j] == all[j]);
            }
        }
        let p = insert_by_key(&mut out, x);
        proof {
            lemma_insert_same_pairs(before, xv, p as int, all.take(n as int));
            assert(all.take(n + 1) =~= all.take(n as int).push(xv));
        }
        n = n + 1;
    }
    assert(all.take(found@.len() as int) =~= all);
    out
}

/// Refuses to go on when any observed process was lost or any issued operation
/// is uncertain.
pub fn reconcile_verdict(observations: &Vec<ProcessObservation>, uncertain: &Vec<String>) -> (r: Result<(), RuntimeError>)
    ensures
        r is Err <==> (uncertain@.len() > 0 || exists|i: int| 0 <= i < observations@.len()
            && #[trigger] observations@[i].status == ObservationStatus::Lost),
        r is Err ==> r == Err::<(), RuntimeError>(RuntimeError::RecoveryRequired),
{
    let mut i: usize = 0;
    while i < observations.len()
        invariant
            i <= observations@.len(),
            forall|k: int| 0 <= k < i ==> #[trigger] observations@[k].status != ObservationStatus::Lost,
        decreases observations@.len() - i,
    {
        if observations[i].status == ObservationStatus::Lost {
            return Err(RuntimeError::RecoveryRequired);
        }
        i = i + 1;
    }
    if uncertain.len() > 0 {
        return Err(RuntimeError::RecoveryRequired);
    }
    Ok(())
}

/// The payload recorded for an operation whose local execution failed.
pub open spec fn failed_payload_text() -> Seq<char> {
    "{\"error\":\"native task IO failed\"}"@
}

/// The idempotency key of a tool call's receipt: the SHA-256, in lowercase hex, of
/// the JSON array of its run and tool call.
pub open spec fn idempotency_key_of(run_id: Seq<char>, tool_call_id: Seq<char>) -> Seq<char> {
    sha256_hex_of(
        encode_utf8(seq!['['] + json_string_of(run_id) + seq![','] + json_string_of(tool_call_id) + seq![']']),
    )
}

/// The idempotency key of the receipt for `tool_call_id` in `run_id`.
pub fn idempotency_key(run_id: &str, tool_call_id: &str) -> (r: String)
    ensures
        r@ == idempotency_key_of(run_id@, tool_call_id@),
{
    let mut text = String::new();
    text.push('[');
    append_text(&mut text, json_string(run_id).as_str());
    text.push(',');
    append_text(&mut text, json_string(tool_call_id).as_str());
    text.push(']');
    assert(text@ =~= seq!['['] + json_string_of(run_id@) + seq![','] + json_string_of(tool_call_id@) + seq![']']);
    sha256_hex(text.as_str().as_bytes())
}

/// The immutable receipt for `op`: completed with the encoded `payload` when its
/// execution produced one, otherwise failed with a fixed payload.
pub fn make_receipt(op: &OperationView, payload: Option<Vec<u8>>) -> (r: Receipt)
    ensures
        r@.run_id == op.run_id@,
        r@.tool_call_id == op.tool_call_id@,
        r@.tool_provider_id == op.tool_provider_id@,
        r@.capability_name == Some(ReceiptCapability::ComputeExecute),
        r@.request_digest == op.request_digest@,
        r@.idempotency_key == idempotency_key_of(op.run_id@, op.tool_call_id@),
        match payload {
            Some(p) => r@.status == ReceiptStatus::Completed && r@.payload == p@,
            None => r@.status == ReceiptStatus::Failed && r@.payload == encode_utf8(failed_payload_text()),
        },
{
    let (status, payload) = match payload {
        Some(p) => (ReceiptStatus::Completed, p),
        None => {
            let text = "{\"error\":\"native task IO failed\"}";
            (ReceiptStatus::Failed, bytes_copy(text.as_bytes()))
        },
    };
    Receipt {
        run_id: op.run_id.clone(),
        tool_call_id: op.tool_call_id.clone(),
        tool_provider_id: op.tool_provider_id.clone(),
        capability_name: Some(ReceiptCapability::ComputeExecute),
        request_digest: op.request_digest.clone(),
        idempotency_key: idempotency_key(op.run_id.as_str(), op.tool_call_id.as_str()),
        status,
        payload,
    }
}

/// Whether a run's result is a cancellation, which the controller must be told of.
pub fn is_cancellation(status: &str) -> (r: bool)
    ensures
        r == (status@ == "cancelled"@),
{
    text_equal(status, "cancelled")
}

/// Whether a run's cleanup was confirmed on both sides.
#[derive(Debug, Clone, Copy, PartialEq, Eq, Structural)]
pub enum CleanupState {
    Confirmed,
    Unconfirmed,
}

/// How a run is reported once its cleanup is known.
#[derive(Debug)]
pub struct Settled {
    pub status: String,
    pub reason: Option<String>,
    pub cleanup: CleanupState,
    pub cancel_acknowledged: Option<bool>,
    /// The ledger may record that this executor ended cleanly.
    pub mark_clean: bool,
}

/// Settles a run that ended with `status` and `reason`: uncertain effects require
/// reconciliation; cleanup is confirmed only when both the local processes and the
/// hosted attachment were cleaned, and otherwise the run requires recovery; the
/// ledger is marked clean only when cleanup is confirmed and nothing is uncertain.
pub fn settle(
    status: String,
    reason: Option<String>,
    uncertain: bool,
    local_clean: bool,
    remote_clean: bool,
    cancel_acknowledged: Option<bool>,
) -> (r: Settled)
    ensures
        r.status@ == (if uncertain || !local_clean || !remote_clean {
            "recovery_required"@
        } else {
            status@
        }),
        uncertain ==> (r.reason matches Some(x) && x@ == "interrupted_operation_requires_reconciliation"@),
        !uncertain ==> r.reason == reason,
        r.cleanup == (if local_clean && remote_clean {
            CleanupState::Confirmed
        } else {
            CleanupState::Unconfirmed
        }),
        r.cancel_acknowledged == cancel_acknowledged,
        r.mark_clean == (local_clean && remote_clean && !uncertain),
{
    let (status, reason) = if uncertain {
        ("recovery_required".to_owned(), Some("interrupted_operation_requires_reconciliation".to_owned()))
    } else {
        (status, reason)
    };
    let (status, cleanup) = cleanup_outcome(status, local_clean, remote_clean);
    Settled {
        status,
        reason,
        cleanup,
        cancel_acknowledged,
        mark_clean: local_clean && remote_clean && !uncertain,
    }
}

/// The cleanup verdict of a run that ended with `status`: confirmed only when both
/// sides cleaned up, and otherwise the run requires recovery.
pub fn cleanup_outcome(status: String, local_clean: bool, remote_clean: bool) -> (r: (String, CleanupState))
    ensures
        local_clean && remote_clean ==> r.0@ == status@ && r.1 == CleanupState::Confirmed,
        !(local_clean && remote_clean) ==> r.0@ == "recovery_required"@ && r.1 == CleanupState::Unconfirmed,
{
    if local_clean && remote_clean {
        (status, CleanupState::Confirmed)
    } else {
        ("recovery_required".to_owned(), CleanupState::Unconfirmed)
    }
}

} // verus!
