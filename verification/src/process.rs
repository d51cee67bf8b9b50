//! Owned process groups: their recorded states and the task requests that drive them.
use vstd::prelude::*;
use crate::api::{ObservationStatus, ProcessObservation};
use crate::text::{chars_of, is_white, parse_i32, parse_i32_spec, push_range, split_words, string_of, text_equal, words};

verus! {

/// Where an owned process stands.
#[derive(Debug, Clone, Copy, PartialEq, Eq, Structural)]
pub enum ProcessStatus {
    Running,
    Exited,
    Cancelled,
    Failed,
}

impl ProcessStatus {
    /// The status as the executor reports it.
    pub fn as_str(&self) -> (r: &'static str)
        ensures
            *self == ProcessStatus::Running ==> r@ == "running"@,
            *self == ProcessStatus::Exited ==> r@ == "exited"@,
            *self == ProcessStatus::Cancelled ==> r@ == "cancelled"@,
            *self == ProcessStatus::Failed ==> r@ == "failed"@,
    {
        match self {
            ProcessStatus::Running => "running",
            ProcessStatus::Exited => "exited",
            ProcessStatus::Cancelled => "cancelled",
            ProcessStatus::Failed => "failed",
        }
    }
}

/// Why a process left the running state other than by its own exit.
#[derive(Debug, Clone, Copy, PartialEq, Eq, Structural)]
pub enum ProcessReason {
    /// A recovered executor no longer owns the process group.
    OwnershipLost,
    /// The launcher confirmed teardown of the whole sandbox.
    ExternalTeardownConfirmed,
}

/// The recorded state of one owned process, as the journal keeps it.
#[derive(Debug)]
pub struct ProcessState {
    pub id: String,
    pub status: ProcessStatus,
    pub returncode: Option<i64>,
    pub truncated: bool,
    pub timed_out: bool,
    pub reason: Option<ProcessReason>,
    pub operation_key: Option<String>,
}

pub struct ProcessStateView {
    pub id: Seq<char>,
    pub status: ProcessStatus,
    pub returncode: Option<i64>,
    pub truncated: bool,
    pub timed_out: bool,
    pub reason: Option<ProcessReason>,
    pub operation_key: Option<Seq<char>>,
}

impl View for ProcessState {
    type V = ProcessStateView;

    open spec fn view(&self) -> ProcessStateView {
        ProcessStateView {
            id: self.id@,
            status: self.status,
            returncode: self.returncode,
            truncated: self.truncated,
            timed_out: self.timed_out,
            reason: self.reason,
            operation_key: match self.operation_key {
                Some(k) => Some(k@),
                None => None,
            },
        }
    }
}

impl Clone for ProcessState {
    fn clone(&self) -> (r: Self)
        ensures
            r@ == self@,
    {
        ProcessState {
            id: self.id.clone(),
            status: self.status,
            returncode: self.returncode,
            truncated: self.truncated,
            timed_out: self.timed_out,
            reason: self.reason,
            operation_key: match &self.operation_key {
                Some(k) => Some(k.clone()),
                None => None,
            },
        }
    }
}

impl ProcessState {
    /// A freshly started process with identity `id`.
    pub fn started(id: String) -> (r: ProcessState)
        ensures
            r@ == (ProcessStateView {
                id: id@,
                status: ProcessStatus::Running,
                returncode: None,
                truncated: false,
                timed_out: false,
                reason: None,
                operation_key: None,
            }),
    {
        ProcessState {
            id,
            status: ProcessStatus::Running,
            returncode: None,
            truncated: false,
            timed_out: false,
            reason: None,
            operation_key: None,
        }
    }
}

impl ProcessState {
    /// Records how the process ended: cancelled or exited with `returncode`, and
    /// whether its output was truncated or its deadline passed.
    pub fn record_exit(&mut self, returncode: Option<i64>, cancelled: bool, truncated: bool, timed_out: bool)
        ensures
            final(self)@ == (ProcessStateView {
                status: if cancelled { ProcessStatus::Cancelled } else { ProcessStatus::Exited },
                returncode,
                truncated,
                timed_out,
                ..old(self)@
            }),
    {
        self.status = if cancelled { ProcessStatus::Cancelled } else { ProcessStatus::Exited };
        self.returncode = returncode;
        self.truncated = truncated;
        self.timed_out = timed_out;
    }
}

/// The return code of an exit status: its code, or the negated signal that ended it.
pub fn exit_returncode(code: Option<i32>, signal: Option<i32>) -> (r: Option<i64>)
    ensures
        r == match code {
            Some(c) => Some(c as i64),
            None => match signal {
                Some(s) => Some((0 - s) as i64),
                None => None,
            },
        },
{
    match code {
        Some(c) => Some(c as i64),
        None => match signal {
            Some(s) => Some(-(s as i64)),
            None => None,
        },
    }
}

/// The state a recovered executor gives a recorded process: one that was running
/// is no longer owned, so it failed with lost ownership.
pub open spec fn spec_recovered(s: ProcessStateView) -> ProcessStateView {
    if s.status == ProcessStatus::Running {
        ProcessStateView { status: ProcessStatus::Failed, reason: Some(ProcessReason::OwnershipLost), ..s }
    } else {
        s
    }
}

/// The recorded state `state` as a recovered executor holds it.
pub fn recovered(state: &ProcessState) -> (r: ProcessState)
    ensures
        r@ == spec_recovered(state@),
{
    let mut r = state.clone();
    if r.status == ProcessStatus::Running {
        r.status = ProcessStatus::Failed;
        r.reason = Some(ProcessReason::OwnershipLost);
    }
    r
}

/// What a process's recorded state tells reconciliation: lost when unknown or no
/// longer owned, otherwise its status.
pub open spec fn spec_observation_status(state: Option<ProcessStateView>) -> ObservationStatus {
    match state {
        None => ObservationStatus::Lost,
        Some(s) => if s.reason == Some(ProcessReason::OwnershipLost) {
            ObservationStatus::Lost
        } else {
            match s.status {
                ProcessStatus::Running => ObservationStatus::Running,
                ProcessStatus::Exited => ObservationStatus::Exited,
                ProcessStatus::Cancelled => ObservationStatus::Cancelled,
                ProcessStatus::Failed => ObservationStatus::Failed,
            }
        },
    }
}

/// The observation of process `id`, whose recorded state is `state`.
pub fn observe(id: &str, state: Option<&ProcessState>) -> (r: ProcessObservation)
    ensures
        r.handle_id@ == id@,
        r.status == spec_observation_status(match state { Some(s) => Some(s@), None => None }),
        r.evidence@ == "native owned process registry"@,
{
    let status = match state {
        None => ObservationStatus::Lost,
        Some(s) => match s.reason {
            Some(ProcessReason::OwnershipLost) => ObservationStatus::Lost,
            _ => match s.status {
                ProcessStatus::Running => ObservationStatus::Running,
                ProcessStatus::Exited => ObservationStatus::Exited,
                ProcessStatus::Cancelled => ObservationStatus::Cancelled,
                ProcessStatus::Failed => ObservationStatus::Failed,
            },
        },
    };
    ProcessObservation {
        handle_id: id.to_owned(),
        status,
        evidence: "native owned process registry".to_owned(),
    }
}

/// The state of process `id`: an owned job's, else a recorded terminal one's.
pub fn find_state<'a>(jobs: &'a Vec<(String, ProcessState)>, terminal: &'a Vec<(String, ProcessState)>, id: &str) -> (r: Option<&'a ProcessState>)
    ensures
        match r {
            Some(s) => (exists|i: int| 0 <= i < jobs@.len() && jobs@[i].0@ == id@ && &jobs@[i].1 == s)
                || ((forall|i: int| 0 <= i < jobs@.len() ==> jobs@[i].0@ != id@) && exists|i: int|
                0 <= i < terminal@.len() && terminal@[i].0@ == id@ && &terminal@[i].1 == s),
            None => (forall|i: int| 0 <= i < jobs@.len() ==> jobs@[i].0@ != id@) && (forall|i: int|
                0 <= i < terminal@.len() ==> terminal@[i].0@ != id@),
        },
{
    match crate::pairs::find_key(jobs, id) {
        Some(i) => Some(&jobs[i].1),
        None => match crate::pairs::find_key(terminal, id) {
            Some(i) => Some(&terminal[i].1),
            None => None,
        },
    }
}

/// Whether an owned job serves the operation with ledger key `key`.
pub fn owns_operation(jobs: &Vec<(String, ProcessState)>, key: &str) -> (r: bool)
    ensures
        r == exists|i: int| 0 <= i < jobs@.len() && ((#[trigger] jobs@[i]).1.operation_key matches Some(k) && k@ == key@),
{
    let mut i: usize = 0;
    while i < jobs.len()
        invariant
            i <= jobs@.len(),
            forall|k: int| 0 <= k < i ==> !((#[trigger] jobs@[k]).1.operation_key matches Some(x) && x@ == key@),
        decreases jobs@.len() - i,
    {
        match &jobs[i].1.operation_key {
            Some(k) => if text_equal(k.as_str(), key) {
                return true;
            },
            None => {},
        }
        i = i + 1;
    }
    false
}

/// Why process cleanup or observation failed.
#[derive(Debug, Clone, Copy, PartialEq, Eq, Structural)]
pub enum ProcessError {
    /// An owned group could not be finished, or a recovered process is no longer owned.
    CleanupUnconfirmed,
    /// A process state line has no `) ` before its fields.
    InvalidStat,
    /// A process state line has fewer than three fields after its name.
    IncompleteStat,
    /// A process state line's group is not a number.
    InvalidNumber,
}

impl ProcessError {
    /// The message reported for this failure.
    pub fn message(&self) -> (r: &'static str)
        ensures
            *self == ProcessError::CleanupUnconfirmed ==> r@
                == "cleanup_unconfirmed: process ownership or durable cleanup failed"@,
    {
        match self {
            ProcessError::CleanupUnconfirmed => "cleanup_unconfirmed: process ownership or durable cleanup failed",
            ProcessError::InvalidStat => "invalid process state observation",
            ProcessError::IncompleteStat => "incomplete process state observation",
            ProcessError::InvalidNumber => "invalid digit found in string",
        }
    }
}

/// Cleanup is confirmed only when every owned job finished and was recorded, and
/// no recovered process lost its ownership.
pub fn cleanup_verdict(finish_failed: bool, terminal: &Vec<(String, ProcessState)>) -> (r: Result<(), ProcessError>)
    ensures
        r is Err <==> (finish_failed || exists|i: int| 0 <= i < terminal@.len()
            && (#[trigger] terminal@[i]).1.reason == Some(ProcessReason::OwnershipLost)),
        r is Err ==> r == Err::<(), ProcessError>(ProcessError::CleanupUnconfirmed),
{
    let mut lost = false;
    let mut i: usize = 0;
    while i < terminal.len()
        invariant
            i <= terminal@.len(),
            lost <==> exists|k: int| 0 <= k < i && (#[trigger] terminal@[k]).1.reason == Some(ProcessReason::OwnershipLost),
        decreases terminal@.len() - i,
    {
        if terminal[i].1.reason == Some(ProcessReason::OwnershipLost) {
            lost = true;
        }
        i = i + 1;
    }
    if finish_failed || lost {
        return Err(ProcessError::CleanupUnconfirmed);
    }
    Ok(())
}

/// What a job's periodic check decides: whether its deadline counts as passed,
/// and whether the job must now be finished.
pub fn maintain_decision(exited: bool, timed_out: bool, deadline_passed: bool, truncated: bool) -> (r: (bool, bool))
    ensures
        r.0 == (timed_out || (deadline_passed && !exited)),
        r.1 == (r.0 || truncated || exited),
{
    let timeout = timed_out || (deadline_passed && !exited);
    (timeout, timeout || truncated || exited)
}

/// What the output supervisor decides on each tick: whether the deadline expired,
/// and whether the owned group must be signalled.
pub fn tick_decision(exited: bool, deadline_passed: bool, truncated: bool) -> (r: (bool, bool))
    ensures
        r.0 == (deadline_passed && !exited),
        r.1 == (exited || r.0 || truncated),
{
    let expired = deadline_passed && !exited;
    (expired, exited || expired || truncated)
}

/// How much of `n` freshly read bytes fit the artifact's `remaining` budget: the
/// bytes kept, the budget left, and whether output was cut.
pub fn copy_budget(n: u64, remaining: u64) -> (r: (u64, u64, bool))
    ensures
        r.0 == (if n < remaining { n } else { remaining }),
        r.1 == remaining - r.0,
        r.2 == (r.0 < n),
{
    let keep = if n < remaining { n } else { remaining };
    (keep, remaining - keep, keep < n)
}

/// The position of the last `) ` among the first `n` characters of `s`.
pub open spec fn last_marker(s: Seq<char>, n: int) -> Option<int>
    decreases n,
{
    if n < 2 {
        None
    } else if s[n - 2] == ')' && s[n - 1] == ' ' {
        Some(n - 2)
    } else {
        last_marker(s, n - 1)
    }
}

/// Whether a process state line shows a live member of `group`: its fields after
/// the last `) ` name the state first and the group third; a zombie is not live.
pub open spec fn spec_live_group_stat(stat: Seq<char>, group: i32) -> Result<bool, ProcessError> {
    match last_marker(stat, stat.len() as int) {
        None => Err(ProcessError::InvalidStat),
        Some(i) => {
            let fields = words(stat.skip(i + 2));
            if fields.len() < 3 {
                Err(ProcessError::IncompleteStat)
            } else {
                match parse_i32_spec(fields[2]) {
                    None => Err(ProcessError::InvalidNumber),
                    Some(g) => Ok(g == group && fields[0] != seq!['Z']),
                }
            }
        },
    }
}

/// Reads a `/proc/PID/stat` line: whether it is a live member of `group`.
pub fn live_group_stat(stat: &str, group: i32) -> (r: Result<bool, ProcessError>)
    ensures
        r == spec_live_group_stat(stat@, group),
{
    let c = chars_of(stat);
    let mut n: usize = c.len();
    while n >= 2
        invariant
            n <= c@.len(),
            c@ == stat@,
            last_marker(c@, c@.len() as int) == last_marker(c@, n as int),
        ensures
            n <= c@.len(),
            c@ == stat@,
            last_marker(c@, c@.len() as int) == last_marker(c@, n as int),
            n < 2 || (c@[n - 2] == ')' && c@[n - 1] == ' '),
        decreases n,
    {
        if c[n - 2] == ')' && c[n - 1] == ' ' {
            break;
        }
        n = n - 1;
    }
    if n < 2 {
        return Err(ProcessError::InvalidStat);
    }
    assert(last_marker(stat@, stat@.len() as int) == Some((n - 2) as int));
    let mut tail: Vec<char> = Vec::new();
    push_range(&mut tail, c.as_slice(), n, c.len());
    assert(tail@ =~= stat@.skip(n as int));
    let tail = string_of(tail.as_slice());
    let fields = split_words(tail.as_str());
    proof {
        assert(fields@.map_values(|w: Vec<char>| w@).len() == fields@.len());
    }
    if fields.len() < 3 {
        return Err(ProcessError::IncompleteStat);
    }
    assert(fields@.map_values(|w: Vec<char>| w@)[2] == fields@[2]@);
    assert(fields@.map_values(|w: Vec<char>| w@)[0] == fields@[0]@);
    let g = match parse_i32(fields[2].as_slice()) {
        None => return Err(ProcessError::InvalidNumber),
        Some(g) => g,
    };
    let zombie = fields[0].len() == 1 && fields[0][0] == 'Z';
    assert(zombie == (fields@[0]@ == seq!['Z'])) by {
        if fields@[0]@ == seq!['Z'] {
            assert(fields@[0]@.len() == 1);
        }
        if zombie {
            assert(fields@[0]@ =~= seq!['Z']);
        }
    }
    Ok(g == group && !zombie)
}

/// One `/proc` entry as the group scan observed it: its name, the group of the
/// process it names when that was observable, and its state line when readable.
#[derive(Debug)]
pub struct ProcEntry {
    pub name: String,
    pub group: Option<i32>,
    pub stat: Option<String>,
}

/// Whether the entries from the `i`-th on show a live member of `group`: entries
/// that name no process, another group, or a vanished process are passed over.
pub open spec fn spec_group_live(entries: Seq<ProcEntry>, group: i32, i: int) -> Result<bool, ProcessError>
    decreases entries.len() - i,
{
    if i < 0 || i >= entries.len() {
        Ok(false)
    } else {
        let e = entries[i];
        if parse_i32_spec(e.name@) is None || e.group != Some(group) || e.stat is None {
            spec_group_live(entries, group, i + 1)
        } else {
            match spec_live_group_stat(e.stat->0@, group) {
                Err(x) => Err(x),
                Ok(true) => Ok(true),
                Ok(false) => spec_group_live(entries, group, i + 1),
            }
        }
    }
}

/// Whether the scanned `/proc` entries show a live member of `group`.
pub fn group_has_live(entries: &Vec<ProcEntry>, group: i32) -> (r: Result<bool, ProcessError>)
    ensures
        r == spec_group_live(entries@, group, 0),
{
    let mut i: usize = 0;
    while i < entries.len()
        invariant
            i <= entries@.len(),
            spec_group_live(entries@, group, 0) == spec_group_live(entries@, group, i as int),
        decreases entries@.len() - i,
    {
        let e = &entries[i];
        let name = chars_of(e.name.as_str());
        let numbered = parse_i32(name.as_slice()).is_some();
        if numbered && e.group == Some(group) {
            match &e.stat {
                Some(stat) => match live_group_stat(stat.as_str(), group) {
                    Err(x) => return Err(x),
                    Ok(true) => return Ok(true),
                    Ok(false) => {},
                },
                None => {},
            }
        }
        i = i + 1;
    }
    Ok(false)
}

/// Whether `name` is a process id, as the group scan reads `/proc` entry names.
pub fn names_process(name: &str) -> (r: bool)
    ensures
        r == parse_i32_spec(name@) is Some,
{
    let c = chars_of(name);
    parse_i32(c.as_slice()).is_some()
}

} // verus!
