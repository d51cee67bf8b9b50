//! The arguments of task requests: which names a request may carry, its strings
//! and integers, wait conditions, output pages, and how a wait is reported.
use vstd::prelude::*;
use crate::text::{chars_of, has_prefix, is_lower_hex_text, lower_hex_text, starts_with, string_of, text_equal};
use crate::value::{WireValue, get_member, has_member, member};
use crate::types::WaitForResultStatus;
use crate::config::{control_variable, is_control_variable};
use crate::pairs::pairs_map;
use crate::text::{is_white, white};

verus! {

/// Why a task request was refused.
#[derive(Debug, Clone, Copy, PartialEq, Eq, Structural)]
pub enum TaskError {
    UnknownArguments,
    MissingString,
    ExpectedInteger,
    EmptyCommand,
    InvalidLimit,
    InvalidTail,
    InvalidCondition,
    InvalidConditions,
    InvalidHandleIds,
    CwdNotString,
    EnvNotObject,
    EnvValueNotString,
}

impl TaskError {
    /// The message the executor reports for this refusal.
    pub fn message(&self) -> (r: &'static str)
        ensures
            *self == TaskError::UnknownArguments ==> r@ == "unknown compute arguments"@,
            *self == TaskError::InvalidCondition ==> r@ == "invalid wait condition"@,
            *self == TaskError::InvalidLimit ==> r@ == "output limit must be positive"@,
    {
        match self {
            TaskError::UnknownArguments => "unknown compute arguments",
            TaskError::MissingString => "required string argument missing",
            TaskError::ExpectedInteger => "expected nonnegative integer",
            TaskError::EmptyCommand => "empty command",
            TaskError::InvalidLimit => "output limit must be positive",
            TaskError::InvalidTail => "tail_bytes must be positive",
            TaskError::InvalidCondition => "invalid wait condition",
            TaskError::InvalidConditions => "conditions must be a nonempty list",
            TaskError::InvalidHandleIds => "handle_ids must be a list of process ids",
            TaskError::CwdNotString => "cwd must be a string",
            TaskError::EnvNotObject => "env must be an object",
            TaskError::EnvValueNotString => "environment values must be strings",
        }
    }
}

/// The largest output page, in bytes: JSON escaping of every byte still fits a receipt.
pub const PAGE_LIMIT: u64 = 24576;

/// The most conditions one wait may name.
pub const MAX_CONDITIONS: usize = 64;

/// Whether `names` holds `key`.
pub open spec fn names_contain(names: Seq<&str>, key: Seq<char>) -> bool {
    exists|j: int| 0 <= j < names.len() && #[trigger] names[j]@ == key
}

/// Every argument's name is one of `names`.
pub open spec fn spec_allowed(args: Seq<(String, WireValue)>, names: Seq<&str>) -> bool {
    forall|i: int| 0 <= i < args.len() ==> names_contain(names, #[trigger] args[i].0@)
}

/// Refuses arguments whose names are not among `names`.
pub fn allowed(args: &Vec<(String, WireValue)>, names: &[&str]) -> (r: Result<(), TaskError>)
    ensures
        r is Ok <==> spec_allowed(args@, names@),
        r is Err ==> r == Err::<(), TaskError>(TaskError::UnknownArguments),
{
    let mut i: usize = 0;
    while i < args.len()
        invariant
            i <= args@.len(),
            forall|k: int| 0 <= k < i ==> names_contain(names@, #[trigger] args@[k].0@),
        decreases args@.len() - i,
    {
        let mut j: usize = 0;
        let mut found = false;
        while j < names.len()
            invariant
                i < args@.len(),
                j <= names@.len(),
                found ==> names_contain(names@, args@[i as int].0@),
                !found ==> forall|k: int| 0 <= k < j ==> names@[k]@ != args@[i as int].0@,
            decreases names@.len() - j,
        {
            if !found && text_equal(args[i].0.as_str(), names[j]) {
                found = true;
            }
            j = j + 1;
        }
        if !found {
            assert(!names_contain(names@, args@[i as int].0@));
            return Err(TaskError::UnknownArguments);
        }
        i = i + 1;
    }
    Ok(())
}

/// The string argument `name`.
pub open spec fn spec_string_arg(args: Seq<(String, WireValue)>, name: Seq<char>) -> Option<Seq<char>> {
    match member(args, name) {
        Some(WireValue::Str(s)) => Some(s@),
        _ => None,
    }
}

/// The string argument `name`; refused when it is missing or not a string.
pub fn string_arg<'a>(args: &'a Vec<(String, WireValue)>, name: &str) -> (r: Result<&'a str, TaskError>)
    ensures
        match spec_string_arg(args@, name@) {
            Some(s) => r matches Ok(t) && t@ == s,
            None => r == Err::<&str, TaskError>(TaskError::MissingString),
        },
{
    match get_member(args, name) {
        Some(v) => match v.as_str() {
            Some(s) => Ok(s),
            None => Err(TaskError::MissingString),
        },
        None => Err(TaskError::MissingString),
    }
}

/// The integer argument `name`, or `default` when it is absent.
pub open spec fn spec_integer_arg(args: Seq<(String, WireValue)>, name: Seq<char>, default: u64) -> Result<u64, TaskError> {
    match member(args, name) {
        None => Ok(default),
        Some(WireValue::UInt(n)) => Ok(n),
        Some(_) => Err(TaskError::ExpectedInteger),
    }
}

/// The nonnegative integer argument `name`, or `default` when it is absent.
pub fn integer_arg(args: &Vec<(String, WireValue)>, name: &str, default: u64) -> (r: Result<u64, TaskError>)
    ensures
        r == spec_integer_arg(args@, name@, default),
{
    match get_member(args, name) {
        None => Ok(default),
        Some(v) => match v.as_u64() {
            Some(n) => Ok(n),
            None => Err(TaskError::ExpectedInteger),
        },
    }
}

/// The page size a read asks for: the `limit` argument or `default`, at most a
/// page; a zero limit is refused.
pub fn output_limit(args: &Vec<(String, WireValue)>, default: u64) -> (r: Result<u64, TaskError>)
    ensures
        match spec_integer_arg(args@, "limit"@, default) {
            Err(e) => r == Err::<u64, TaskError>(e),
            Ok(n) => if n == 0 {
                r == Err::<u64, TaskError>(TaskError::InvalidLimit)
            } else {
                r == Ok::<u64, TaskError>(if n < PAGE_LIMIT { n } else { PAGE_LIMIT })
            },
        },
{
    let n = integer_arg(args, "limit", default)?;
    if n == 0 {
        return Err(TaskError::InvalidLimit);
    }
    Ok(if n < PAGE_LIMIT { n } else { PAGE_LIMIT })
}

/// The window a read returns, once the bytes at `offset` were read.
#[derive(Debug, Clone, Copy, PartialEq, Eq, Structural)]
pub struct PageBounds {
    pub offset: u64,
    pub next_offset: u64,
    pub total_bytes: u64,
    pub omitted_before: u64,
    pub omitted_after: u64,
}

/// Where a read of at most `limit` bytes of an output of `size` bytes starts: the
/// `offset` argument, or the start of the last `limit` bytes.
pub fn page_offset(args: &Vec<(String, WireValue)>, size: u64, limit: u64) -> (r: Result<u64, TaskError>)
    ensures
        r == spec_integer_arg(args@, "offset"@, if size >= limit { (size - limit) as u64 } else { 0 }),
{
    let tail = if size >= limit { size - limit } else { 0 };
    integer_arg(args, "offset", tail)
}

/// The window of a read that found `count` bytes at `offset` in an output of
/// `size` bytes: what came before the window and what remains after it.
pub fn page_bounds(offset: u64, count: u64, size: u64) -> (r: PageBounds)
    ensures
        r.offset == offset,
        r.next_offset == (if offset + count > u64::MAX { u64::MAX as int } else { offset + count }),
        r.total_bytes == size,
        r.omitted_before == (if offset < size { offset } else { size }),
        r.omitted_after == (if size > r.next_offset { size - r.next_offset } else { 0 }),
{
    let next = offset.saturating_add(count);
    PageBounds {
        offset,
        next_offset: next,
        total_bytes: size,
        omitted_before: if offset < size { offset } else { size },
        omitted_after: if size > next { size - next } else { 0 },
    }
}

/// How a path condition is met.
#[derive(Debug, Clone, Copy, PartialEq, Eq, Structural)]
pub enum PathState {
    Exists,
    Missing,
    Changed,
}

/// A canonical wait condition.
#[derive(Debug)]
pub enum Condition {
    /// The process exits.
    Exit(String),
    /// The path, resolved against the workspace, reaches a state.
    Path { path: String, state: PathState },
    /// The process's output matches a pattern.
    Log { handle: String, pattern: String },
    /// A TCP port accepts connections.
    Port { host: String, port: u16 },
    /// An HTTP URL answers with a status.
    Http { url: String, status: u16 },
}

pub enum ConditionView {
    Exit(Seq<char>),
    Path { path: Seq<char>, state: PathState },
    Log { handle: Seq<char>, pattern: Seq<char> },
    Port { host: Seq<char>, port: u16 },
    Http { url: Seq<char>, status: u16 },
}

impl View for Condition {
    type V = ConditionView;

    open spec fn view(&self) -> ConditionView {
        match self {
            Condition::Exit(h) => ConditionView::Exit(h@),
            Condition::Path { path, state } => ConditionView::Path { path: path@, state: *state },
            Condition::Log { handle, pattern } => ConditionView::Log { handle: handle@, pattern: pattern@ },
            Condition::Port { host, port } => ConditionView::Port { host: host@, port: *port },
            Condition::Http { url, status } => ConditionView::Http { url: url@, status: *status },
        }
    }
}

/// `path` joined to `workspace`: an absolute path stands alone; otherwise a
/// separator comes between them unless the workspace is empty or ends in one.
pub open spec fn spec_resolve(workspace: Seq<char>, path: Seq<char>) -> Seq<char> {
    if path.len() > 0 && path[0] == '/' {
        path
    } else if workspace.len() > 0 && workspace.last() != '/' {
        workspace + seq!['/'] + path
    } else {
        workspace + path
    }
}

/// `path` resolved against `workspace`, as `Path::join` does it.
pub fn resolve(workspace: &str, path: &str) -> (r: String)
    ensures
        r@ == spec_resolve(workspace@, path@),
{
    let p = chars_of(path);
    if p.len() > 0 && p[0] == '/' {
        return string_of(p.as_slice());
    }
    let w = chars_of(workspace);
    let mut out = String::new();
    crate::text::append_text(&mut out, workspace);
    if w.len() > 0 && w[w.len() - 1] != '/' {
        out.push('/');
    }
    crate::text::append_text(&mut out, path);
    out
}

/// A nonempty text without NUL.
pub open spec fn spec_text(v: WireValue) -> Option<Seq<char>> {
    match v {
        WireValue::Str(s) => if s@.len() > 0 && !s@.contains('\0') {
            Some(s@)
        } else {
            None
        },
        _ => None,
    }
}

/// A process id: 32 lowercase hexadecimal digits.
pub open spec fn spec_handle(v: WireValue) -> Option<Seq<char>> {
    match spec_text(v) {
        Some(t) => if is_lower_hex_text(t, 32) {
            Some(t)
        } else {
            None
        },
        None => None,
    }
}

/// A path state named `exists`, `missing` or `changed`.
pub open spec fn spec_path_state(v: WireValue) -> Option<PathState> {
    match v {
        WireValue::Str(s) => if s@ == "exists"@ {
            Some(PathState::Exists)
        } else if s@ == "missing"@ {
            Some(PathState::Missing)
        } else if s@ == "changed"@ {
            Some(PathState::Changed)
        } else {
            None
        },
        _ => None,
    }
}

/// An integer between `low` and `high`, inclusive.
pub open spec fn spec_bounded(v: WireValue, low: u64, high: u64) -> Option<u16> {
    match v {
        WireValue::UInt(n) => if low <= n <= high && high <= 65535 {
            Some(n as u16)
        } else {
            None
        },
        _ => None,
    }
}

/// An `http://` or `https://` URL.
pub open spec fn spec_http_url(v: WireValue) -> Option<Seq<char>> {
    match spec_text(v) {
        Some(t) => if starts_with(t, "http://"@) || starts_with(t, "https://"@) {
            Some(t)
        } else {
            None
        },
        None => None,
    }
}

/// The fields a condition of `kind` carries, `kind` among them.
pub open spec fn condition_fields(kind: Seq<char>) -> Option<Seq<Seq<char>>> {
    if kind == "exit"@ {
        Some(seq!["kind"@, "handle_id"@])
    } else if kind == "path"@ {
        Some(seq!["kind"@, "path"@, "state"@])
    } else if kind == "log"@ {
        Some(seq!["kind"@, "handle_id"@, "pattern"@])
    } else if kind == "port"@ {
        Some(seq!["kind"@, "port"@, "host"@])
    } else if kind == "http"@ {
        Some(seq!["kind"@, "url"@, "status"@])
    } else {
        None
    }
}

/// The value of field `key`, as JSON indexing gives it: null when absent.
pub open spec fn field(members: Seq<(String, WireValue)>, key: Seq<char>) -> WireValue {
    match member(members, key) {
        Some(v) => v,
        None => WireValue::Null,
    }
}

/// The condition a wait item describes once its fields are known to be exactly
/// those of its kind.
pub open spec fn spec_build_condition(kind: Seq<char>, members: Seq<(String, WireValue)>, workspace: Seq<char>) -> Option<ConditionView> {
    if kind == "exit"@ {
        match spec_handle(field(members, "handle_id"@)) {
            Some(h) => Some(ConditionView::Exit(h)),
            None => None,
        }
    } else if kind == "path"@ {
        match (spec_text(field(members, "path"@)), spec_path_state(field(members, "state"@))) {
            (Some(p), Some(s)) => Some(ConditionView::Path { path: spec_resolve(workspace, p), state: s }),
            _ => None,
        }
    } else if kind == "log"@ {
        match (spec_handle(field(members, "handle_id"@)), spec_text(field(members, "pattern"@))) {
            (Some(h), Some(p)) => Some(ConditionView::Log { handle: h, pattern: p }),
            _ => None,
        }
    } else if kind == "port"@ {
        match (spec_text(field(members, "host"@)), spec_bounded(field(members, "port"@), 1, 65535)) {
            (Some(h), Some(p)) => Some(ConditionView::Port { host: h, port: p }),
            _ => None,
        }
    } else {
        match (spec_http_url(field(members, "url"@)), spec_bounded(field(members, "status"@), 100, 599)) {
            (Some(u), Some(s)) => Some(ConditionView::Http { url: u, status: s }),
            _ => None,
        }
    }
}

/// The kind a wait item names: its `kind` string, or nothing.
pub open spec fn condition_kind(members: Seq<(String, WireValue)>) -> Seq<char> {
    match member(members, "kind"@) {
        Some(WireValue::Str(s)) => s@,
        _ => Seq::empty(),
    }
}

/// A wait item: an object whose fields are exactly those of its kind, each valid.
pub open spec fn spec_parse_condition(item: WireValue, workspace: Seq<char>) -> Option<ConditionView> {
    match item {
        WireValue::Object(members) => {
            let kind = condition_kind(members@);
            match condition_fields(kind) {
                None => None,
                Some(fields) => if members@.len() == fields.len() && (forall|j: int|
                    0 <= j < fields.len() ==> has_member(members@, #[trigger] fields[j])) {
                    spec_build_condition(kind, members@, workspace)
                } else {
                    None
                },
            }
        },
        _ => None,
    }
}

/// The nonempty text without NUL in `v`.
fn text(v: Option<&WireValue>) -> (r: Option<String>)
    ensures
        match v {
            Some(x) => match spec_text(*x) {
                Some(t) => r matches Some(s) && s@ == t,
                None => r is None,
            },
            None => r is None,
        },
{
    let s = match v {
        Some(WireValue::Str(s)) => s,
        _ => return None,
    };
    if s.as_str().is_empty() || crate::text::contains_char(s.as_str(), '\0') {
        return None;
    }
    Some(s.clone())
}

fn handle(v: Option<&WireValue>) -> (r: Option<String>)
    ensures
        match v {
            Some(x) => match spec_handle(*x) {
                Some(t) => r matches Some(s) && s@ == t,
                None => r is None,
            },
            None => r is None,
        },
{
    let t = text(v)?;
    if lower_hex_text(t.as_str(), 32) {
        Some(t)
    } else {
        None
    }
}

fn path_state(v: Option<&WireValue>) -> (r: Option<PathState>)
    ensures
        match v {
            Some(x) => r == spec_path_state(*x),
            None => r is None,
        },
{
    match v {
        Some(WireValue::Str(s)) => if text_equal(s.as_str(), "exists") {
            Some(PathState::Exists)
        } else if text_equal(s.as_str(), "missing") {
            Some(PathState::Missing)
        } else if text_equal(s.as_str(), "changed") {
            Some(PathState::Changed)
        } else {
            None
        },
        _ => None,
    }
}

fn bounded(v: Option<&WireValue>, low: u64, high: u64) -> (r: Option<u16>)
    requires
        high <= 65535,
    ensures
        match v {
            Some(x) => r == spec_bounded(*x, low, high),
            None => r is None,
        },
{
    match v {
        Some(WireValue::UInt(n)) => if low <= *n && *n <= high {
            Some(*n as u16)
        } else {
            None
        },
        _ => None,
    }
}

fn http_url(v: Option<&WireValue>) -> (r: Option<String>)
    ensures
        match v {
            Some(x) => match spec_http_url(*x) {
                Some(t) => r matches Some(s) && s@ == t,
                None => r is None,
            },
            None => r is None,
        },
{
    let t = text(v)?;
    let c = chars_of(t.as_str());
    let http = chars_of("http://");
    let https = chars_of("https://");
    if has_prefix(c.as_slice(), http.as_slice()) || has_prefix(c.as_slice(), https.as_slice()) {
        Some(t)
    } else {
        None
    }
}

/// Whether every one of `fields` names a member.
fn has_fields(members: &Vec<(String, WireValue)>, fields: &Vec<&str>) -> (r: bool)
    ensures
        r == forall|j: int| 0 <= j < fields@.len() ==> has_member(members@, #[trigger] fields@[j]@),
{
    let mut j: usize = 0;
    while j < fields.len()
        invariant
            j <= fields@.len(),
            forall|k: int| 0 <= k < j ==> has_member(members@, #[trigger] fields@[k]@),
        decreases fields@.len() - j,
    {
        if get_member(members, fields[j]).is_none() {
            return false;
        }
        j = j + 1;
    }
    true
}

impl Condition {
    /// Parses a wait item against `workspace`: an object whose fields are exactly
    /// those of its kind, each valid; anything else is an invalid condition.
    pub fn parse(item: &WireValue, workspace: &str) -> (r: Result<Condition, TaskError>)
        ensures
            match spec_parse_condition(*item, workspace@) {
                Some(c) => r matches Ok(x) && x@ == c,
                None => r == Err::<Condition, TaskError>(TaskError::InvalidCondition),
            },
    {
        let members = match item {
            WireValue::Object(m) => m,
            _ => return Err(TaskError::InvalidCondition),
        };
        proof { reveal_strlit(""); }
        let kind: &str = match get_member(members, "kind") {
            Some(WireValue::Str(s)) => s.as_str(),
            _ => "",
        };
        assert(kind@ == condition_kind(members@));
        let fields: Vec<&str> = if text_equal(kind, "exit") {
            vec!["kind", "handle_id"]
        } else if text_equal(kind, "path") {
            vec!["kind", "path", "state"]
        } else if text_equal(kind, "log") {
            vec!["kind", "handle_id", "pattern"]
        } else if text_equal(kind, "port") {
            vec!["kind", "port", "host"]
        } else if text_equal(kind, "http") {
            vec!["kind", "url", "status"]
        } else {
            return Err(TaskError::InvalidCondition);
        };
        let ghost expected = condition_fields(kind@)->0;
        assert(fields@.map_values(|f: &str| f@) =~= expected);
        assert(forall|j: int| 0 <= j < fields@.len() ==> #[trigger] fields@[j]@ == expected[j]) by {
            assert forall|j: int| 0 <= j < fields@.len() implies #[trigger] fields@[j]@ == expected[j] by {
                assert(fields@.map_values(|f: &str| f@)[j] == fields@[j]@);
            }
        }
        if members.len() != fields.len() {
            return Err(TaskError::InvalidCondition);
        }
        if !has_fields(members, &fields) {
            return Err(TaskError::InvalidCondition);
        }
        let built = if text_equal(kind, "exit") {
            match handle(get_member(members, "handle_id")) {
                Some(h) => Some(Condition::Exit(h)),
                None => None,
            }
        } else if text_equal(kind, "path") {
            match (text(get_member(members, "path")), path_state(get_member(members, "state"))) {
                (Some(p), Some(s)) => Some(Condition::Path { path: resolve(workspace, p.as_str()), state: s }),
                _ => None,
            }
        } else if text_equal(kind, "log") {
            match (handle(get_member(members, "handle_id")), text(get_member(members, "pattern"))) {
                (Some(h), Some(p)) => Some(Condition::Log { handle: h, pattern: p }),
                _ => None,
            }
        } else if text_equal(kind, "port") {
            match (text(get_member(members, "host")), bounded(get_member(members, "port"), 1, 65535)) {
                (Some(h), Some(p)) => Some(Condition::Port { host: h, port: p }),
                _ => None,
            }
        } else {
            match (http_url(get_member(members, "url")), bounded(get_member(members, "status"), 100, 599)) {
                (Some(u), Some(s)) => Some(Condition::Http { url: u, status: s }),
                _ => None,
            }
        };
        match built {
            Some(c) => Ok(c),
            None => Err(TaskError::InvalidCondition),
        }
    }
}

/// The conditions of a wait: a list of one to `MAX_CONDITIONS` items, each a valid
/// condition.
pub open spec fn spec_parse_conditions(value: Option<WireValue>, workspace: Seq<char>) -> Result<Seq<ConditionView>, TaskError> {
    match value {
        Some(WireValue::Array(items)) => if items@.len() == 0 || items@.len() > MAX_CONDITIONS {
            Err(TaskError::InvalidConditions)
        } else if forall|i: int| 0 <= i < items@.len() ==> (#[trigger] spec_parse_condition(items@[i], workspace)) is Some {
            Ok(Seq::new(items@.len(), |i: int| spec_parse_condition(items@[i], workspace)->0))
        } else {
            Err(TaskError::InvalidCondition)
        },
        _ => Err(TaskError::InvalidConditions),
    }
}

/// Parses the `conditions` of a wait against `workspace`.
pub fn parse_conditions(value: Option<&WireValue>, workspace: &str) -> (r: Result<Vec<Condition>, TaskError>)
    ensures
        match spec_parse_conditions(match value { Some(v) => Some(*v), None => None }, workspace@) {
            Ok(cs) => r matches Ok(v) && v@.map_values(|c: Condition| c@) == cs,
            Err(e) => r == Err::<Vec<Condition>, TaskError>(e),
        },
{
    let items = match value {
        Some(WireValue::Array(items)) => items,
        _ => return Err(TaskError::InvalidConditions),
    };
    if items.len() == 0 || items.len() > MAX_CONDITIONS {
        return Err(TaskError::InvalidConditions);
    }
    condition_list(items, workspace)
}

/// Parses each of `items`, stopping at the first invalid one.
fn condition_list(items: &Vec<WireValue>, workspace: &str) -> (r: Result<Vec<Condition>, TaskError>)
    ensures
        (forall|i: int| 0 <= i < items@.len() ==> (#[trigger] spec_parse_condition(items@[i], workspace@)) is Some)
            ==> (r matches Ok(v) && v@.map_values(|c: Condition| c@) == Seq::new(items@.len(), |i: int| spec_parse_condition(items@[i], workspace@)->0)),
        !(forall|i: int| 0 <= i < items@.len() ==> (#[trigger] spec_parse_condition(items@[i], workspace@)) is Some)
            ==> r == Err::<Vec<Condition>, TaskError>(TaskError::InvalidCondition),
{
    let ghost target = Seq::new(items@.len(), |i: int| spec_parse_condition(items@[i], workspace@)->0);
    let mut out: Vec<Condition> = Vec::new();
    let mut i: usize = 0;
    assert(out@.map_values(|c: Condition| c@) =~= target.take(0));
    while i < items.len()
        invariant
            i <= items@.len(),
            target == Seq::new(items@.len(), |i: int| spec_parse_condition(items@[i], workspace@)->0),
            forall|k: int| 0 <= k < i ==> (#[trigger] spec_parse_condition(items@[k], workspace@)) is Some,
            out@.map_values(|c: Condition| c@) == target.take(i as int),
        decreases items@.len() - i,
    {
        let c = match Condition::parse(&items[i], workspace) {
            Ok(c) => c,
            Err(e) => return Err(e),
        };
        let ghost before = out@;
        out.push(c);
        proof {
            assert(c@ == target[i as int]);
            crate::text::lemma_map_values_push(before, c, |c: Condition| c@);
            assert(target.take(i + 1) =~= target.take(i as int).push(target[i as int]));
        }
        i = i + 1;
    }
    assert(target.take(items@.len() as int) =~= target);
    Ok(out)
}

/// The distinct nonempty ids among the first `n` items, in first-seen order;
/// nothing when an item is not a nonempty string.
pub open spec fn spec_handle_ids_prefix(items: Seq<WireValue>, n: int) -> Option<Seq<Seq<char>>>
    decreases n,
{
    if n <= 0 {
        Some(Seq::empty())
    } else {
        match spec_handle_ids_prefix(items, n - 1) {
            None => None,
            Some(ids) => match items[n - 1] {
                WireValue::Str(s) => if s@.len() == 0 {
                    None
                } else if ids.contains(s@) {
                    Some(ids)
                } else {
                    Some(ids.push(s@))
                },
                _ => None,
            },
        }
    }
}

proof fn lemma_handle_ids_failure_persists(items: Seq<WireValue>, i: int, n: int)
    requires
        0 <= i <= n,
        spec_handle_ids_prefix(items, i) is None,
    ensures
        spec_handle_ids_prefix(items, n) is None,
    decreases n - i,
{
    if n > i {
        lemma_handle_ids_failure_persists(items, i, n - 1);
    }
}

/// The candidates of `jobs.next_completed`: a list of nonempty ids, each kept once
/// in the order first named. The host always names them; none are guessed.
pub fn handle_ids(value: Option<&WireValue>) -> (r: Result<Vec<String>, TaskError>)
    ensures
        match value {
            Some(WireValue::Array(items)) => match spec_handle_ids_prefix(items@, items@.len() as int) {
                Some(ids) => r matches Ok(v) && v@.map_values(|s: String| s@) == ids,
                None => r == Err::<Vec<String>, TaskError>(TaskError::InvalidHandleIds),
            },
            _ => r == Err::<Vec<String>, TaskError>(TaskError::InvalidHandleIds),
        },
{
    match value {
        Some(WireValue::Array(items)) => handle_id_list(items),
        _ => Err(TaskError::InvalidHandleIds),
    }
}

fn handle_id_list(items: &Vec<WireValue>) -> (r: Result<Vec<String>, TaskError>)
    ensures
        match spec_handle_ids_prefix(items@, items@.len() as int) {
            Some(ids) => r matches Ok(v) && v@.map_values(|s: String| s@) == ids,
            None => r == Err::<Vec<String>, TaskError>(TaskError::InvalidHandleIds),
        },
{
    let mut ids: Vec<String> = Vec::new();
    let mut i: usize = 0;
    assert(ids@.map_values(|s: String| s@) =~= Seq::<Seq<char>>::empty());
    while i < items.len()
        invariant
            i <= items@.len(),
            spec_handle_ids_prefix(items@, i as int) == Some(ids@.map_values(|s: String| s@)),
        decreases items@.len() - i,
    {
        let id = match &items[i] {
            WireValue::Str(s) => s,
            _ => {
                proof { lemma_handle_ids_failure_persists(items@, i + 1, items@.len() as int); }
                return Err(TaskError::InvalidHandleIds);
            },
        };
        if id.as_str().is_empty() {
            proof { lemma_handle_ids_failure_persists(items@, i + 1, items@.len() as int); }
            return Err(TaskError::InvalidHandleIds);
        }
        let mut seen = false;
        let mut j: usize = 0;
        while j < ids.len()
            invariant
                j <= ids@.len(),
                seen <==> exists|k: int| 0 <= k < j && #[trigger] ids@[k]@ == id@,
            decreases ids@.len() - j,
        {
            if text_equal(ids[j].as_str(), id.as_str()) {
                seen = true;
            }
            j = j + 1;
        }
        let ghost before = ids@.map_values(|s: String| s@);
        proof {
            if seen {
                let k = choose|k: int| 0 <= k < ids@.len() && #[trigger] ids@[k]@ == id@;
                assert(before[k] == id@);
            } else {
                assert forall|k: int| 0 <= k < before.len() implies before[k] != id@ by {
                    assert(before[k] == ids@[k]@);
                }
            }
        }
        if !seen {
            ids.push(id.clone());
        }
        assert(ids@.map_values(|s: String| s@) =~= spec_handle_ids_prefix(items@, i + 1)->0);
        i = i + 1;
    }
    Ok(ids)
}

/// Why a condition did not fire.
#[derive(Debug, Clone, Copy, PartialEq, Eq, Structural)]
pub enum WaitReason {
    Deadline,
    Pending,
    Exited,
    Error,
    Unsupported,
}

/// What became of one watched condition.
#[derive(Debug, Clone, Copy, PartialEq, Eq, Structural)]
pub struct Outcome {
    pub fired: bool,
    pub reason: Option<WaitReason>,
}

/// The outcome reported for a condition: its watcher's, or, when the watcher did
/// not finish, `deadline` if the wait expired and `pending` otherwise.
pub fn settle_outcome(outcome: Option<Outcome>, expired: bool) -> (r: Outcome)
    ensures
        r == match outcome {
            Some(o) => o,
            None => Outcome {
                fired: false,
                reason: Some(if expired { WaitReason::Deadline } else { WaitReason::Pending }),
            },
        },
{
    match outcome {
        Some(o) => o,
        None => Outcome {
            fired: false,
            reason: Some(if expired { WaitReason::Deadline } else { WaitReason::Pending }),
        },
    }
}

/// A condition that can no longer fire.
pub open spec fn settled(o: Outcome) -> bool {
    o.reason == Some(WaitReason::Exited) || o.reason == Some(WaitReason::Error) || o.reason
        == Some(WaitReason::Unsupported)
}

/// The status of a wait: `fired` when any condition fired, `unfired` when none
/// can fire any more, otherwise `timeout`.
pub open spec fn spec_wait_status(entries: Seq<Outcome>) -> crate::types::WaitForResultStatusView {
    if exists|i: int| 0 <= i < entries.len() && (#[trigger] entries[i]).fired {
        crate::types::WaitForResultStatusView::Fired
    } else if forall|i: int| 0 <= i < entries.len() ==> settled(#[trigger] entries[i]) {
        crate::types::WaitForResultStatusView::Unfired
    } else {
        crate::types::WaitForResultStatusView::Timeout
    }
}

/// A wait in which nothing fired and every condition ended for good (its
/// process exited, its watch failed, or it cannot be watched) is unfired, never a
/// timeout; a timeout leaves some condition that could still have fired; and a
/// wait is fired exactly when some condition fired.
pub proof fn law_wait_status_by_outcomes(entries: Seq<Outcome>)
    ensures
        (forall|i: int| 0 <= i < entries.len() ==> !(#[trigger] entries[i]).fired && (entries[i].reason == Some(
            WaitReason::Exited,
        ) || entries[i].reason == Some(WaitReason::Error) || entries[i].reason == Some(WaitReason::Unsupported)))
            ==> spec_wait_status(entries) == crate::types::WaitForResultStatusView::Unfired,
        spec_wait_status(entries) == crate::types::WaitForResultStatusView::Timeout ==> exists|i: int|
            0 <= i < entries.len() && !(#[trigger] entries[i]).fired && entries[i].reason != Some(WaitReason::Exited)
                && entries[i].reason != Some(WaitReason::Error) && entries[i].reason != Some(
                WaitReason::Unsupported,
            ),
        (spec_wait_status(entries) == crate::types::WaitForResultStatusView::Fired) == (exists|i: int|
            0 <= i < entries.len() && (#[trigger] entries[i]).fired),
{
}

/// The status of a wait whose conditions ended as `entries`.
pub fn wait_status(entries: &Vec<Outcome>) -> (r: WaitForResultStatus)
    ensures
        r@ == spec_wait_status(entries@),
{
    let mut i: usize = 0;
    while i < entries.len()
        invariant
            i <= entries@.len(),
            forall|k: int| 0 <= k < i ==> !(#[trigger] entries@[k]).fired,
        decreases entries@.len() - i,
    {
        if entries[i].fired {
            return WaitForResultStatus::Fired;
        }
        i = i + 1;
    }
    let mut j: usize = 0;
    while j < entries.len()
        invariant
            j <= entries@.len(),
            forall|k: int| 0 <= k < entries@.len() ==> !(#[trigger] entries@[k]).fired,
            forall|k: int| 0 <= k < j ==> settled(#[trigger] entries@[k]),
        decreases entries@.len() - j,
    {
        let o = entries[j];
        let done = match o.reason {
            Some(WaitReason::Exited) | Some(WaitReason::Error) | Some(WaitReason::Unsupported) => true,
            _ => false,
        };
        if !done {
            assert(!settled(entries@[j as int]));
            return WaitForResultStatus::Timeout;
        }
        j = j + 1;
    }
    WaitForResultStatus::Unfired
}

/// The first of the candidates whose exit fired, and the others, still pending,
/// in order; nothing when none fired.
pub fn split_completed(candidates: &Vec<String>, fired: &Vec<bool>) -> (r: Option<(usize, Vec<String>)>)
    requires
        candidates@.len() == fired@.len(),
    ensures
        match r {
            None => forall|k: int| 0 <= k < fired@.len() ==> !#[trigger] fired@[k],
            Some((i, pending)) => {
                &&& i < fired@.len()
                &&& fired@[i as int]
                &&& forall|k: int| 0 <= k < i ==> !#[trigger] fired@[k]
                &&& pending@.map_values(|s: String| s@) == candidates@.remove(i as int).map_values(|s: String| s@)
            },
        },
{
    let mut i: usize = 0;
    while i < fired.len()
        invariant
            candidates@.len() == fired@.len(),
            i <= fired@.len(),
            forall|k: int| 0 <= k < i ==> !#[trigger] fired@[k],
        decreases fired@.len() - i,
    {
        if fired[i] {
            return Some((i, all_but(candidates, i)));
        }
        i = i + 1;
    }
    None
}

/// The answer to a wait for the next completed process: the process whose notice
/// is reported, if one finished, and the candidates still pending.
#[derive(Debug)]
pub struct NextCompletedAnswer {
    pub completed: Option<String>,
    pub pending: Vec<String>,
}

/// The answer of a wait for the next of `candidates` to complete, `fired` telling
/// which exits fired: the first that fired, with every other candidate pending in
/// order; or none completed and every candidate pending.
pub fn next_completed_answer(candidates: &Vec<String>, fired: &Vec<bool>) -> (r: NextCompletedAnswer)
    requires
        candidates@.len() == fired@.len(),
    ensures
        (forall|k: int| 0 <= k < fired@.len() ==> !#[trigger] fired@[k]) ==> r.completed is None
            && r.pending@.map_values(|s: String| s@) == candidates@.map_values(|s: String| s@),
        (exists|k: int| 0 <= k < fired@.len() && #[trigger] fired@[k]) ==> exists|i: int| {
            &&& 0 <= i < fired@.len()
            &&& fired@[i]
            &&& (forall|k: int| 0 <= k < i ==> !#[trigger] fired@[k])
            &&& (r.completed matches Some(c) && c@ == candidates@[i]@)
            &&& r.pending@.map_values(|s: String| s@) == candidates@.remove(i).map_values(|s: String| s@)
        },
{
    match split_completed(candidates, fired) {
        None => {
            let mut all: Vec<String> = Vec::new();
            let mut j: usize = 0;
            while j < candidates.len()
                invariant
                    j <= candidates@.len(),
                    all@.map_values(|s: String| s@) == candidates@.take(j as int).map_values(|s: String| s@),
                decreases candidates@.len() - j,
            {
                let mut copy = String::new();
                crate::text::append_text(&mut copy, candidates[j].as_str());
                proof {
                    crate::text::lemma_map_values_push(all@, copy, |s: String| s@);
                }
                all.push(copy);
                j = j + 1;
                assert(all@.map_values(|s: String| s@) =~= candidates@.take(j as int).map_values(|s: String| s@));
            }
            assert(candidates@.take(candidates@.len() as int) =~= candidates@);
            NextCompletedAnswer { completed: None, pending: all }
        },
        Some((i, pending)) => {
            let mut id = String::new();
            crate::text::append_text(&mut id, candidates[i].as_str());
            NextCompletedAnswer { completed: Some(id), pending }
        },
    }
}

/// The items of `v` other than the one at `skip`, in order.
fn all_but(v: &Vec<String>, skip: usize) -> (r: Vec<String>)
    requires
        skip < v@.len(),
    ensures
        r@.map_values(|s: String| s@) == v@.remove(skip as int).map_values(|s: String| s@),
{
    let ghost rest = v@.remove(skip as int);
    let mut out: Vec<String> = Vec::new();
    let mut j: usize = 0;
    assert(out@.map_values(|s: String| s@) =~= rest.take(0).map_values(|s: String| s@));
    while j < v.len()
        invariant
            skip < v@.len(),
            rest == v@.remove(skip as int),
            j <= v@.len(),
            j <= skip ==> out@.map_values(|s: String| s@) == rest.take(j as int).map_values(|s: String| s@),
            j > skip ==> out@.map_values(|s: String| s@) == rest.take(j - 1).map_values(|s: String| s@),
        decreases v@.len() - j,
    {
        if j != skip {
            let ghost before = out@;
            let x = v[j].clone();
            out.push(x);
            proof {
                crate::text::lemma_map_values_push(before, x, |s: String| s@);
                if j < skip {
                    assert(rest[j as int] == v@[j as int]);
                    assert(rest.take(j + 1) =~= rest.take(j as int).push(rest[j as int]));
                    crate::text::lemma_map_values_push(rest.take(j as int), rest[j as int], |s: String| s@);
                } else {
                    assert(rest[j - 1] == v@[j as int]);
                    assert(rest.take(j as int) =~= rest.take(j - 1).push(rest[j - 1]));
                    crate::text::lemma_map_values_push(rest.take(j - 1), rest[j - 1], |s: String| s@);
                }
            }
        }
        j = j + 1;
    }
    assert(rest.take(v@.len() - 1) =~= rest);
    out
}

/// How much of a completed process's output a notice carries: `tail_bytes`, by
/// default 1024; zero is refused.
pub fn tail_bytes(args: &Vec<(String, WireValue)>) -> (r: Result<u64, TaskError>)
    ensures
        match spec_integer_arg(args@, "tail_bytes"@, 1024) {
            Err(e) => r == Err::<u64, TaskError>(e),
            Ok(n) => if n == 0 {
                r == Err::<u64, TaskError>(TaskError::InvalidTail)
            } else {
                r == Ok::<u64, TaskError>(n)
            },
        },
{
    let n = integer_arg(args, "tail_bytes", 1024)?;
    if n == 0 {
        return Err(TaskError::InvalidTail);
    }
    Ok(n)
}

/// A command that is only white space is empty.
pub open spec fn blank(s: Seq<char>) -> bool {
    forall|i: int| 0 <= i < s.len() ==> is_white(#[trigger] s[i])
}

/// Whether `s` is only white space, so empty once trimmed.
pub fn is_blank(s: &str) -> (r: bool)
    ensures
        r == blank(s@),
{
    let c = chars_of(s);
    let mut i: usize = 0;
    while i < c.len()
        invariant
            i <= c@.len(),
            c@ == s@,
            forall|k: int| 0 <= k < i ==> is_white(#[trigger] c@[k]),
        decreases c@.len() - i,
    {
        if !white(c[i]) {
            return false;
        }
        i = i + 1;
    }
    true
}

/// A process to start: the shell command and its working directory.
#[derive(Debug)]
pub struct StartRequest {
    pub command: String,
    pub cwd: String,
}

/// Reads a `bash.start` request in `workspace`: only `command`, `cwd` and `env`; a
/// command that is not blank; a working directory, `.` by default, resolved
/// against the workspace. The environment is read by [`task_env`].
pub fn start_request(args: &Vec<(String, WireValue)>, workspace: &str) -> (r: Result<StartRequest, TaskError>)
    ensures
        !spec_allowed(args@, seq!["command", "cwd", "env"]) ==> r == Err::<StartRequest, TaskError>(TaskError::UnknownArguments),
        spec_allowed(args@, seq!["command", "cwd", "env"]) ==> match spec_string_arg(args@, "command"@) {
            None => r == Err::<StartRequest, TaskError>(TaskError::MissingString),
            Some(c) => if blank(c) {
                r == Err::<StartRequest, TaskError>(TaskError::EmptyCommand)
            } else {
                match member(args@, "cwd"@) {
                    None => r matches Ok(x) && x.command@ == c && x.cwd@ == spec_resolve(workspace@, "."@),
                    Some(WireValue::Str(d)) => r matches Ok(x) && x.command@ == c && x.cwd@ == spec_resolve(workspace@, d@),
                    Some(_) => r == Err::<StartRequest, TaskError>(TaskError::CwdNotString),
                }
            },
        },
{
    let names: [&str; 3] = ["command", "cwd", "env"];
    assert(names@ == seq!["command", "cwd", "env"]);
    allowed(args, names.as_slice())?;
    let command = string_arg(args, "command")?;
    if is_blank(command) {
        return Err(TaskError::EmptyCommand);
    }
    let cwd: &str = match get_member(args, "cwd") {
        None => ".",
        Some(v) => match v.as_str() {
            Some(d) => d,
            None => return Err(TaskError::CwdNotString),
        },
    };
    Ok(StartRequest { command: command.to_owned(), cwd: resolve(workspace, cwd) })
}

/// The operations a task may ask of the executor.
#[derive(Debug, Clone, Copy, PartialEq, Eq, Structural)]
pub enum TaskMethod {
    Run,
    WriteText,
    Start,
    Read,
    Wait,
    WaitFor,
    NextCompleted,
    Cancel,
}

/// The operation a method name selects.
pub open spec fn spec_task_method(method: Seq<char>) -> Option<TaskMethod> {
    if method == "bash.run"@ {
        Some(TaskMethod::Run)
    } else if method == "workspace.write_text"@ {
        Some(TaskMethod::WriteText)
    } else if method == "bash.start"@ {
        Some(TaskMethod::Start)
    } else if method == "bash.read"@ {
        Some(TaskMethod::Read)
    } else if method == "bash.wait"@ {
        Some(TaskMethod::Wait)
    } else if method == "bash.wait_for"@ {
        Some(TaskMethod::WaitFor)
    } else if method == "jobs.next_completed"@ {
        Some(TaskMethod::NextCompleted)
    } else if method == "bash.cancel"@ {
        Some(TaskMethod::Cancel)
    } else {
        None
    }
}

/// The operation `method` names; any other method is unsupported.
pub fn task_method(method: &str) -> (r: Option<TaskMethod>)
    ensures
        r == spec_task_method(method@),
{
    if text_equal(method, "bash.run") {
        Some(TaskMethod::Run)
    } else if text_equal(method, "workspace.write_text") {
        Some(TaskMethod::WriteText)
    } else if text_equal(method, "bash.start") {
        Some(TaskMethod::Start)
    } else if text_equal(method, "bash.read") {
        Some(TaskMethod::Read)
    } else if text_equal(method, "bash.wait") {
        Some(TaskMethod::Wait)
    } else if text_equal(method, "bash.wait_for") {
        Some(TaskMethod::WaitFor)
    } else if text_equal(method, "jobs.next_completed") {
        Some(TaskMethod::NextCompleted)
    } else if text_equal(method, "bash.cancel") {
        Some(TaskMethod::Cancel)
    } else {
        None
    }
}

/// The member `key` of an object holds the text `text`.
pub open spec fn holds_text(members: Seq<(String, WireValue)>, i: int, key: Seq<char>, text: Seq<char>) -> bool {
    &&& members[i].0@ == key
    &&& members[i].1 matches WireValue::Str(s) && s@ == text
}

/// The answer to an operation on a process handle the executor does not know: an
/// error naming the handle, with advice to use the process id, not a tool-call id.
pub fn unknown_handle_result(handle_id: &str) -> (r: WireValue)
    ensures
        r matches WireValue::Object(m) && m@.len() == 3 && holds_text(m@, 0, "status"@, "error"@)
            && holds_text(m@, 1, "handle_id"@, handle_id@) && m@[2].0@ == "error"@
            && (m@[2].1 matches WireValue::Object(e) && e@.len() == 2
            && holds_text(e@, 0, "code"@, "unknown_process_handle"@)
            && holds_text(e@, 1, "message"@,
                "Use the process id returned by bash.run or bash.start, not a tool-call id."@)),
{
    let mut error: Vec<(String, WireValue)> = Vec::new();
    error.push(("code".to_string(), WireValue::Str("unknown_process_handle".to_string())));
    error.push((
        "message".to_string(),
        WireValue::Str("Use the process id returned by bash.run or bash.start, not a tool-call id.".to_string()),
    ));
    let mut members: Vec<(String, WireValue)> = Vec::new();
    members.push(("status".to_string(), WireValue::Str("error".to_string())));
    members.push(("handle_id".to_string(), WireValue::Str(handle_id.to_string())));
    members.push(("error".to_string(), WireValue::Object(error)));
    WireValue::Object(members)
}

/// Text to write into the workspace: the file and its new content.
#[derive(Debug)]
pub struct WriteTextRequest {
    pub path: String,
    pub text: String,
}

/// Reads a `workspace.write_text` request in `workspace`: only `path` and `text`,
/// both strings; the path is resolved against the workspace.
pub fn write_text_request(args: &Vec<(String, WireValue)>, workspace: &str) -> (r: Result<WriteTextRequest, TaskError>)
    ensures
        !spec_allowed(args@, seq!["path", "text"]) ==> r == Err::<WriteTextRequest, TaskError>(
            TaskError::UnknownArguments,
        ),
        spec_allowed(args@, seq!["path", "text"]) ==> match (spec_string_arg(args@, "path"@), spec_string_arg(
            args@,
            "text"@,
        )) {
            (Some(p), Some(t)) => r matches Ok(x) && x.path@ == spec_resolve(workspace@, p) && x.text@ == t,
            _ => r == Err::<WriteTextRequest, TaskError>(TaskError::MissingString),
        },
{
    let names: [&str; 2] = ["path", "text"];
    assert(names@ == seq!["path", "text"]);
    allowed(args, names.as_slice())?;
    let path = string_arg(args, "path")?;
    let text = string_arg(args, "text")?;
    Ok(WriteTextRequest { path: resolve(workspace, path), text: text.to_owned() })
}

/// The inherited environment a task sees: every variable but the executor's own.
pub open spec fn spec_base_env(base: Seq<(String, String)>) -> Map<Seq<char>, Seq<char>>
    decreases base.len(),
{
    if base.len() == 0 {
        Map::empty()
    } else {
        let m = spec_base_env(base.drop_last());
        let (k, v) = base.last();
        if is_control_variable(k@) {
            m
        } else {
            m.insert(k@, v@)
        }
    }
}

/// `env` applied over `m`: each variable the task names, but the executor's own.
pub open spec fn spec_env_overrides(m: Map<Seq<char>, Seq<char>>, members: Seq<(String, WireValue)>) -> Map<Seq<char>, Seq<char>>
    decreases members.len(),
{
    if members.len() == 0 {
        m
    } else {
        let prev = spec_env_overrides(m, members.drop_last());
        let (k, v) = members.last();
        match v {
            WireValue::Str(s) => if is_control_variable(k@) {
                prev
            } else {
                prev.insert(k@, s@)
            },
            _ => prev,
        }
    }
}

/// Every value of `env` is a string.
pub open spec fn all_strings(members: Seq<(String, WireValue)>) -> bool {
    forall|i: int| 0 <= i < members.len() ==> (#[trigger] members[i]).1 is Str
}

/// The environment of a task: the inherited `base` without the executor's own
/// variables, with the task's `env` object applied over it, again without them.
/// Later pairs of the result override earlier ones.
pub fn task_env(base: &Vec<(String, String)>, value: Option<&WireValue>) -> (r: Result<Vec<(String, String)>, TaskError>)
    ensures
        match value {
            None => r matches Ok(v) && pairs_map(v@) == spec_base_env(base@),
            Some(WireValue::Object(members)) => if all_strings(members@) {
                r matches Ok(v) && pairs_map(v@) == spec_env_overrides(spec_base_env(base@), members@)
            } else {
                r == Err::<Vec<(String, String)>, TaskError>(TaskError::EnvValueNotString)
            },
            Some(_) => r == Err::<Vec<(String, String)>, TaskError>(TaskError::EnvNotObject),
        },
{
    let mut env: Vec<(String, String)> = Vec::new();
    let mut i: usize = 0;
    while i < base.len()
        invariant
            i <= base@.len(),
            pairs_map(env@) == spec_base_env(base@.take(i as int)),
        decreases base@.len() - i,
    {
        assert(base@.take(i + 1).drop_last() =~= base@.take(i as int));
        let (k, v) = (&base[i].0, &base[i].1);
        if !control_variable(k.as_str()) {
            let ghost before = env@;
            env.push((k.clone(), v.clone()));
            assert(env@.drop_last() =~= before);
        }
        i = i + 1;
    }
    assert(base@.take(base@.len() as int) =~= base@);
    let members = match value {
        None => return Ok(env),
        Some(WireValue::Object(members)) => members,
        Some(_) => return Err(TaskError::EnvNotObject),
    };
    let ghost start = pairs_map(env@);
    let mut j: usize = 0;
    while j < members.len()
        invariant
            j <= members@.len(),
            value matches Some(WireValue::Object(m)) && m@ == members@,
            all_strings(members@.take(j as int)),
            pairs_map(env@) == spec_env_overrides(start, members@.take(j as int)),
        decreases members@.len() - j,
    {
        assert(members@.take(j + 1).drop_last() =~= members@.take(j as int));
        let k = &members[j].0;
        let text = match &members[j].1 {
            WireValue::Str(s) => s,
            _ => {
                assert(!all_strings(members@)) by { assert(members@[j as int].1 !is Str); }
                return Err(TaskError::EnvValueNotString);
            },
        };
        if !control_variable(k.as_str()) {
            let ghost before = env@;
            env.push((k.clone(), text.clone()));
            assert(env@.drop_last() =~= before);
        }
        j = j + 1;
        assert(all_strings(members@.take(j as int))) by {
            assert forall|x: int| 0 <= x < j implies (#[trigger] members@.take(j as int)[x]).1 is Str by {
                if x < j - 1 {
                    assert(members@.take(j as int)[x] == members@.take(j - 1)[x]);
                }
            }
        }
    }
    assert(members@.take(members@.len() as int) =~= members@);
    Ok(env)
}


proof fn lemma_base_env_clean(base: Seq<(String, String)>)
    ensures
        forall|k: Seq<char>| #[trigger] spec_base_env(base).dom().contains(k) ==> !is_control_variable(k),
    decreases base.len(),
{
    if base.len() > 0 {
        let rest = base.drop_last();
        lemma_base_env_clean(rest);
        assert forall|k: Seq<char>| #[trigger] spec_base_env(base).dom().contains(k) implies !is_control_variable(k) by {
            if spec_base_env(rest).dom().contains(k) {
            }
        }
    }
}

proof fn lemma_overrides_clean(m: Map<Seq<char>, Seq<char>>, members: Seq<(String, WireValue)>)
    requires
        forall|k: Seq<char>| #[trigger] m.dom().contains(k) ==> !is_control_variable(k),
    ensures
        forall|k: Seq<char>| #[trigger] spec_env_overrides(m, members).dom().contains(k) ==> !is_control_variable(k),
    decreases members.len(),
{
    if members.len() > 0 {
        let rest = members.drop_last();
        lemma_overrides_clean(m, rest);
        assert forall|k: Seq<char>| #[trigger] spec_env_overrides(m, members).dom().contains(k) implies !is_control_variable(k) by {
            if spec_env_overrides(m, rest).dom().contains(k) {
            }
        }
    }
}

/// A task never sees one of the executor's own variables: whatever the executor
/// inherited and whatever the task's `env` names, no `SIKARU_` variable remains.
pub proof fn law_task_env_omits_control_variables(base: Seq<(String, String)>, members: Seq<(String, WireValue)>)
    ensures
        forall|k: Seq<char>| #[trigger] spec_base_env(base).dom().contains(k) ==> !is_control_variable(k),
        forall|k: Seq<char>| #[trigger] spec_env_overrides(spec_base_env(base), members).dom().contains(k)
            ==> !is_control_variable(k),
{
    lemma_base_env_clean(base);
    lemma_overrides_clean(spec_base_env(base), members);
}

} // verus!
