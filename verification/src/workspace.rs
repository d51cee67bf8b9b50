//! Frozen workspace capture: the rules a capture keeps, its staging identity,
//! its traversal budget and the chunks a saved capture lists.
use vstd::prelude::*;
use vstd::string::StringSliceAdditionalSpecFns;
use vstd::utf8::encode_utf8;
use crate::deps::{sha256_hex, sha256_hex_of};
use crate::text::{append_text, chars_of, is_lower_hex_text, lower_hex_text, starts_with, text_equal};
use crate::value::{WireValue, get_member, member};
use crate::pairs::{find_key, keys_distinct, pairs_map, lemma_pairs_map_contains, lemma_pairs_map_index, lemma_pairs_map_push};
use crate::tasks::field;

verus! {

/// Why a capture or a saved capture was refused.
#[derive(Debug, Clone, Copy, PartialEq, Eq, Structural)]
pub enum WorkspaceError {
    InvalidDigest,
    UnsupportedPath,
    StateInsideWorkspace,
    DepthLimit,
    EntryLimit,
    NotARegularFile,
    SizeOverflow,
    CaptureLimits,
    FileChanged,
    ManifestTooLarge,
    InvalidSaved,
    InvalidSavedChunks,
    InvalidSavedDigest,
    InvalidSavedSize,
    InvalidSavedChunkSize,
    ConflictingChunkSizes,
    IntegrityFailure,
    NotPrivate,
    ChangedDuringCapture,
}

impl WorkspaceError {
    /// The message reported for this refusal.
    pub fn message(&self) -> (r: &'static str)
        ensures
            *self == WorkspaceError::EntryLimit ==> r@ == "workspace exceeds traversal entry limit"@,
            *self == WorkspaceError::InvalidDigest ==> r@ == "invalid workspace digest"@,
            *self == WorkspaceError::UnsupportedPath ==> r@ == "unsupported workspace path"@,
            *self == WorkspaceError::ChangedDuringCapture ==> r@
                == "workspace changed during capture; no checkpoint was published"@,
    {
        match self {
            WorkspaceError::InvalidDigest => "invalid workspace digest",
            WorkspaceError::UnsupportedPath => "unsupported workspace path",
            WorkspaceError::StateInsideWorkspace => "private executor state must be outside the task workspace",
            WorkspaceError::DepthLimit => "workspace exceeds directory depth limit",
            WorkspaceError::EntryLimit => "workspace exceeds traversal entry limit",
            WorkspaceError::NotARegularFile => "workspace requires regular files",
            WorkspaceError::SizeOverflow => "workspace size overflow",
            WorkspaceError::CaptureLimits => "workspace exceeds capture limits",
            WorkspaceError::FileChanged => "workspace file changed during capture",
            WorkspaceError::ManifestTooLarge => "workspace manifest exceeds size limit",
            WorkspaceError::InvalidSaved => "invalid saved workspace",
            WorkspaceError::InvalidSavedChunks => "invalid saved chunks",
            WorkspaceError::InvalidSavedDigest => "invalid saved digest",
            WorkspaceError::InvalidSavedSize => "invalid saved size",
            WorkspaceError::InvalidSavedChunkSize => "invalid saved chunk size",
            WorkspaceError::ConflictingChunkSizes => "conflicting saved chunk sizes",
            WorkspaceError::IntegrityFailure => "workspace staging integrity failure",
            WorkspaceError::NotPrivate => "workspace staging is not private",
            WorkspaceError::ChangedDuringCapture => "workspace changed during capture; no checkpoint was published",
        }
    }
}

/// The largest chunk, in bytes.
pub const CHUNK: u64 = 1000000;
/// The most bytes one capture holds.
pub const MAX_BYTES: u64 = 1073741824;
/// The most entries one capture visits.
pub const MAX_ENTRIES: u64 = 100000;
/// The deepest directory one capture enters.
pub const MAX_DEPTH: u64 = 128;
/// The most files one capture holds.
pub const MAX_FILES: u64 = 50000;
/// The largest saved manifest, in bytes.
pub const MANIFEST_LIMIT: u64 = 8000000;

/// Accepts a chunk or file digest: 64 lowercase hexadecimal digits.
pub fn validate_hash(value: &str) -> (r: Result<(), WorkspaceError>)
    ensures
        r is Ok <==> is_lower_hex_text(value@, 64),
        r is Err ==> r == Err::<(), WorkspaceError>(WorkspaceError::InvalidDigest),
{
    if lower_hex_text(value, 64) {
        Ok(())
    } else {
        Err(WorkspaceError::InvalidDigest)
    }
}

/// A Unicode control character (general category Cc).
pub open spec fn is_control(c: char) -> bool {
    c <= '\u{1f}' || ('\u{7f}' <= c && c <= '\u{9f}')
}

/// A workspace path a capture keeps: at most 512 bytes in UTF-8, with no control
/// character and no backslash.
pub open spec fn spec_valid_path(path: Seq<char>) -> bool {
    encode_utf8(path).len() <= 512 && forall|i: int| 0 <= i < path.len() ==> !is_control(#[trigger] path[i])
        && path[i] != '\\'
}

/// Accepts a relative workspace path a capture can keep.
pub fn validate_path(path: &str) -> (r: Result<(), WorkspaceError>)
    ensures
        r is Ok <==> spec_valid_path(path@),
        r is Err ==> r == Err::<(), WorkspaceError>(WorkspaceError::UnsupportedPath),
{
    if path.as_bytes().len() > 512 {
        return Err(WorkspaceError::UnsupportedPath);
    }
    let c = chars_of(path);
    let mut i: usize = 0;
    while i < c.len()
        invariant
            i <= c@.len(),
            c@ == path@,
            encode_utf8(path@).len() <= 512,
            forall|k: int| 0 <= k < i ==> !is_control(#[trigger] c@[k]) && c@[k] != '\\',
        decreases c@.len() - i,
    {
        let ch = c[i];
        if ch <= '\u{1f}' || ('\u{7f}' <= ch && ch <= '\u{9f}') || ch == '\\' {
            return Err(WorkspaceError::UnsupportedPath);
        }
        i = i + 1;
    }
    Ok(())
}

/// Whether the canonical path `inner` is `root` or lies below it.
pub open spec fn spec_within(inner: Seq<char>, root: Seq<char>) -> bool {
    inner == root || (root.len() > 0 && root.last() == '/' && starts_with(inner, root)) || starts_with(
        inner,
        root + seq!['/'],
    )
}

/// Whether the canonical path `inner` is `root` or lies below it, comparing whole
/// components as `Path::starts_with` does for canonical paths.
pub fn within(inner: &str, root: &str) -> (r: bool)
    ensures
        r == spec_within(inner@, root@),
{
    let a = chars_of(inner);
    let b = chars_of(root);
    if crate::text::chars_equal(a.as_slice(), b.as_slice()) {
        return true;
    }
    if b.len() > 0 && b[b.len() - 1] == '/' && crate::text::has_prefix(a.as_slice(), b.as_slice()) {
        return true;
    }
    let mut with_sep = b.clone();
    with_sep.push('/');
    assert(with_sep@ == root@ + seq!['/']);
    crate::text::has_prefix(a.as_slice(), with_sep.as_slice())
}

/// Refuses private executor state inside the task workspace, both canonical.
pub fn state_outside(state: &str, workspace: &str) -> (r: Result<(), WorkspaceError>)
    ensures
        r is Ok <==> !spec_within(state@, workspace@),
        r is Err ==> r == Err::<(), WorkspaceError>(WorkspaceError::StateInsideWorkspace),
{
    if within(state, workspace) {
        Err(WorkspaceError::StateInsideWorkspace)
    } else {
        Ok(())
    }
}

/// The staging directory of the capture for `identity`.
pub open spec fn staging_name_of(identity: Seq<char>) -> Seq<char> {
    "workspace-"@ + sha256_hex_of(encode_utf8(identity))
}

/// The name of the staging directory of the capture for checkpoint `identity`:
/// `workspace-` and the SHA-256 of the identity.
pub fn staging_name(identity: &str) -> (r: String)
    ensures
        r@ == staging_name_of(identity@),
{
    let mut name = String::new();
    append_text(&mut name, "workspace-");
    let digest = sha256_hex(identity.as_bytes());
    append_text(&mut name, digest.as_str());
    name
}

/// Checks a staged chunk read back under `hash`: it has the recorded `size` and
/// the recorded digest.
pub fn check_chunk(hash: &str, size: u64, bytes: &[u8]) -> (r: Result<(), WorkspaceError>)
    ensures
        !is_lower_hex_text(hash@, 64) ==> r == Err::<(), WorkspaceError>(WorkspaceError::InvalidDigest),
        is_lower_hex_text(hash@, 64) ==> (r is Ok <==> (bytes@.len() == size && sha256_hex_of(bytes@) == hash@)),
        is_lower_hex_text(hash@, 64) && r is Err ==> r == Err::<(), WorkspaceError>(WorkspaceError::IntegrityFailure),
{
    validate_hash(hash)?;
    if bytes.len() as u64 != size {
        return Err(WorkspaceError::IntegrityFailure);
    }
    let digest = sha256_hex(bytes);
    if !text_equal(digest.as_str(), hash) {
        return Err(WorkspaceError::IntegrityFailure);
    }
    Ok(())
}

/// The metadata a capture compares: identity, size, times and mode.
#[derive(Debug, Clone, Copy, PartialEq, Eq, Structural)]
pub struct NodeStat {
    pub dev: u64,
    pub ino: u64,
    pub len: u64,
    pub mtime: i64,
    pub mtime_nsec: i64,
    pub ctime: i64,
    pub ctime_nsec: i64,
    pub mode: u32,
    pub nlink: u64,
    pub uid: u32,
    pub is_file: bool,
    pub is_dir: bool,
}

/// Whether both observations are of the same file system node.
pub fn same_node(a: &NodeStat, b: &NodeStat) -> (r: bool)
    ensures
        r == (a.dev == b.dev && a.ino == b.ino),
{
    a.dev == b.dev && a.ino == b.ino
}

/// Whether a node is unchanged between two observations: same node, size, times and mode.
pub fn unchanged(a: &NodeStat, b: &NodeStat) -> (r: bool)
    ensures
        r == (a.dev == b.dev && a.ino == b.ino && a.len == b.len && a.mtime == b.mtime && a.mtime_nsec
            == b.mtime_nsec && a.ctime == b.ctime && a.ctime_nsec == b.ctime_nsec && a.mode == b.mode),
{
    same_node(a, b) && a.len == b.len && a.mtime == b.mtime && a.mtime_nsec == b.mtime_nsec && a.ctime
        == b.ctime && a.ctime_nsec == b.ctime_nsec && a.mode == b.mode
}

/// A private staging file: a regular file with one link, no group or other
/// permissions, owned by `euid`, and at most `limit` bytes.
pub fn private_file_ok(m: &NodeStat, limit: u64, euid: u32) -> (r: bool)
    ensures
        r == (m.is_file && m.nlink == 1 && (m.mode & 63u32) == 0 && m.uid == euid && m.len <= limit),
{
    m.is_file && m.nlink == 1 && (m.mode & 63u32) == 0 && m.uid == euid && m.len <= limit
}

/// A private staging directory: no group or other permissions, owned by `euid`.
pub fn private_directory_ok(m: &NodeStat, euid: u32) -> (r: Result<(), WorkspaceError>)
    ensures
        r is Ok <==> (m.is_dir && (m.mode & 63u32) == 0 && m.uid == euid),
        r is Err ==> r == Err::<(), WorkspaceError>(WorkspaceError::NotPrivate),
{
    if !m.is_dir || (m.mode & 63u32) != 0 || m.uid != euid {
        return Err(WorkspaceError::NotPrivate);
    }
    Ok(())
}

/// The traversal state of one capture: bytes and entries so far, and the files kept.
#[derive(Debug)]
pub struct Capture {
    pub bytes: u64,
    pub entries: u64,
    pub files: u64,
}

impl Capture {
    /// A capture that has visited nothing.
    pub fn new() -> (r: Capture)
        ensures
            r.bytes == 0 && r.entries == 0 && r.files == 0,
    {
        Capture { bytes: 0, entries: 0, files: 0 }
    }

    /// Admits a directory at `depth` below the root.
    pub fn enter(&self, depth: u64) -> (r: Result<(), WorkspaceError>)
        ensures
            r is Ok <==> depth <= MAX_DEPTH,
            r is Err ==> r == Err::<(), WorkspaceError>(WorkspaceError::DepthLimit),
    {
        if depth > MAX_DEPTH {
            return Err(WorkspaceError::DepthLimit);
        }
        Ok(())
    }

    /// Counts one directory entry; every entry, empty directories included, uses
    /// the traversal budget.
    pub fn count_entry(&mut self) -> (r: Result<(), WorkspaceError>)
        requires
            old(self).entries < u64::MAX,
        ensures
            final(self).entries == old(self).entries + 1,
            final(self).bytes == old(self).bytes,
            final(self).files == old(self).files,
            r is Ok <==> final(self).entries <= MAX_ENTRIES,
            r is Err ==> r == Err::<(), WorkspaceError>(WorkspaceError::EntryLimit),
    {
        self.entries = self.entries + 1;
        if self.entries > MAX_ENTRIES {
            return Err(WorkspaceError::EntryLimit);
        }
        Ok(())
    }

    /// Admits a file of `len` bytes: a regular file, within the byte and file
    /// budgets. A file with several hard links is captured like any other, as an
    /// independent copy. Its bytes count even when it is refused for size.
    pub fn admit_file(&mut self, is_file: bool, len: u64) -> (r: Result<(), WorkspaceError>)
        ensures
            !is_file ==> r == Err::<(), WorkspaceError>(WorkspaceError::NotARegularFile)
                && *final(self) == *old(self),
            is_file && old(self).bytes + len > u64::MAX ==> r == Err::<(), WorkspaceError>(
                WorkspaceError::SizeOverflow,
            ) && *final(self) == *old(self),
            is_file && old(self).bytes + len <= u64::MAX ==> {
                &&& final(self).bytes == old(self).bytes + len
                &&& final(self).entries == old(self).entries
                &&& final(self).files == old(self).files
                &&& (r is Ok <==> (final(self).bytes <= MAX_BYTES && old(self).files < MAX_FILES))
                &&& (r is Err ==> r == Err::<(), WorkspaceError>(WorkspaceError::CaptureLimits))
            },
    {
        if !is_file {
            return Err(WorkspaceError::NotARegularFile);
        }
        let total = match self.bytes.checked_add(len) {
            Some(t) => t,
            None => return Err(WorkspaceError::SizeOverflow),
        };
        self.bytes = total;
        if self.bytes > MAX_BYTES || self.files >= MAX_FILES {
            return Err(WorkspaceError::CaptureLimits);
        }
        Ok(())
    }

    /// Records a file kept by the capture.
    pub fn keep_file(&mut self)
        requires
            old(self).files < u64::MAX,
        ensures
            final(self).files == old(self).files + 1,
            final(self).bytes == old(self).bytes,
            final(self).entries == old(self).entries,
    {
        self.files = self.files + 1;
    }
}

/// What a capture records of one file: the digest of its whole content, its
/// size, its permission bits and its chunks, each a digest with its size.
#[derive(Debug)]
pub struct FileRecord {
    pub sha256: String,
    pub size: u64,
    pub mode: u32,
    pub chunks: Vec<(String, u64)>,
}

pub struct FileRecordView {
    pub sha256: Seq<char>,
    pub size: u64,
    pub mode: u32,
    pub chunks: Seq<(Seq<char>, u64)>,
}

impl View for FileRecord {
    type V = FileRecordView;

    open spec fn view(&self) -> FileRecordView {
        FileRecordView {
            sha256: self.sha256@,
            size: self.size,
            mode: self.mode,
            chunks: self.chunks@.map_values(|c: (String, u64)| (c.0@, c.1)),
        }
    }
}

/// The record of a file staged as `chunks`, whose whole content has digest
/// `digest` and `size` bytes, and whose mode is `mode`: only the permission bits
/// of the mode are kept.
pub fn file_record(digest: String, size: u64, mode: u32, chunks: Vec<(String, u64)>) -> (r: FileRecord)
    ensures
        r@ == (FileRecordView {
            sha256: digest@,
            size,
            mode: mode & 511u32,
            chunks: chunks@.map_values(|c: (String, u64)| (c.0@, c.1)),
        }),
{
    FileRecord { sha256: digest, size, mode: mode & 511u32, chunks }
}

/// Whether both records are the same.
pub fn same_record(a: &FileRecord, b: &FileRecord) -> (r: bool)
    ensures
        r == (a@ == b@),
{
    if a.size != b.size || a.mode != b.mode || !text_equal(a.sha256.as_str(), b.sha256.as_str())
        || a.chunks.len() != b.chunks.len() {
        assert(a@.chunks.len() == a.chunks@.len() && b@.chunks.len() == b.chunks@.len());
        return false;
    }
    let mut i: usize = 0;
    while i < a.chunks.len()
        invariant
            i <= a.chunks@.len(),
            a.chunks@.len() == b.chunks@.len(),
            forall|k: int| 0 <= k < i ==> (#[trigger] a@.chunks[k]) == b@.chunks[k],
        decreases a.chunks@.len() - i,
    {
        if a.chunks[i].1 != b.chunks[i].1 || !text_equal(a.chunks[i].0.as_str(), b.chunks[i].0.as_str()) {
            assert(a@.chunks[i as int] != b@.chunks[i as int]);
            return false;
        }
        assert(a@.chunks[i as int] == b@.chunks[i as int]);
        i = i + 1;
    }
    assert(a@.chunks =~= b@.chunks);
    true
}

/// Accepts a capture only when a second traversal saw the same files with the
/// same records, and the root is still the same directory (`root_same`); any
/// edit, addition or removal during the capture refuses it.
pub fn captures_agree(
    first: &Vec<(String, FileRecord)>,
    second: &Vec<(String, FileRecord)>,
    root_same: bool,
) -> (r: Result<(), WorkspaceError>)
    requires
        keys_distinct(first@),
        keys_distinct(second@),
    ensures
        r is Ok <==> (pairs_map(first@) == pairs_map(second@) && root_same),
        r is Err ==> r == Err::<(), WorkspaceError>(WorkspaceError::ChangedDuringCapture),
{
    if !root_same {
        return Err(WorkspaceError::ChangedDuringCapture);
    }
    let ghost fm = pairs_map(first@);
    let ghost sm = pairs_map(second@);
    let mut i: usize = 0;
    while i < first.len()
        invariant
            i <= first@.len(),
            keys_distinct(first@),
            keys_distinct(second@),
            fm == pairs_map(first@),
            sm == pairs_map(second@),
            forall|k: int| 0 <= k < i ==> sm.contains_key(#[trigger] first@[k].0@) && sm[first@[k].0@]
                == first@[k].1@,
        decreases first@.len() - i,
    {
        proof {
            lemma_pairs_map_index(first@, i as int);
        }
        match find_key(second, first[i].0.as_str()) {
            None => {
                proof {
                    lemma_pairs_map_contains(second@, first@[i as int].0@);
                }
                return Err(WorkspaceError::ChangedDuringCapture);
            },
            Some(j) => {
                proof {
                    lemma_pairs_map_index(second@, j as int);
                }
                if !same_record(&first[i].1, &second[j].1) {
                    return Err(WorkspaceError::ChangedDuringCapture);
                }
            },
        }
        i = i + 1;
    }
    let mut j: usize = 0;
    while j < second.len()
        invariant
            j <= second@.len(),
            keys_distinct(first@),
            keys_distinct(second@),
            fm == pairs_map(first@),
            sm == pairs_map(second@),
            forall|k: int| 0 <= k < first@.len() ==> sm.contains_key(#[trigger] first@[k].0@) && sm[first@[k].0@]
                == first@[k].1@,
            forall|k: int| 0 <= k < j ==> fm.contains_key(#[trigger] second@[k].0@),
        decreases second@.len() - j,
    {
        match find_key(first, second[j].0.as_str()) {
            None => {
                proof {
                    lemma_pairs_map_contains(first@, second@[j as int].0@);
                    lemma_pairs_map_index(second@, j as int);
                }
                return Err(WorkspaceError::ChangedDuringCapture);
            },
            Some(i) => {
                proof {
                    lemma_pairs_map_index(first@, i as int);
                }
            },
        }
        j = j + 1;
    }
    proof {
        assert forall|key: Seq<char>| #[trigger] fm.dom().contains(key) == sm.dom().contains(key) by {
            if fm.dom().contains(key) {
                lemma_pairs_map_contains(first@, key);
                let k = choose|k: int| 0 <= k < first@.len() && first@[k].0@ == key;
                assert(sm.contains_key(first@[k].0@));
            }
            if sm.dom().contains(key) {
                lemma_pairs_map_contains(second@, key);
                let k = choose|k: int| 0 <= k < second@.len() && second@[k].0@ == key;
                assert(fm.contains_key(second@[k].0@));
            }
        }
        assert forall|key: Seq<char>| #[trigger] fm.dom().contains(key) implies fm[key] == sm[key] by {
            lemma_pairs_map_contains(first@, key);
            let k = choose|k: int| 0 <= k < first@.len() && first@[k].0@ == key;
            lemma_pairs_map_index(first@, k);
            assert(sm.contains_key(first@[k].0@));
        }
        assert(fm =~= sm);
    }
    Ok(())
}

/// What a capture does with one directory entry.
#[derive(Debug, Clone, Copy, PartialEq, Eq, Structural)]
pub enum EntryAction {
    /// A symbolic link: neither it nor its target is read.
    Skip,
    /// A directory: its entries are visited one level deeper.
    Enter,
    /// Anything else: captured as a file, which [`Capture::admit_file`] judges.
    Capture,
}

/// The action for an entry that is a symbolic link (`is_symlink`, observed
/// without following it) or a directory (`is_dir`).
pub fn entry_action(is_symlink: bool, is_dir: bool) -> (r: EntryAction)
    ensures
        r == (if is_symlink {
            EntryAction::Skip
        } else if is_dir {
            EntryAction::Enter
        } else {
            EntryAction::Capture
        }),
{
    if is_symlink {
        EntryAction::Skip
    } else if is_dir {
        EntryAction::Enter
    } else {
        EntryAction::Capture
    }
}

/// The relative path of entry `name` inside the directory at `prefix`.
pub open spec fn spec_child_path(prefix: Seq<char>, name: Seq<char>) -> Seq<char> {
    if prefix.len() == 0 {
        name
    } else {
        prefix + seq!['/'] + name
    }
}

/// The relative path of entry `name` in the directory at `prefix`, if a capture
/// can keep it.
pub fn child_path(prefix: &str, name: &str) -> (r: Result<String, WorkspaceError>)
    ensures
        spec_valid_path(spec_child_path(prefix@, name@)) ==> (r matches Ok(p) && p@ == spec_child_path(prefix@, name@)),
        !spec_valid_path(spec_child_path(prefix@, name@)) ==> r == Err::<String, WorkspaceError>(WorkspaceError::UnsupportedPath),
{
    let mut path = String::new();
    if !prefix.is_empty() {
        append_text(&mut path, prefix);
        path.push('/');
    }
    append_text(&mut path, name);
    assert(path@ =~= spec_child_path(prefix@, name@));
    validate_path(path.as_str())?;
    Ok(path)
}

/// One read while staging a file of `expected` bytes: `read` more bytes after
/// `size` so far. Refused when the file grew; otherwise the new size and whether
/// another chunk may follow.
pub fn stage_step(size: u64, read: u64, expected: u64) -> (r: Result<(u64, bool), WorkspaceError>)
    requires
        read <= CHUNK,
        size <= expected,
    ensures
        size + read > expected ==> r == Err::<(u64, bool), WorkspaceError>(WorkspaceError::FileChanged),
        size + read <= expected ==> r == Ok::<(u64, bool), WorkspaceError>(((size + read) as u64, read == CHUNK)),
{
    if read > expected - size {
        return Err(WorkspaceError::FileChanged);
    }
    Ok((size + read, read == CHUNK))
}

/// Whether a staged file is the one observed before staging: its size is the size
/// observed and its metadata did not change.
pub fn staged_unchanged(size: u64, before: &NodeStat, after: &NodeStat) -> (r: Result<(), WorkspaceError>)
    ensures
        r is Ok <==> (size == before.len && before.dev == after.dev && before.ino == after.ino && before.len
            == after.len && before.mtime == after.mtime && before.mtime_nsec == after.mtime_nsec
            && before.ctime == after.ctime && before.ctime_nsec == after.ctime_nsec && before.mode
            == after.mode),
        r is Err ==> r == Err::<(), WorkspaceError>(WorkspaceError::FileChanged),
{
    if size != before.len || !unchanged(before, after) {
        return Err(WorkspaceError::FileChanged);
    }
    Ok(())
}

/// Refuses a manifest larger than the limit.
pub fn check_manifest(len: u64) -> (r: Result<(), WorkspaceError>)
    ensures
        r is Ok <==> len <= MANIFEST_LIMIT,
        r is Err ==> r == Err::<(), WorkspaceError>(WorkspaceError::ManifestTooLarge),
{
    if len > MANIFEST_LIMIT {
        return Err(WorkspaceError::ManifestTooLarge);
    }
    Ok(())
}

/// A JSON value's field `key`: null when absent or when the value is no object.
pub open spec fn field_of(v: WireValue, key: Seq<char>) -> WireValue {
    match v {
        WireValue::Object(members) => field(members@, key),
        _ => WireValue::Null,
    }
}

/// One saved chunk added to the chunks known so far: its digest must be valid, its
/// size at most a chunk, and a digest seen before must have the same size.
pub open spec fn chunk_step(acc: Result<Map<Seq<char>, u64>, WorkspaceError>, chunk: WireValue) -> Result<Map<Seq<char>, u64>, WorkspaceError> {
    match acc {
        Err(e) => Err(e),
        Ok(m) => match field_of(chunk, "sha256"@) {
            WireValue::Str(h) => if !is_lower_hex_text(h@, 64) {
                Err(WorkspaceError::InvalidDigest)
            } else {
                match field_of(chunk, "size"@) {
                    WireValue::UInt(n) => if n > CHUNK {
                        Err(WorkspaceError::InvalidSavedChunkSize)
                    } else if m.contains_key(h@) && m[h@] != n {
                        Err(WorkspaceError::ConflictingChunkSizes)
                    } else {
                        Ok(m.insert(h@, n))
                    },
                    _ => Err(WorkspaceError::InvalidSavedSize),
                }
            },
            _ => Err(WorkspaceError::InvalidSavedDigest),
        },
    }
}

/// The first `n` chunks of `cs` added in order.
pub open spec fn fold_chunks(acc: Result<Map<Seq<char>, u64>, WorkspaceError>, cs: Seq<WireValue>, n: int) -> Result<Map<Seq<char>, u64>, WorkspaceError>
    decreases n,
{
    if n <= 0 {
        acc
    } else {
        chunk_step(fold_chunks(acc, cs, n - 1), cs[n - 1])
    }
}

/// One saved file's chunks added to those known so far.
pub open spec fn file_step(acc: Result<Map<Seq<char>, u64>, WorkspaceError>, file: WireValue) -> Result<Map<Seq<char>, u64>, WorkspaceError> {
    match acc {
        Err(e) => Err(e),
        Ok(_) => match field_of(file, "chunks"@) {
            WireValue::Array(cs) => fold_chunks(acc, cs@, cs@.len() as int),
            _ => Err(WorkspaceError::InvalidSavedChunks),
        },
    }
}

/// The chunks of the first `n` saved files.
pub open spec fn fold_files(acc: Result<Map<Seq<char>, u64>, WorkspaceError>, files: Seq<(String, WireValue)>, n: int) -> Result<Map<Seq<char>, u64>, WorkspaceError>
    decreases n,
{
    if n <= 0 {
        acc
    } else {
        file_step(fold_files(acc, files, n - 1), files[n - 1].1)
    }
}

/// The chunks a saved capture lists, each digest with its size.
pub open spec fn spec_chunk_ids(tree: WireValue) -> Result<Map<Seq<char>, u64>, WorkspaceError> {
    match field_of(tree, "files"@) {
        WireValue::Object(files) => fold_files(Ok(Map::empty()), files@, files@.len() as int),
        _ => Err(WorkspaceError::InvalidSaved),
    }
}

proof fn lemma_fold_chunks_error(e: WorkspaceError, cs: Seq<WireValue>, n: int)
    ensures
        fold_chunks(Err(e), cs, n) == Err::<Map<Seq<char>, u64>, WorkspaceError>(e),
    decreases n,
{
    if n > 0 {
        lemma_fold_chunks_error(e, cs, n - 1);
    }
}

proof fn lemma_fold_chunks_persists(acc: Result<Map<Seq<char>, u64>, WorkspaceError>, cs: Seq<WireValue>, i: int, n: int)
    requires
        0 <= i <= n,
        fold_chunks(acc, cs, i) is Err,
    ensures
        fold_chunks(acc, cs, n) == fold_chunks(acc, cs, i),
    decreases n - i,
{
    if n > i {
        lemma_fold_chunks_persists(acc, cs, i, n - 1);
    }
}

proof fn lemma_fold_files_persists(acc: Result<Map<Seq<char>, u64>, WorkspaceError>, files: Seq<(String, WireValue)>, i: int, n: int)
    requires
        0 <= i <= n,
        fold_files(acc, files, i) is Err,
    ensures
        fold_files(acc, files, n) == fold_files(acc, files, i),
    decreases n - i,
{
    if n > i {
        lemma_fold_files_persists(acc, files, i, n - 1);
    }
}

/// Adds the saved chunks `cs` to `out`.
fn add_chunks(out: &mut Vec<(String, u64)>, cs: &Vec<WireValue>) -> (r: Result<(), WorkspaceError>)
    requires
        keys_distinct(old(out)@),
    ensures
        match fold_chunks(Ok(pairs_map(old(out)@)), cs@, cs@.len() as int) {
            Ok(m) => r is Ok && pairs_map(final(out)@) == m && keys_distinct(final(out)@),
            Err(e) => r == Err::<(), WorkspaceError>(e),
        },
{
    let ghost start = pairs_map(out@);
    let mut j: usize = 0;
    while j < cs.len()
        invariant
            j <= cs@.len(),
            start == pairs_map(old(out)@),
            keys_distinct(out@),
            fold_chunks(Ok(start), cs@, j as int) == Ok::<Map<Seq<char>, u64>, WorkspaceError>(pairs_map(out@)),
        decreases cs@.len() - j,
    {
        let ghost before = pairs_map(out@);
        let chunk = &cs[j];
        let members = match chunk {
            WireValue::Object(m) => Some(m),
            _ => None,
        };
        let hash: &str = match members {
            Some(m) => match get_member(m, "sha256") {
                Some(WireValue::Str(h)) => h.as_str(),
                _ => {
                    proof { lemma_fold_chunks_persists(Ok(start), cs@, j + 1, cs@.len() as int); }
                    return Err(WorkspaceError::InvalidSavedDigest);
                },
            },
            None => {
                proof { lemma_fold_chunks_persists(Ok(start), cs@, j + 1, cs@.len() as int); }
                return Err(WorkspaceError::InvalidSavedDigest);
            },
        };
        if validate_hash(hash).is_err() {
            proof { lemma_fold_chunks_persists(Ok(start), cs@, j + 1, cs@.len() as int); }
            return Err(WorkspaceError::InvalidDigest);
        }
        let size: u64 = match members {
            Some(m) => match get_member(m, "size") {
                Some(WireValue::UInt(n)) => *n,
                _ => {
                    proof { lemma_fold_chunks_persists(Ok(start), cs@, j + 1, cs@.len() as int); }
                    return Err(WorkspaceError::InvalidSavedSize);
                },
            },
            None => {
                proof { lemma_fold_chunks_persists(Ok(start), cs@, j + 1, cs@.len() as int); }
                return Err(WorkspaceError::InvalidSavedSize);
            },
        };
        if size > CHUNK {
            proof { lemma_fold_chunks_persists(Ok(start), cs@, j + 1, cs@.len() as int); }
            return Err(WorkspaceError::InvalidSavedChunkSize);
        }
        match find_key(out, hash) {
            Some(k) => {
                proof { lemma_pairs_map_index(out@, k as int); }
                if out[k].1 != size {
                    proof { lemma_fold_chunks_persists(Ok(start), cs@, j + 1, cs@.len() as int); }
                    return Err(WorkspaceError::ConflictingChunkSizes);
                }
                assert(before.insert(hash@, size) =~= before);
            },
            None => {
                proof { lemma_pairs_map_contains(out@, hash@); }
                let ghost old_out = out@;
                let item = (hash.to_owned(), size);
                let ghost pushed = item;
                out.push(item);
                proof {
                    lemma_pairs_map_push(old_out, pushed);
                    assert(out@ == old_out.push(pushed));
                }
            },
        }
        j = j + 1;
    }
    Ok(())
}

/// The chunks a saved capture lists, each digest once with its size; refused when
/// the capture is malformed, a digest or size is invalid, or one digest has two sizes.
pub fn chunk_ids(tree: &WireValue) -> (r: Result<Vec<(String, u64)>, WorkspaceError>)
    ensures
        match spec_chunk_ids(*tree) {
            Ok(m) => r matches Ok(v) && pairs_map(v@) == m && keys_distinct(v@),
            Err(e) => r == Err::<Vec<(String, u64)>, WorkspaceError>(e),
        },
{
    let files = match tree {
        WireValue::Object(m) => match get_member(m, "files") {
            Some(WireValue::Object(files)) => files,
            _ => return Err(WorkspaceError::InvalidSaved),
        },
        _ => return Err(WorkspaceError::InvalidSaved),
    };
    let mut out: Vec<(String, u64)> = Vec::new();
    assert(pairs_map(out@) =~= Map::<Seq<char>, u64>::empty());
    assert(spec_chunk_ids(*tree) == fold_files(Ok(Map::empty()), files@, files@.len() as int));
    let mut i: usize = 0;
    while i < files.len()
        invariant
            i <= files@.len(),
            spec_chunk_ids(*tree) == fold_files(Ok(Map::empty()), files@, files@.len() as int),
            keys_distinct(out@),
            fold_files(Ok(Map::empty()), files@, i as int) == Ok::<Map<Seq<char>, u64>, WorkspaceError>(pairs_map(out@)),
        decreases files@.len() - i,
    {
        let file = &files[i].1;
        let chunks = match file {
            WireValue::Object(m) => match get_member(m, "chunks") {
                Some(WireValue::Array(cs)) => Some(cs),
                _ => None,
            },
            _ => None,
        };
        match chunks {
            Some(cs) => {
                match add_chunks(&mut out, cs) {
                    Ok(()) => {},
                    Err(e) => {
                        proof { lemma_fold_files_persists(Ok(Map::empty()), files@, i + 1, files@.len() as int); }
                        return Err(e);
                    },
                }
            },
            None => {
                proof { lemma_fold_files_persists(Ok(Map::empty()), files@, i + 1, files@.len() as int); }
                return Err(WorkspaceError::InvalidSavedChunks);
            },
        }
        i = i + 1;
    }
    Ok(out)
}

} // verus!
