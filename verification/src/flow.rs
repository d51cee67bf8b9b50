//! Publishing a workspace checkpoint: who may publish it, which receipts answer
//! it, and what each checkpoint status asks of the executor.
use vstd::prelude::*;
use crate::api::{CheckpointStatus, WorkPage, WorkspaceCheckpointView};
use crate::journal::Binding;
use vstd::utf8::encode_utf8;
use crate::deps::{json_string, json_string_of, sha256_hex, sha256_hex_of};
use crate::text::{append_text, chars_of, text_equal};
use crate::value::{WireValue, get_member, member};
use crate::tasks::field;
use crate::workspace::field_of;

verus! {

/// Why a checkpoint was not published.
#[derive(Debug, Clone, Copy, PartialEq, Eq, Structural)]
pub enum FlowError {
    MissingCapture,
    NoExecution,
    AuthorityMismatch,
    ReceiptIdentityMismatch,
    TreeChanged,
    Unsupported,
    BlobReceiptMismatch,
    TreeReceiptMismatch,
    InvalidTree,
    InvalidChunks,
    InvalidChunkHash,
    InvalidChunkSize,
    InvalidFileHash,
    InvalidFileSize,
    InvalidFileMode,
}

impl FlowError {
    /// The message reported for this refusal.
    pub fn message(&self) -> (r: &'static str)
        ensures
            *self == FlowError::AuthorityMismatch ==> r@ == "workspace capture authority mismatch"@,
    {
        match self {
            FlowError::MissingCapture => "missing workspace capture",
            FlowError::NoExecution => "workspace capture has no execution",
            FlowError::AuthorityMismatch => "workspace capture authority mismatch",
            FlowError::ReceiptIdentityMismatch => "workspace checkpoint receipt identity mismatch",
            FlowError::TreeChanged => "workspace checkpoint tree changed",
            FlowError::Unsupported => "workspace checkpoint unsupported by this execution",
            FlowError::BlobReceiptMismatch => "workspace blob receipt mismatch",
            FlowError::TreeReceiptMismatch => "workspace tree receipt mismatch",
            FlowError::InvalidTree => "invalid workspace tree",
            FlowError::InvalidChunks => "invalid workspace chunks",
            FlowError::InvalidChunkHash => "invalid chunk hash",
            FlowError::InvalidChunkSize => "invalid chunk size",
            FlowError::InvalidFileHash => "invalid file hash",
            FlowError::InvalidFileSize => "invalid file size",
            FlowError::InvalidFileMode => "invalid file mode",
        }
    }
}

/// A requested capture belongs to the page's run and to this binding's epoch and
/// generation, and names its checkpoint.
pub open spec fn spec_validate(page: &WorkPage, b: &Binding) -> Result<(), FlowError> {
    match page.workspace_checkpoint {
        None => Err(FlowError::MissingCapture),
        Some(c) => match page.execution {
            None => Err(FlowError::NoExecution),
            Some(e) => if c.run_id@ != e.run_id@ || c.owner_epoch != b.owner_epoch
                || c.workspace_generation@ != b.workspace_generation@ || c.checkpoint_id@.len() == 0 {
                Err(FlowError::AuthorityMismatch)
            } else {
                Ok(())
            },
        },
    }
}

/// A capture is admitted only for this binding's authority: an admitted request
/// is for the page's run, at the binding's owner epoch and workspace generation,
/// and names its checkpoint; a request for another generation is refused as an
/// authority mismatch.
pub proof fn law_captures_only_for_current_authority(page: WorkPage, b: Binding)
    ensures
        spec_validate(&page, &b) is Ok ==> (page.workspace_checkpoint matches Some(c) && page.execution matches Some(
            e,
        ) && c.run_id@ == e.run_id@ && c.owner_epoch == b.owner_epoch && c.workspace_generation@
            == b.workspace_generation@ && c.checkpoint_id@.len() > 0),
        (page.workspace_checkpoint matches Some(c) && page.execution is Some && c.workspace_generation@
            != b.workspace_generation@) ==> spec_validate(&page, &b) == Err::<(), FlowError>(
            FlowError::AuthorityMismatch,
        ),
{
}

/// Checks that the capture `page` requests belongs to this executor's authority.
pub fn validate(page: &WorkPage, b: &Binding) -> (r: Result<(), FlowError>)
    ensures
        r == spec_validate(page, b),
{
    let c = match &page.workspace_checkpoint {
        None => return Err(FlowError::MissingCapture),
        Some(c) => c,
    };
    let e = match &page.execution {
        None => return Err(FlowError::NoExecution),
        Some(e) => e,
    };
    if c.run_id != e.run_id || c.owner_epoch != b.owner_epoch || c.workspace_generation
        != b.workspace_generation || c.checkpoint_id.as_str().is_empty() {
        return Err(FlowError::AuthorityMismatch);
    }
    Ok(())
}

/// A receipt answers a checkpoint: same checkpoint, run, generation and epoch, and
/// the same tree once one was recorded.
pub open spec fn spec_validate_receipt(expected: &WorkspaceCheckpointView, actual: &WorkspaceCheckpointView) -> Result<(), FlowError> {
    if expected.checkpoint_id@ != actual.checkpoint_id@ || expected.run_id@ != actual.run_id@
        || expected.workspace_generation@ != actual.workspace_generation@ || expected.owner_epoch
        != actual.owner_epoch {
        Err(FlowError::ReceiptIdentityMismatch)
    } else {
        match expected.tree_id {
            Some(t) => if (actual.tree_id matches Some(u) && u@ == t@) {
                Ok(())
            } else {
                Err(FlowError::TreeChanged)
            },
            None => Ok(()),
        }
    }
}

/// Checks that `actual` answers the checkpoint `expected`.
pub fn validate_receipt(expected: &WorkspaceCheckpointView, actual: &WorkspaceCheckpointView) -> (r: Result<(), FlowError>)
    ensures
        r == spec_validate_receipt(expected, actual),
{
    if expected.checkpoint_id != actual.checkpoint_id || expected.run_id != actual.run_id
        || expected.workspace_generation != actual.workspace_generation || expected.owner_epoch
        != actual.owner_epoch {
        return Err(FlowError::ReceiptIdentityMismatch);
    }
    match &expected.tree_id {
        Some(t) => match &actual.tree_id {
            Some(u) => if text_equal(t.as_str(), u.as_str()) {
                Ok(())
            } else {
                Err(FlowError::TreeChanged)
            },
            None => Err(FlowError::TreeChanged),
        },
        None => Ok(()),
    }
}

/// What a checkpoint's current status asks of the executor.
#[derive(Debug, Clone, Copy, PartialEq, Eq, Structural)]
pub enum PublishStep {
    /// Already published or being published: nothing to do.
    Done,
    /// Requested: capture, upload and commit the workspace.
    Capture,
}

/// What to do for a checkpoint in `status`.
pub fn publish_step(status: CheckpointStatus) -> (r: Result<PublishStep, FlowError>)
    ensures
        (status == CheckpointStatus::Published || status == CheckpointStatus::Publishing) ==> r
            == Ok::<PublishStep, FlowError>(PublishStep::Done),
        status == CheckpointStatus::Requested ==> r == Ok::<PublishStep, FlowError>(PublishStep::Capture),
        status == CheckpointStatus::Other ==> r == Err::<PublishStep, FlowError>(FlowError::Unsupported),
{
    match status {
        CheckpointStatus::Published | CheckpointStatus::Publishing => Ok(PublishStep::Done),
        CheckpointStatus::Requested => Ok(PublishStep::Capture),
        CheckpointStatus::Other => Err(FlowError::Unsupported),
    }
}

/// Checks the receipt of an uploaded chunk: the digest and size uploaded.
pub fn check_blob_receipt(hash: &str, size: u64, receipt_sha256: &str, receipt_size: i64) -> (r: Result<(), FlowError>)
    ensures
        r is Ok <==> (receipt_sha256@ == hash@ && receipt_size == size),
        r is Err ==> r == Err::<(), FlowError>(FlowError::BlobReceiptMismatch),
{
    if !text_equal(receipt_sha256, hash) || receipt_size < 0 || receipt_size as u64 != size {
        return Err(FlowError::BlobReceiptMismatch);
    }
    Ok(())
}

/// Checks the receipt of a committed tree: it answers the checkpoint, records the
/// tree with digest `expected`, and is published.
pub fn check_tree_receipt(current: &WorkspaceCheckpointView, receipt: &WorkspaceCheckpointView, expected: &str) -> (r: Result<(), FlowError>)
    ensures
        spec_validate_receipt(current, receipt) is Err ==> r == spec_validate_receipt(current, receipt),
        spec_validate_receipt(current, receipt) is Ok ==> (r is Ok <==> ((receipt.tree_id matches Some(t)
            && t@ == expected@) && receipt.status == CheckpointStatus::Published)),
        spec_validate_receipt(current, receipt) is Ok && r is Err ==> r == Err::<(), FlowError>(
            FlowError::TreeReceiptMismatch,
        ),
{
    validate_receipt(current, receipt)?;
    let matches = match &receipt.tree_id {
        Some(t) => text_equal(t.as_str(), expected),
        None => false,
    };
    if !matches || receipt.status != CheckpointStatus::Published {
        return Err(FlowError::TreeReceiptMismatch);
    }
    Ok(())
}

/// Where a character falls in UTF-16 order: characters below the surrogates come
/// first, then those beyond the basic plane, whose surrogate pairs sort there,
/// then the rest of the basic plane.
pub open spec fn utf16_key(c: char) -> int {
    let v = c as int;
    if v < 0xD800 {
        v
    } else if v >= 0x10000 {
        v - 0x10000 + 0xD800
    } else {
        v + 0x100000
    }
}

/// `a` comes before `b` when both are encoded in UTF-16 and compared unit by unit:
/// at the first character where they differ, by that character's place in UTF-16
/// order; otherwise the shorter first.
pub open spec fn utf16_lt(a: Seq<char>, b: Seq<char>) -> bool
    decreases a.len(),
{
    if a.len() == 0 {
        b.len() > 0
    } else if b.len() == 0 {
        false
    } else if a[0] != b[0] {
        utf16_key(a[0]) < utf16_key(b[0])
    } else {
        utf16_lt(a.skip(1), b.skip(1))
    }
}

proof fn lemma_key_injective(a: char, b: char)
    requires
        a != b,
    ensures
        utf16_key(a) != utf16_key(b),
{
    assert((a as int) != (b as int));
}

proof fn lemma_utf16_transitive(a: Seq<char>, b: Seq<char>, c: Seq<char>)
    requires
        utf16_lt(a, b),
        utf16_lt(b, c),
    ensures
        utf16_lt(a, c),
    decreases a.len(),
{
    if a.len() > 0 && b.len() > 0 && c.len() > 0 {
        if a[0] == b[0] && b[0] == c[0] {
            lemma_utf16_transitive(a.skip(1), b.skip(1), c.skip(1));
        } else if a[0] != c[0] {
            if a[0] == b[0] {
            } else if b[0] == c[0] {
            } else {
            }
        } else {
            lemma_key_injective(a[0], b[0]);
        }
    }
}

proof fn lemma_utf16_total(a: Seq<char>, b: Seq<char>)
    requires
        a != b,
    ensures
        utf16_lt(a, b) || utf16_lt(b, a),
    decreases a.len(),
{
    if a.len() > 0 && b.len() > 0 {
        if a[0] == b[0] {
            if a.skip(1) == b.skip(1) {
                assert(a =~= seq![a[0]] + a.skip(1));
                assert(b =~= seq![b[0]] + b.skip(1));
            }
            lemma_utf16_total(a.skip(1), b.skip(1));
        } else {
            lemma_key_injective(a[0], b[0]);
        }
    } else if a.len() == 0 && b.len() == 0 {
        assert(a =~= b);
    }
}

fn key_of(c: char) -> (r: u32)
    ensures
        r == utf16_key(c),
{
    let v = c as u32;
    if v < 0xD800 {
        v
    } else if v >= 0x10000 {
        v - 0x10000 + 0xD800
    } else {
        v + 0x100000
    }
}

/// Whether `a` comes before `b` in UTF-16 order.
pub fn utf16_before(a: &str, b: &str) -> (r: bool)
    ensures
        r == utf16_lt(a@, b@),
{
    let x = chars_of(a);
    let y = chars_of(b);
    let mut i: usize = 0;
    assert(x@.skip(0) =~= x@);
    assert(y@.skip(0) =~= y@);
    while i < x.len() && i < y.len() && x[i] == y[i]
        invariant
            i <= x@.len(),
            i <= y@.len(),
            x@ == a@,
            y@ == b@,
            utf16_lt(a@, b@) == utf16_lt(x@.skip(i as int), y@.skip(i as int)),
        decreases x@.len() - i,
    {
        assert(x@.skip(i as int).skip(1) =~= x@.skip(i + 1));
        assert(y@.skip(i as int).skip(1) =~= y@.skip(i + 1));
        i = i + 1;
    }
    if i == x.len() {
        i < y.len()
    } else if i == y.len() {
        false
    } else {
        key_of(x[i]) < key_of(y[i])
    }
}

/// Texts in strictly increasing UTF-16 order.
pub open spec fn utf16_sorted(s: Seq<Seq<char>>) -> bool {
    forall|i: int, j: int| 0 <= i < j < s.len() ==> utf16_lt(s[i], s[j])
}

/// `x` is one of `s`.
pub open spec fn among(x: Seq<char>, s: Seq<Seq<char>>) -> bool {
    exists|j: int| 0 <= j < s.len() && s[j] == x
}

/// Both sequences hold the same texts.
pub open spec fn same_texts(a: Seq<Seq<char>>, b: Seq<Seq<char>>) -> bool {
    &&& forall|i: int| 0 <= i < a.len() ==> among(#[trigger] a[i], b)
    &&& forall|j: int| 0 <= j < b.len() ==> among(#[trigger] b[j], a)
}

/// No text occurs twice.
pub open spec fn texts_distinct(s: Seq<Seq<char>>) -> bool {
    forall|i: int, j: int| 0 <= i < s.len() && 0 <= j < s.len() && i != j ==> s[i] != s[j]
}

proof fn lemma_texts_insert(before: Seq<Seq<char>>, x: Seq<char>, p: int, prior: Seq<Seq<char>>)
    requires
        0 <= p <= before.len(),
        same_texts(before, prior),
    ensures
        same_texts(before.insert(p, x), prior.push(x)),
{
    let after = before.insert(p, x);
    let target = prior.push(x);
    assert forall|a: int| 0 <= a < after.len() implies among(#[trigger] after[a], target) by {
        if a < p {
            assert(among(before[a], prior));
            let j = choose|j: int| 0 <= j < prior.len() && prior[j] == before[a];
            assert(after[a] == before[a]);
            assert(target[j] == prior[j]);
        } else if a == p {
            assert(after[a] == target[prior.len() as int]);
        } else {
            assert(among(before[a - 1], prior));
            let j = choose|j: int| 0 <= j < prior.len() && prior[j] == before[a - 1];
            assert(after[a] == before[a - 1]);
            assert(target[j] == prior[j]);
        }
    }
    assert forall|j: int| 0 <= j < target.len() implies among(#[trigger] target[j], after) by {
        if j == prior.len() {
            assert(after[p] == target[j]);
        } else {
            assert(among(prior[j], before));
            let a = choose|a: int| 0 <= a < before.len() && before[a] == prior[j];
            assert(target[j] == prior[j]);
            if a < p {
                assert(after[a] == before[a]);
            } else {
                assert(after[a + 1] == before[a]);
            }
        }
    }
}

proof fn lemma_texts_sorted_insert(before: Seq<Seq<char>>, x: Seq<char>, p: int)
    requires
        0 <= p <= before.len(),
        utf16_sorted(before),
        forall|j: int| 0 <= j < before.len() ==> (#[trigger] before[j]) != x,
        forall|k: int| 0 <= k < p ==> utf16_lt(#[trigger] before[k], x),
        p < before.len() ==> !utf16_lt(before[p], x),
    ensures
        utf16_sorted(before.insert(p, x)),
{
    assert forall|k: int| p <= k < before.len() implies utf16_lt(x, #[trigger] before[k]) by {
        assert(before[p] != x);
        lemma_utf16_total(x, before[p]);
        if k > p {
            lemma_utf16_transitive(x, before[p], before[k]);
        }
    }
    let after = before.insert(p, x);
    assert forall|a: int, b: int| 0 <= a < b < after.len() implies utf16_lt(after[a], after[b]) by {
        if b < p {
            assert(after[a] == before[a] && after[b] == before[b]);
        } else if b == p {
            assert(after[a] == before[a]);
        } else if a < p {
            assert(after[a] == before[a] && after[b] == before[b - 1]);
            lemma_utf16_transitive(before[a], x, before[b - 1]);
        } else if a == p {
            assert(after[b] == before[b - 1]);
        } else {
            assert(after[a] == before[a - 1] && after[b] == before[b - 1]);
        }
    }
}

proof fn lemma_utf16_irreflexive(a: Seq<char>)
    ensures
        !utf16_lt(a, a),
    decreases a.len(),
{
    if a.len() > 0 {
        lemma_utf16_irreflexive(a.skip(1));
    }
}

proof fn lemma_sorted_texts_unique(a: Seq<Seq<char>>, b: Seq<Seq<char>>)
    requires
        utf16_sorted(a),
        utf16_sorted(b),
        same_texts(a, b),
    ensures
        a == b,
    decreases a.len(),
{
    if a.len() == 0 {
        if b.len() > 0 {
            assert(among(b[0], a));
        }
        assert(a =~= b);
    } else {
        assert(among(a[0], b));
        assert(among(b[0], a));
        let j = choose|j: int| 0 <= j < b.len() && b[j] == a[0];
        let i = choose|i: int| 0 <= i < a.len() && a[i] == b[0];
        if j > 0 {
            assert(utf16_lt(b[0], b[j]));
            if i > 0 {
                assert(utf16_lt(a[0], a[i]));
                lemma_utf16_transitive(a[0], a[i], a[0]);
            }
            lemma_utf16_irreflexive(a[0]);
        }
        let a1 = a.skip(1);
        let b1 = b.skip(1);
        assert forall|x: int, y: int| 0 <= x < y < a1.len() implies utf16_lt(a1[x], a1[y]) by {
            assert(a1[x] == a[x + 1] && a1[y] == a[y + 1]);
        }
        assert forall|x: int, y: int| 0 <= x < y < b1.len() implies utf16_lt(b1[x], b1[y]) by {
            assert(b1[x] == b[x + 1] && b1[y] == b[y + 1]);
        }
        assert forall|x: int| 0 <= x < a1.len() implies among(#[trigger] a1[x], b1) by {
            assert(a1[x] == a[x + 1]);
            assert(among(a[x + 1], b));
            let k = choose|k: int| 0 <= k < b.len() && b[k] == a[x + 1];
            assert(utf16_lt(a[0], a[x + 1]));
            if k == 0 {
                lemma_utf16_irreflexive(a[0]);
            }
            assert(b1[k - 1] == b[k]);
        }
        assert forall|y: int| 0 <= y < b1.len() implies among(#[trigger] b1[y], a1) by {
            assert(b1[y] == b[y + 1]);
            assert(among(b[y + 1], a));
            let k = choose|k: int| 0 <= k < a.len() && a[k] == b[y + 1];
            assert(utf16_lt(b[0], b[y + 1]));
            if k == 0 {
                lemma_utf16_irreflexive(b[0]);
            }
            assert(a1[k - 1] == a[k]);
        }
        lemma_sorted_texts_unique(a1, b1);
        assert(a =~= seq![a[0]] + a1);
        assert(b =~= seq![b[0]] + b1);
    }
}

/// A tree's digest does not depend on the order in which its files were captured:
/// two UTF-16 orderings of the same paths are the same ordering, so the canonical
/// JSON, and with it the digest, is the same.
pub proof fn law_tree_order_is_canonical(paths: Seq<Seq<char>>, ordered: Seq<Seq<char>>, reordered: Seq<Seq<char>>)
    requires
        utf16_sorted(ordered),
        same_texts(ordered, paths),
        utf16_sorted(reordered),
        same_texts(reordered, paths),
    ensures
        ordered == reordered,
{
    assert forall|x: int| 0 <= x < ordered.len() implies among(#[trigger] ordered[x], reordered) by {
        assert(among(ordered[x], paths));
        let i = choose|i: int| 0 <= i < paths.len() && paths[i] == ordered[x];
        assert(among(paths[i], reordered));
    }
    assert forall|y: int| 0 <= y < reordered.len() implies among(#[trigger] reordered[y], ordered) by {
        assert(among(reordered[y], paths));
        let i = choose|i: int| 0 <= i < paths.len() && paths[i] == reordered[y];
        assert(among(paths[i], ordered));
    }
    lemma_sorted_texts_unique(ordered, reordered);
}

/// The paths of `files`, as keys.
pub open spec fn member_keys(files: Seq<(String, WireValue)>) -> Seq<Seq<char>> {
    files.map_values(|m: (String, WireValue)| m.0@)
}

/// The paths of `files` in UTF-16 order.
fn sorted_paths(files: &Vec<(String, WireValue)>) -> (r: Vec<String>)
    requires
        texts_distinct(member_keys(files@)),
    ensures
        utf16_sorted(r@.map_values(|s: String| s@)),
        same_texts(r@.map_values(|s: String| s@), member_keys(files@)),
{
    let ghost keys = member_keys(files@);
    let mut out: Vec<String> = Vec::new();
    let mut i: usize = 0;
    assert(out@.map_values(|s: String| s@) =~= Seq::<Seq<char>>::empty());
    assert(keys.take(0) =~= Seq::<Seq<char>>::empty());
    while i < files.len()
        invariant
            i <= files@.len(),
            keys == member_keys(files@),
            texts_distinct(keys),
            utf16_sorted(out@.map_values(|s: String| s@)),
            same_texts(out@.map_values(|s: String| s@), keys.take(i as int)),
        decreases files@.len() - i,
    {
        let x = files[i].0.clone();
        let ghost before = out@.map_values(|s: String| s@);
        let ghost xv = x@;
        assert(keys[i as int] == xv);
        let mut p: usize = 0;
        while p < out.len() && utf16_before(out[p].as_str(), x.as_str())
            invariant
                p <= out@.len(),
                xv == x@,
                before == out@.map_values(|s: String| s@),
                forall|k: int| 0 <= k < p ==> utf16_lt(#[trigger] before[k], xv),
            decreases out@.len() - p,
        {
            assert(before[p as int] == out@[p as int]@);
            p = p + 1;
        }
        proof {
            if p < out@.len() {
                assert(before[p as int] == out@[p as int]@);
            }
            assert forall|j: int| 0 <= j < before.len() implies (#[trigger] before[j]) != xv by {
                assert(among(before[j], keys.take(i as int)));
                let k = choose|k: int| 0 <= k < keys.take(i as int).len() && keys.take(i as int)[k] == before[j];
                assert(keys.take(i as int)[k] == keys[k]);
            }
            lemma_texts_sorted_insert(before, xv, p as int);
            lemma_texts_insert(before, xv, p as int, keys.take(i as int));
            assert(keys.take(i + 1) =~= keys.take(i as int).push(xv));
        }
        let ghost old_out = out@;
        out.insert(p, x);
        proof {
            assert(out@ == old_out.insert(p as int, x));
            assert(out@.map_values(|s: String| s@) =~= before.insert(p as int, xv));
        }
        i = i + 1;
    }
    assert(keys.take(files@.len() as int) =~= keys);
    out
}

/// The decimal digits of `n`.
pub open spec fn decimal(n: nat) -> Seq<char>
    decreases n,
{
    if n < 10 {
        seq![(48 + n) as char]
    } else {
        decimal(n / 10).push((48 + n % 10) as char)
    }
}

/// Appends the decimal digits of `n` to `out`.
pub fn push_decimal(out: &mut String, n: u64)
    ensures
        final(out)@ == old(out)@ + decimal(n as nat),
    decreases n,
{
    if n >= 10 {
        push_decimal(out, n / 10);
    }
    let d = (n % 10) as u32;
    out.push(crate::text::char_from_ascii(48 + d));
    assert(final(out)@ =~= old(out)@ + decimal(n as nat));
}

/// The canonical JSON of the first `n` chunks of a file, separated by commas.
pub open spec fn canonical_chunks(cs: Seq<WireValue>, n: int) -> Result<Seq<char>, FlowError>
    decreases n,
{
    if n <= 0 {
        Ok(Seq::empty())
    } else {
        match canonical_chunks(cs, n - 1) {
            Err(e) => Err(e),
            Ok(t) => match field_of(cs[n - 1], "sha256"@) {
                WireValue::Str(h) => match field_of(cs[n - 1], "size"@) {
                    WireValue::UInt(size) => Ok(t + (if n > 1 { ","@ } else { Seq::empty() }) + "{\"sha256\":"@
                        + json_string_of(h@) + ",\"size\":"@ + decimal(size as nat) + "}"@),
                    _ => Err(FlowError::InvalidChunkSize),
                },
                _ => Err(FlowError::InvalidChunkHash),
            },
        }
    }
}

/// The canonical JSON of a saved file: its digest, size, mode and chunks.
pub open spec fn canonical_file(v: WireValue) -> Result<Seq<char>, FlowError> {
    match field_of(v, "chunks"@) {
        WireValue::Array(cs) => match canonical_chunks(cs@, cs@.len() as int) {
            Err(e) => Err(e),
            Ok(chunks) => match field_of(v, "sha256"@) {
                WireValue::Str(h) => match field_of(v, "size"@) {
                    WireValue::UInt(size) => match field_of(v, "mode"@) {
                        WireValue::UInt(mode) => Ok("{\"sha256\":"@ + json_string_of(h@) + ",\"size\":"@ + decimal(
                            size as nat,
                        ) + ",\"mode\":"@ + decimal(mode as nat) + ",\"chunks\":["@ + chunks + "]}"@),
                        _ => Err(FlowError::InvalidFileMode),
                    },
                    _ => Err(FlowError::InvalidFileSize),
                },
                _ => Err(FlowError::InvalidFileHash),
            },
        },
        _ => Err(FlowError::InvalidChunks),
    }
}

proof fn lemma_chunks_error_persists(cs: Seq<WireValue>, i: int, n: int)
    requires
        0 <= i <= n,
        canonical_chunks(cs, i) is Err,
    ensures
        canonical_chunks(cs, n) == canonical_chunks(cs, i),
    decreases n - i,
{
    if n > i {
        lemma_chunks_error_persists(cs, i, n - 1);
    }
}

fn chunks_json(out: &mut String, cs: &Vec<WireValue>) -> (r: Result<(), FlowError>)
    ensures
        match canonical_chunks(cs@, cs@.len() as int) {
            Ok(t) => r is Ok && final(out)@ == old(out)@ + t,
            Err(e) => r == Err::<(), FlowError>(e),
        },
{
    let mut i: usize = 0;
    while i < cs.len()
        invariant
            i <= cs@.len(),
            canonical_chunks(cs@, i as int) matches Ok(t) && out@ == old(out)@ + t,
        decreases cs@.len() - i,
    {
        let c = &cs[i];
        let members = match c {
            WireValue::Object(m) => Some(m),
            _ => None,
        };
        let h: &str = match members {
            Some(m) => match get_member(m, "sha256") {
                Some(WireValue::Str(h)) => h.as_str(),
                _ => {
                    proof { lemma_chunks_error_persists(cs@, i + 1, cs@.len() as int); }
                    return Err(FlowError::InvalidChunkHash);
                },
            },
            None => {
                proof { lemma_chunks_error_persists(cs@, i + 1, cs@.len() as int); }
                return Err(FlowError::InvalidChunkHash);
            },
        };
        let size: u64 = match members {
            Some(m) => match get_member(m, "size") {
                Some(WireValue::UInt(n)) => *n,
                _ => {
                    proof { lemma_chunks_error_persists(cs@, i + 1, cs@.len() as int); }
                    return Err(FlowError::InvalidChunkSize);
                },
            },
            None => {
                proof { lemma_chunks_error_persists(cs@, i + 1, cs@.len() as int); }
                return Err(FlowError::InvalidChunkSize);
            },
        };
        let ghost prev = canonical_chunks(cs@, i as int)->Ok_0;
        if i > 0 {
            append_text(out, ",");
        }
        append_text(out, "{\"sha256\":");
        append_text(out, json_string(h).as_str());
        append_text(out, ",\"size\":");
        push_decimal(out, size);
        append_text(out, "}");
        proof {
            reveal_strlit("");
            let sep: Seq<char> = if i + 1 > 1 { ","@ } else { Seq::empty() };
            assert(out@ =~= old(out)@ + (prev + sep + "{\"sha256\":"@ + json_string_of(h@) + ",\"size\":"@ + decimal(
                size as nat,
            ) + "}"@));
        }
        i = i + 1;
    }
    Ok(())
}

/// Appends the canonical JSON of saved file `v` to `out`.
fn file_json(out: &mut String, v: &WireValue) -> (r: Result<(), FlowError>)
    ensures
        match canonical_file(*v) {
            Ok(t) => r is Ok && final(out)@ == old(out)@ + t,
            Err(e) => r == Err::<(), FlowError>(e),
        },
{
    let members = match v {
        WireValue::Object(m) => m,
        _ => return Err(FlowError::InvalidChunks),
    };
    let cs = match get_member(members, "chunks") {
        Some(WireValue::Array(cs)) => cs,
        _ => return Err(FlowError::InvalidChunks),
    };
    let mut chunks = String::new();
    chunks_json(&mut chunks, cs)?;
    let h: &str = match get_member(members, "sha256") {
        Some(WireValue::Str(h)) => h.as_str(),
        _ => return Err(FlowError::InvalidFileHash),
    };
    let size: u64 = match get_member(members, "size") {
        Some(WireValue::UInt(n)) => *n,
        _ => return Err(FlowError::InvalidFileSize),
    };
    let mode: u64 = match get_member(members, "mode") {
        Some(WireValue::UInt(n)) => *n,
        _ => return Err(FlowError::InvalidFileMode),
    };
    let ghost start = out@;
    append_text(out, "{\"sha256\":");
    append_text(out, json_string(h).as_str());
    append_text(out, ",\"size\":");
    push_decimal(out, size);
    append_text(out, ",\"mode\":");
    push_decimal(out, mode);
    append_text(out, ",\"chunks\":[");
    append_text(out, chunks.as_str());
    append_text(out, "]}");
    proof {
        assert(chunks@ =~= Seq::<char>::empty() + canonical_chunks(cs@, cs@.len() as int)->Ok_0);
        assert(out@ =~= start + canonical_file(*v)->Ok_0);
    }
    Ok(())
}

/// The canonical JSON of the first `n` files of the tree in path order `paths`,
/// each path with its file, separated by commas.
pub open spec fn tree_entries(files: Seq<(String, WireValue)>, paths: Seq<Seq<char>>, n: int) -> Result<Seq<char>, FlowError>
    decreases n,
{
    if n <= 0 {
        Ok(Seq::empty())
    } else {
        match tree_entries(files, paths, n - 1) {
            Err(e) => Err(e),
            Ok(t) => match canonical_file(field(files, paths[n - 1])) {
                Err(e) => Err(e),
                Ok(f) => Ok(t + (if n > 1 { ","@ } else { Seq::empty() }) + json_string_of(paths[n - 1]) + ":"@ + f),
            },
        }
    }
}

proof fn lemma_entries_error_persists(files: Seq<(String, WireValue)>, paths: Seq<Seq<char>>, i: int, n: int)
    requires
        0 <= i <= n,
        tree_entries(files, paths, i) is Err,
    ensures
        tree_entries(files, paths, n) == tree_entries(files, paths, i),
    decreases n - i,
{
    if n > i {
        lemma_entries_error_persists(files, paths, i, n - 1);
    }
}

/// A JSON object's members have distinct names.
pub open spec fn keys_unique(v: WireValue) -> bool {
    match v {
        WireValue::Object(files) => texts_distinct(member_keys(files@)),
        _ => true,
    }
}

/// The digest a published tree is recorded under: the SHA-256, in lowercase hex, of
/// the canonical JSON of its files, in UTF-16 order of their paths.
pub fn tree_digest(tree: &WireValue) -> (r: Result<String, FlowError>)
    requires
        keys_unique(field_of(*tree, "files"@)),
    ensures
        match field_of(*tree, "files"@) {
            WireValue::Object(files) => exists|ps: Seq<Seq<char>>| {
                &&& utf16_sorted(ps)
                &&& same_texts(ps, member_keys(files@))
                &&& match tree_entries(files@, ps, ps.len() as int) {
                    Err(e) => r == Err::<String, FlowError>(e),
                    Ok(t) => r matches Ok(d) && d@ == sha256_hex_of(encode_utf8("{\"files\":{"@ + t + "}}"@)),
                }
            },
            _ => r == Err::<String, FlowError>(FlowError::InvalidTree),
        },
{
    let files = match tree {
        WireValue::Object(m) => match get_member(m, "files") {
            Some(WireValue::Object(files)) => files,
            _ => return Err(FlowError::InvalidTree),
        },
        _ => return Err(FlowError::InvalidTree),
    };
    assert(field_of(*tree, "files"@) == WireValue::Object(*files));
    let paths = sorted_paths(files);
    let ghost ps = paths@.map_values(|s: String| s@);
    let mut text = String::new();
    append_text(&mut text, "{\"files\":{");
    let ghost head = text@;
    let mut i: usize = 0;
    while i < paths.len()
        invariant
            i <= paths@.len(),
            ps == paths@.map_values(|s: String| s@),
            field_of(*tree, "files"@) == WireValue::Object(*files),
            utf16_sorted(ps),
            same_texts(ps, member_keys(files@)),
            tree_entries(files@, ps, i as int) matches Ok(t) && text@ == head + t,
        decreases paths@.len() - i,
    {
        assert(ps[i as int] == paths@[i as int]@);
        let ghost prev = tree_entries(files@, ps, i as int)->Ok_0;
        let value: WireValue = WireValue::Null;
        let ghost before = text@;
        if i > 0 {
            append_text(&mut text, ",");
        }
        append_text(&mut text, json_string(paths[i].as_str()).as_str());
        append_text(&mut text, ":");
        let file = get_member(files, paths[i].as_str());
        let result = match file {
            Some(v) => file_json(&mut text, v),
            None => file_json(&mut text, &value),
        };
        match result {
            Ok(()) => {},
            Err(e) => {
                proof {
                    lemma_entries_error_persists(files@, ps, i + 1, ps.len() as int);
                    assert(utf16_sorted(ps) && same_texts(ps, member_keys(files@)) && tree_entries(files@, ps, ps.len() as int)
                        == Err::<Seq<char>, FlowError>(e));
                }
                return Err(e);
            },
        }
        proof {
            let sep: Seq<char> = if i + 1 > 1 { ","@ } else { Seq::empty() };
            let f = canonical_file(field(files@, ps[i as int]))->Ok_0;
            assert(text@ =~= head + (prev + sep + json_string_of(ps[i as int]) + ":"@ + f));
        }
        i = i + 1;
    }
    append_text(&mut text, "}}");
    let ghost t = tree_entries(files@, ps, ps.len() as int)->Ok_0;
    assert(text@ =~= "{\"files\":{"@ + t + "}}"@);
    let digest = sha256_hex(text.as_str().as_bytes());
    assert(utf16_sorted(ps) && same_texts(ps, member_keys(files@)));
    Ok(digest)
}

} // verus!
