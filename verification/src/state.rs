//! The private workflow ledger's framing: only its last complete line counts.
use vstd::prelude::*;
use vstd::string::StringSliceAdditionalSpecFns;
use crate::text::{chars_of, string_of};

verus! {

/// Why the workflow ledger was refused.
#[derive(Debug, Clone, Copy, PartialEq, Eq, Structural)]
pub enum StateError {
    SnapshotTooLarge,
    Incomplete,
}

/// The largest workflow snapshot, newline included.
pub const SNAPSHOT_LIMIT: usize = 16777216;

/// A workflow snapshot as written: its encoding and a newline, within the limit.
pub fn snapshot_record(encoded: Vec<u8>) -> (r: Result<Vec<u8>, StateError>)
    ensures
        encoded@.len() + 1 > SNAPSHOT_LIMIT ==> r == Err::<Vec<u8>, StateError>(StateError::SnapshotTooLarge),
        encoded@.len() + 1 <= SNAPSHOT_LIMIT ==> (r matches Ok(v) && v@ == encoded@.push(10u8)),
{
    if encoded.len() >= SNAPSHOT_LIMIT {
        return Err(StateError::SnapshotTooLarge);
    }
    let mut bytes = encoded;
    bytes.push(10u8);
    Ok(bytes)
}

/// The text after the last newline of `s`.
pub open spec fn after_last_newline(s: Seq<char>) -> Seq<char>
    decreases s.len(),
{
    if s.len() == 0 {
        s
    } else if s.last() == '\n' {
        Seq::empty()
    } else {
        after_last_newline(s.drop_last()).push(s.last())
    }
}

/// The last line of a complete ledger: the ledger ends with a newline, and its last
/// line loses a carriage return before that newline.
pub open spec fn spec_last_snapshot(text: Seq<char>) -> Seq<char> {
    let line = after_last_newline(text.drop_last());
    if line.len() > 0 && line.last() == '\r' {
        line.drop_last()
    } else {
        line
    }
}

/// The authoritative snapshot of a workflow ledger read as `text`, at most one
/// byte past the limit: only a complete ledger within the limit has one.
pub fn last_snapshot(text: &str) -> (r: Result<String, StateError>)
    ensures
        (text.spec_bytes().len() > SNAPSHOT_LIMIT || text@.len() == 0 || text@.last() != '\n') ==> r
            == Err::<String, StateError>(StateError::Incomplete),
        !(text.spec_bytes().len() > SNAPSHOT_LIMIT || text@.len() == 0 || text@.last() != '\n') ==> (r matches Ok(
            s,
        ) && s@ == spec_last_snapshot(text@)),
{
    let v = chars_of(text);
    if text.as_bytes().len() > SNAPSHOT_LIMIT || v.len() == 0 || v[v.len() - 1] != '\n' {
        return Err(StateError::Incomplete);
    }
    let end = v.len() - 1;
    let mut start = end;
    while start > 0 && v[start - 1] != '\n'
        invariant
            start <= end < v@.len(),
            v@ == text@,
            after_last_newline(v@.take(end as int)) == after_last_newline(v@.take(start as int)) + v@.subrange(
                start as int,
                end as int,
            ),
        decreases start,
    {
        let ghost s = v@.take(start as int);
        assert(s.drop_last() =~= v@.take(start - 1));
        assert(v@.subrange(start - 1, end as int) =~= seq![s.last()] + v@.subrange(start as int, end as int));
        assert(after_last_newline(s) == after_last_newline(v@.take(start - 1)).push(s.last()));
        assert(after_last_newline(v@.take(start - 1)).push(s.last()) + v@.subrange(start as int, end as int)
            =~= after_last_newline(v@.take(start - 1)) + v@.subrange(start - 1, end as int));
        start = start - 1;
    }
    proof {
        if start > 0 {
            assert(v@.take(start as int).last() == '\n');
        }
        assert(after_last_newline(v@.take(start as int)) =~= Seq::<char>::empty());
        assert(text@.drop_last() =~= v@.take(end as int));
    }
    let mut stop = end;
    if stop > start && v[stop - 1] == '\r' {
        stop = stop - 1;
    }
    let mut line: Vec<char> = Vec::new();
    crate::text::push_range(&mut line, v.as_slice(), start, stop);
    assert(line@ =~= spec_last_snapshot(text@));
    Ok(string_of(line.as_slice()))
}

proof fn lemma_after_last_newline_append(t: Seq<char>, line: Seq<char>)
    requires
        !line.contains('\n'),
    ensures
        after_last_newline(t.push('\n') + line) == line,
    decreases line.len(),
{
    if line.len() == 0 {
        assert(t.push('\n') + line =~= t.push('\n'));
    } else {
        assert((t.push('\n') + line).drop_last() =~= t.push('\n') + line.drop_last());
        assert(!line.drop_last().contains('\n')) by {
            if line.drop_last().contains('\n') {
                let k = choose|k: int| 0 <= k < line.drop_last().len() && line.drop_last()[k] == '\n';
                assert(line[k] == '\n');
            }
        }
        lemma_after_last_newline_append(t, line.drop_last());
        assert(line.last() != '\n') by {
            assert(line[line.len() - 1] == line.last());
        }
        assert(line.drop_last().push(line.last()) =~= line);
    }
}

/// What a workflow ledger gives back of a write: after any complete ledger `t`, a
/// snapshot line `line` written with its newline is the snapshot read back, when the
/// line holds no newline and does not end in a carriage return.
pub proof fn law_snapshot_reads_back(t: Seq<char>, line: Seq<char>)
    requires
        t.len() == 0 || t.last() == '\n',
        !line.contains('\n'),
        line.len() == 0 || line.last() != '\r',
    ensures
        spec_last_snapshot(t + line.push('\n')) == line,
{
    let whole = t + line.push('\n');
    assert(whole.drop_last() =~= t + line);
    if t.len() == 0 {
        assert(t + line =~= line);
        lemma_after_last_newline_only(line);
    } else {
        assert(t =~= t.drop_last().push('\n'));
        assert(t + line =~= t.drop_last().push('\n') + line);
        lemma_after_last_newline_append(t.drop_last(), line);
    }
}

proof fn lemma_after_last_newline_only(line: Seq<char>)
    requires
        !line.contains('\n'),
    ensures
        after_last_newline(line) == line,
    decreases line.len(),
{
    if line.len() > 0 {
        assert(!line.drop_last().contains('\n')) by {
            if line.drop_last().contains('\n') {
                let k = choose|k: int| 0 <= k < line.drop_last().len() && line.drop_last()[k] == '\n';
                assert(line[k] == '\n');
            }
        }
        lemma_after_last_newline_only(line.drop_last());
        assert(line.last() != '\n') by {
            assert(line[line.len() - 1] == line.last());
        }
        assert(line.drop_last().push(line.last()) =~= line);
    }
}

} // verus!
