//! Watching a process's output for a pattern. The output is read in chunks by the
//! caller; each chunk is searched together with the tail of the output before it,
//! so a match that spans two reads is still found.
use vstd::prelude::*;
use crate::deps::{lossy_text, lossy_text_of};
use crate::tasks::{Outcome, WaitReason};
use crate::text::{chars_of, push_range, string_of};

verus! {

#[verifier::external_type_specification]
#[verifier::external_body]
pub struct ExRegex(regex::bytes::Regex);

/// Whether `regex::bytes::Regex::new` accepts `pattern` under its default limits.
pub uninterp spec fn pattern_compiles(pattern: Seq<char>) -> bool;

/// The bytes of the first match that `regex::bytes::Regex::find` reports for
/// `pattern` in `haystack`, if there is one.
pub uninterp spec fn first_match_of(pattern: Seq<char>, haystack: Seq<u8>) -> Option<Seq<u8>>;

/// A compiled pattern, kept together with its source text. Only [`Pattern::new`]
/// builds one, so the compiled form is always that of the source.
pub struct Pattern {
    source: String,
    compiled: regex::bytes::Regex,
}

impl View for Pattern {
    type V = Seq<char>;

    closed spec fn view(&self) -> Seq<char> {
        self.source@
    }
}

/// `regex::bytes::Regex::new(pattern)`, kept with its source when it succeeds.
/// The contract names whether the crate accepts the pattern.
#[verifier::external_body]
fn compile(pattern: &str) -> (r: Option<Pattern>)
    ensures
        r is Some <==> pattern_compiles(pattern@),
        r matches Some(p) ==> p@ == pattern@,
{
    regex::bytes::Regex::new(pattern).ok().map(|compiled| Pattern { source: pattern.to_string(), compiled })
}

/// `regex::bytes::Regex::find` on `haystack`, as the matched bytes. The contract
/// names the match over the pattern's source, which [`compile`] compiled.
#[verifier::external_body]
fn find_first(p: &Pattern, haystack: &[u8]) -> (r: Option<Vec<u8>>)
    ensures
        match first_match_of(p@, haystack@) {
            Some(m) => r matches Some(v) && v@ == m,
            None => r is None,
        },
{
    p.compiled.find(haystack).map(|m| m.as_bytes().to_vec())
}

impl Pattern {
    /// The pattern `source`, when the regular expression engine accepts it.
    pub fn new(source: &str) -> (r: Option<Pattern>)
        ensures
            r is Some <==> pattern_compiles(source@),
            r matches Some(p) ==> p@ == source@,
    {
        compile(source)
    }
}

/// The most characters of a match that are reported.
pub const MATCH_CHARS: usize = 1000;

/// How much of the output already searched is searched again with the next chunk.
pub const CARRY_BYTES: usize = 4096;

/// The tail of `text` searched again with the next chunk.
pub open spec fn carried(text: Seq<u8>) -> Seq<u8> {
    if text.len() <= CARRY_BYTES {
        text
    } else {
        text.subrange(text.len() - CARRY_BYTES, text.len() as int)
    }
}

/// A match as reported: its text, cut to [`MATCH_CHARS`] characters.
pub open spec fn reported(m: Seq<u8>) -> Seq<char> {
    let t = lossy_text_of(m);
    if t.len() <= MATCH_CHARS {
        t
    } else {
        t.take(MATCH_CHARS as int)
    }
}

/// How far a scan of one process's output got.
#[derive(Debug)]
pub struct LogScan {
    /// How many bytes of output were read.
    pub offset: u64,
    /// The tail of the output read so far, searched again with the next chunk.
    pub carry: Vec<u8>,
    /// What the pattern matched, once it has.
    pub matched: Option<String>,
}

impl LogScan {
    /// A scan from the start of the output.
    pub fn new() -> (r: LogScan)
        ensures
            r.offset == 0,
            r.carry@.len() == 0,
            r.matched is None,
    {
        LogScan { offset: 0, carry: Vec::new(), matched: None }
    }

    /// Takes in the next `chunk` of output, read at the scan's offset, and searches
    /// it after the carried tail. On a match the match is kept and true returned;
    /// otherwise the tail of what was searched is carried to the next chunk.
    pub fn step(&mut self, pattern: &Pattern, chunk: &[u8]) -> (r: bool)
        requires
            old(self).offset + chunk@.len() <= u64::MAX,
        ensures
            final(self).offset == old(self).offset + chunk@.len(),
            match first_match_of(pattern@, old(self).carry@ + chunk@) {
                Some(m) => r && final(self).carry@.len() == 0 && (final(self).matched matches Some(s) && s@
                    == reported(m)),
                None => !r && final(self).carry@ == carried(old(self).carry@ + chunk@) && final(self).matched
                    == old(self).matched,
            },
    {
        self.offset = self.offset + chunk.len() as u64;
        let mut text: Vec<u8> = Vec::new();
        std::mem::swap(&mut text, &mut self.carry);
        let ghost before = text@;
        let mut i: usize = 0;
        while i < chunk.len()
            invariant
                i <= chunk@.len(),
                text@ == before + chunk@.subrange(0, i as int),
            decreases chunk@.len() - i,
        {
            text.push(chunk[i]);
            i = i + 1;
            assert(text@ =~= before + chunk@.subrange(0, i as int));
        }
        assert(chunk@.subrange(0, chunk@.len() as int) =~= chunk@);
        match find_first(pattern, text.as_slice()) {
            Some(found) => {
                let shown = lossy_text(found.as_slice());
                let cs = chars_of(shown.as_str());
                let n = if cs.len() <= MATCH_CHARS { cs.len() } else { MATCH_CHARS };
                let mut kept: Vec<char> = Vec::new();
                push_range(&mut kept, cs.as_slice(), 0, n);
                assert(kept@ =~= reported(found@));
                self.matched = Some(string_of(kept.as_slice()));
                true
            },
            None => {
                let start = if text.len() <= CARRY_BYTES { 0 } else { text.len() - CARRY_BYTES };
                let mut tail: Vec<u8> = Vec::new();
                let mut j: usize = start;
                while j < text.len()
                    invariant
                        start <= j <= text@.len(),
                        tail@ == text@.subrange(start as int, j as int),
                    decreases text@.len() - j,
                {
                    tail.push(text[j]);
                    j = j + 1;
                    assert(tail@ =~= text@.subrange(start as int, j as int));
                }
                assert(tail@ =~= carried(text@));
                self.carry = tail;
                false
            },
        }
    }
}

/// What a log watch reports after a scan: `scanned` is whether the pattern
/// matched, or none when the output could not be read. A watch that did not match
/// keeps waiting until its process `finished`.
pub fn log_result(scanned: Option<bool>, finished: bool) -> (r: Option<Outcome>)
    ensures
        r == match scanned {
            Some(true) => Some(Outcome { fired: true, reason: None }),
            Some(false) => if finished {
                Some(Outcome { fired: false, reason: Some(WaitReason::Exited) })
            } else {
                None
            },
            None => Some(Outcome { fired: false, reason: Some(WaitReason::Error) }),
        },
{
    match scanned {
        Some(true) => Some(Outcome { fired: true, reason: None }),
        Some(false) => if finished {
            Some(Outcome { fired: false, reason: Some(WaitReason::Exited) })
        } else {
            None
        },
        None => Some(Outcome { fired: false, reason: Some(WaitReason::Error) }),
    }
}

/// Starts watching the output of a process for `pattern`: a pattern the engine
/// cannot compile is unsupported, and a process that is not `known` is an error.
pub fn watch_pattern(pattern: &str, known: bool) -> (r: Result<Pattern, Outcome>)
    ensures
        !pattern_compiles(pattern@) ==> r == Err::<Pattern, Outcome>(
            Outcome { fired: false, reason: Some(WaitReason::Unsupported) },
        ),
        pattern_compiles(pattern@) && !known ==> r == Err::<Pattern, Outcome>(
            Outcome { fired: false, reason: Some(WaitReason::Error) },
        ),
        pattern_compiles(pattern@) && known ==> (r matches Ok(p) && p@ == pattern@),
{
    let compiled = match Pattern::new(pattern) {
        Some(p) => p,
        None => { return Err(Outcome { fired: false, reason: Some(WaitReason::Unsupported) }); },
    };
    if !known {
        return Err(Outcome { fired: false, reason: Some(WaitReason::Error) });
    }
    Ok(compiled)
}

} // verus!
