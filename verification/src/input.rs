//! Human input, checked before any journal or remote mutation.
use vstd::prelude::*;
use crate::deps::utf8_string;
use crate::text::is_white;

verus! {

/// Human input refused before any journal or remote mutation, with its message.
#[derive(Debug, Clone, Copy, PartialEq, Eq)]
pub struct InvalidInput(pub &'static str);

impl InvalidInput {
    /// The message shown for this input.
    pub fn message(&self) -> (r: &'static str)
        ensures
            r == self.0,
    {
        self.0
    }
}

/// The largest prompt, in bytes.
pub const PROMPT_LIMIT: usize = 1048576;

/// Reads a prompt from the bytes read of it, at most one past the limit: it must
/// be UTF-8 and at most 1 MiB.
pub fn read_text(bytes: Vec<u8>) -> (r: Result<String, InvalidInput>)
    ensures
        !vstd::utf8::valid_utf8(bytes@) ==> (r matches Err(e) && e.0@ == "Prompt input must be valid UTF-8."@),
        vstd::utf8::valid_utf8(bytes@) && bytes@.len() > PROMPT_LIMIT ==> (r matches Err(e) && e.0@
            == "Prompt input exceeds 1 MiB."@),
        vstd::utf8::valid_utf8(bytes@) && bytes@.len() <= PROMPT_LIMIT ==> (r matches Ok(s) && s@
            == vstd::utf8::decode_utf8(bytes@)),
{
    let len = bytes.len();
    match utf8_string(bytes) {
        None => Err(InvalidInput("Prompt input must be valid UTF-8.")),
        Some(text) => if len > PROMPT_LIMIT {
            Err(InvalidInput("Prompt input exceeds 1 MiB."))
        } else {
            Ok(text)
        },
    }
}

/// Text that is empty once trimmed.
pub open spec fn blank(s: Seq<char>) -> bool {
    forall|i: int| 0 <= i < s.len() ==> is_white(#[trigger] s[i])
}

/// Accepts the task of an invocation: a given prompt must not be blank, and
/// without one the invocation must resume saved state.
pub fn prompt(text: Option<String>, resume: bool) -> (r: Result<Option<String>, InvalidInput>)
    ensures
        match text {
            Some(t) => if blank(t@) {
                r matches Err(e) && e.0@ == "The prompt is empty. Supply a task as an argument, --prompt, or --prompt-file."@
            } else {
                r == Ok::<Option<String>, InvalidInput>(Some(t))
            },
            None => if resume {
                r == Ok::<Option<String>, InvalidInput>(None)
            } else {
                r matches Err(e) && e.0@ == "Supply a task: sikaru exec 'Your task', or pipe it to sikaru exec -."@
            },
        },
{
    match text {
        Some(t) => if crate::tasks::is_blank(t.as_str()) {
            Err(InvalidInput("The prompt is empty. Supply a task as an argument, --prompt, or --prompt-file."))
        } else {
            Ok(Some(t))
        },
        None => if resume {
            Ok(None)
        } else {
            Err(InvalidInput("Supply a task: sikaru exec 'Your task', or pipe it to sikaru exec -."))
        },
    }
}

} // verus!
