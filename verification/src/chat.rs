//! The terminal conversation: what a typed line asks for, and what a reply may show.
use vstd::prelude::*;
use crate::flow::{decimal, push_decimal};
use crate::text::{append_text, chars_of, is_white, lemma_map_values_push, string_of, text_equal, white};
use crate::workspace::is_control;

verus! {

/// A line typed in a chat.
#[derive(Debug, Clone, Copy, PartialEq, Eq, Structural)]
pub enum ChatCommand {
    Exit,
    Help,
    Status,
    /// An empty line: ask again.
    Skip,
    /// A task for the next turn.
    Task,
}

/// `s` without white space at either end.
pub open spec fn trimmed(s: Seq<char>) -> Seq<char>
    decreases s.len(),
{
    if s.len() > 0 && is_white(s[0]) {
        trimmed(s.skip(1))
    } else if s.len() > 0 && is_white(s.last()) {
        trimmed(s.drop_last())
    } else {
        s
    }
}

/// `v[from..to)` without white space at either end.
fn trim_range(v: &Vec<char>, from: usize, to: usize) -> (r: (usize, usize))
    requires
        from <= to <= v@.len(),
    ensures
        from <= r.0 <= r.1 <= to,
        v@.subrange(r.0 as int, r.1 as int) == trimmed(v@.subrange(from as int, to as int)),
    decreases to - from,
{
    if from < to && white(v[from]) {
        assert(v@.subrange(from as int, to as int).skip(1) =~= v@.subrange(from + 1, to as int));
        trim_range(v, from + 1, to)
    } else if from < to && white(v[to - 1]) {
        assert(v@.subrange(from as int, to as int).drop_last() =~= v@.subrange(from as int, to - 1));
        trim_range(v, from, to - 1)
    } else {
        (from, to)
    }
}

/// What a typed line asks for, once trimmed: `/exit` or `/quit` leaves, `/help`
/// and `/status` are answered, an empty line asks again, anything else is a task.
pub fn chat_command(line: &str) -> (r: ChatCommand)
    ensures
        r == (if trimmed(line@) == "/exit"@ || trimmed(line@) == "/quit"@ {
            ChatCommand::Exit
        } else if trimmed(line@) == "/help"@ {
            ChatCommand::Help
        } else if trimmed(line@) == "/status"@ {
            ChatCommand::Status
        } else if trimmed(line@).len() == 0 {
            ChatCommand::Skip
        } else {
            ChatCommand::Task
        }),
{
    let v = chars_of(line);
    let (a, b) = trim_range(&v, 0, v.len());
    assert(v@.subrange(0, v@.len() as int) =~= line@);
    let mut t: Vec<char> = Vec::new();
    crate::text::push_range(&mut t, v.as_slice(), a, b);
    assert(t@ =~= trimmed(line@));
    let s = string_of(t.as_slice());
    if text_equal(s.as_str(), "/exit") || text_equal(s.as_str(), "/quit") {
        ChatCommand::Exit
    } else if text_equal(s.as_str(), "/help") {
        ChatCommand::Help
    } else if text_equal(s.as_str(), "/status") {
        ChatCommand::Status
    } else if t.len() == 0 {
        ChatCommand::Skip
    } else {
        ChatCommand::Task
    }
}

/// A reply shown in a terminal keeps no control characters but newlines and tabs.
pub open spec fn shown(c: char) -> bool {
    !is_control(c) || c == '\n' || c == '\t'
}

/// The characters of `s` a terminal is shown, in order.
pub open spec fn spec_safe(s: Seq<char>) -> Seq<char> {
    s.filter(|c: char| shown(c))
}

/// `text` as shown in a terminal.
pub fn safe_output(text: &str) -> (r: String)
    ensures
        r@ == spec_safe(text@),
{
    let v = chars_of(text);
    let mut out = String::new();
    let mut i: usize = 0;
    while i < v.len()
        invariant
            i <= v@.len(),
            v@ == text@,
            out@ == spec_safe(v@.take(i as int)),
        decreases v@.len() - i,
    {
        let c = v[i];
        assert(v@.take(i + 1).drop_last() =~= v@.take(i as int));
        proof { reveal(Seq::filter); }
        if !(c <= '\u{1f}' || ('\u{7f}' <= c && c <= '\u{9f}')) || c == '\n' || c == '\t' {
            out.push(c);
        }
        i = i + 1;
    }
    assert(v@.take(v@.len() as int) =~= v@);
    out
}

/// The usage line shown after a reply: the input, cached and output token counts,
/// marked partial when the service said its count is not complete.
pub fn usage_line(input: u64, cached: u64, output: u64, complete: Option<bool>) -> (r: String)
    ensures
        r@ == "Tokens"@ + (if complete == Some(false) { " (partial)"@ } else { ""@ }) + ": "@
            + decimal(input as nat) + " input ("@ + decimal(cached as nat) + " cached), "@
            + decimal(output as nat) + " output."@,
{
    let mut out = String::new();
    append_text(&mut out, "Tokens");
    if complete == Some(false) {
        append_text(&mut out, " (partial)");
    }
    proof {
        reveal_strlit("");
    }
    assert(out@ =~= "Tokens"@ + (if complete == Some(false) { " (partial)"@ } else { ""@ }));
    append_text(&mut out, ": ");
    push_decimal(&mut out, input);
    append_text(&mut out, " input (");
    push_decimal(&mut out, cached);
    append_text(&mut out, " cached), ");
    push_decimal(&mut out, output);
    append_text(&mut out, " output.");
    assert(out@ =~= "Tokens"@ + (if complete == Some(false) { " (partial)"@ } else { ""@ }) + ": "@
        + decimal(input as nat) + " input ("@ + decimal(cached as nat) + " cached), "@
        + decimal(output as nat) + " output."@);
    out
}

/// What a chat carries from turn to turn into each workflow run.
#[derive(Debug)]
pub struct TurnOptions {
    pub project: Option<String>,
    pub agent: Option<String>,
    pub workspace: Option<String>,
    pub tenant: Option<String>,
    pub user: Option<String>,
    pub model: Option<String>,
    pub timeout: u64,
    pub approval_wait: u64,
    pub state_dir: Option<String>,
}

/// The text of each argument.
pub open spec fn texts(v: Seq<String>) -> Seq<Seq<char>> {
    v.map_values(|s: String| s@)
}

/// `--name value` when the option is set.
pub open spec fn option_args(name: Seq<char>, value: Option<String>) -> Seq<Seq<char>> {
    match value {
        Some(v) => seq!["--"@ + name, v@],
        None => Seq::empty(),
    }
}

/// Where the turn keeps its state: the session being resumed, else the chosen directory.
pub open spec fn state_args(resume: Option<Seq<char>>, state_dir: Option<String>) -> Seq<Seq<char>> {
    match resume {
        Some(p) => seq!["--resume"@, p],
        None => match state_dir {
            Some(d) => seq!["--state-dir"@, d@],
            None => Seq::empty(),
        },
    }
}

/// The workflow arguments of one chat turn.
pub open spec fn spec_turn_args(o: TurnOptions, resume: Option<Seq<char>>, text: Seq<char>) -> Seq<Seq<char>> {
    seq!["exec"@] + option_args("project"@, o.project) + option_args("agent"@, o.agent) + option_args(
        "workspace"@,
        o.workspace,
    ) + option_args("tenant"@, o.tenant) + option_args("user"@, o.user) + option_args("model"@, o.model)
        + seq!["--timeout"@, decimal(o.timeout as nat), "--approval-wait"@, decimal(o.approval_wait as nat)]
        + state_args(resume, o.state_dir) + seq!["--prompt="@ + text]
}

fn push_arg(args: &mut Vec<String>, s: String)
    ensures
        texts(final(args)@) == texts(old(args)@).push(s@),
{
    proof {
        lemma_map_values_push(args@, s, |s: String| s@);
    }
    args.push(s);
}

fn push_option(args: &mut Vec<String>, name: &str, value: &Option<String>)
    ensures
        texts(final(args)@) == texts(old(args)@) + option_args(name@, *value),
{
    match value {
        Some(v) => {
            let mut flag = String::new();
            append_text(&mut flag, "--");
            append_text(&mut flag, name);
            push_arg(args, flag);
            let mut copy = String::new();
            append_text(&mut copy, v.as_str());
            push_arg(args, copy);
        },
        None => {
            assert(texts(args@) + Seq::<Seq<char>>::empty() =~= texts(args@));
        },
    }
}

fn push_number(args: &mut Vec<String>, n: u64)
    ensures
        texts(final(args)@) == texts(old(args)@).push(decimal(n as nat)),
{
    let mut text = String::new();
    push_decimal(&mut text, n);
    assert(text@ =~= decimal(n as nat));
    push_arg(args, text);
}

fn push_literal(args: &mut Vec<String>, s: &str)
    ensures
        texts(final(args)@) == texts(old(args)@).push(s@),
{
    let mut text = String::new();
    append_text(&mut text, s);
    push_arg(args, text);
}

/// The arguments of the workflow run for one chat turn on `text`: the carried
/// options that are set, the deadlines, the session state, and the prompt.
pub fn turn_args(o: &TurnOptions, resume: Option<&str>, text: &str) -> (r: Vec<String>)
    ensures
        texts(r@) == spec_turn_args(*o, match resume { Some(p) => Some(p@), None => None }, text@),
{
    let mut args: Vec<String> = Vec::new();
    push_literal(&mut args, "exec");
    push_option(&mut args, "project", &o.project);
    push_option(&mut args, "agent", &o.agent);
    push_option(&mut args, "workspace", &o.workspace);
    push_option(&mut args, "tenant", &o.tenant);
    push_option(&mut args, "user", &o.user);
    push_option(&mut args, "model", &o.model);
    let ghost carried = texts(args@);
    push_literal(&mut args, "--timeout");
    push_number(&mut args, o.timeout);
    push_literal(&mut args, "--approval-wait");
    push_number(&mut args, o.approval_wait);
    assert(texts(args@) =~= carried + seq!["--timeout"@, decimal(o.timeout as nat), "--approval-wait"@, decimal(o.approval_wait as nat)]);
    let ghost timed = texts(args@);
    match resume {
        Some(p) => {
            push_literal(&mut args, "--resume");
            push_literal(&mut args, p);
        },
        None => match &o.state_dir {
            Some(d) => {
                push_literal(&mut args, "--state-dir");
                push_literal(&mut args, d.as_str());
            },
            None => {},
        },
    }
    let ghost resumed = match resume { Some(p) => Some(p@), None => None::<Seq<char>> };
    assert(texts(args@) =~= timed + state_args(resumed, o.state_dir));
    let mut prompt = String::new();
    append_text(&mut prompt, "--prompt=");
    append_text(&mut prompt, text);
    push_arg(&mut args, prompt);
    assert(texts(args@) =~= spec_turn_args(*o, resumed, text@));
    args
}

} // verus!
