//! The doctor's read-only checks of what native execution needs.
use vstd::prelude::*;
use crate::input::InvalidInput;
use crate::transport::TransportFailure;

verus! {

/// The doctor's advice when project access could not be verified.
pub fn advice(failure: Option<TransportFailure>) -> (r: &'static str)
    ensures
        failure == Some(TransportFailure::Rejected(401)) ==> r@ == "Run sikaru auth login, then retry doctor."@,
        failure == Some(TransportFailure::Rejected(403)) ==> r@ == "Check your project membership and API key scopes."@,
        failure == Some(TransportFailure::Rejected(404)) ==> r@ == "Project not found. Check --project or SIKARU_PROJECT."@,
        !(failure == Some(TransportFailure::Rejected(401)) || failure == Some(TransportFailure::Rejected(403))
            || failure == Some(TransportFailure::Rejected(404))) ==> r@
            == "Project access could not be verified. Check connectivity, --base-url, and service availability. No run was started."@,
{
    match failure {
        Some(TransportFailure::Rejected(401)) => "Run sikaru auth login, then retry doctor.",
        Some(TransportFailure::Rejected(403)) => "Check your project membership and API key scopes.",
        Some(TransportFailure::Rejected(404)) => "Project not found. Check --project or SIKARU_PROJECT.",
        _ => "Project access could not be verified. Check connectivity, --base-url, and service availability. No run was started.",
    }
}

/// The metadata of a path that decides whether it can be executed: whether it is
/// a regular file, and its permission bits.
#[derive(Debug, Clone, Copy, PartialEq, Eq, Structural)]
pub struct FileMode {
    pub is_file: bool,
    pub mode: u32,
}

/// A path is executable when its metadata could be read (`meta` is some), it is
/// a regular file, and some execute bit is set.
pub open spec fn spec_executable(meta: Option<FileMode>) -> bool {
    meta matches Some(m) && m.is_file && (m.mode & 73u32) != 0
}

/// Whether a path with metadata `meta` (none when it could not be read) can be
/// executed: a regular file with some execute bit set.
pub fn executable(meta: Option<FileMode>) -> (r: bool)
    ensures
        r == spec_executable(meta),
{
    match meta {
        Some(m) => m.is_file && (m.mode & 73u32) != 0,
        None => false,
    }
}

/// Native execution needs an executable `/bin/bash`, whose metadata is `shell`
/// (none when it could not be read).
pub fn require_shell(shell: Option<FileMode>) -> (r: Result<(), InvalidInput>)
    ensures
        spec_executable(shell) ==> r is Ok,
        !spec_executable(shell) ==> (r matches Err(e) && e.0@
            == "The local executor requires executable /bin/bash. No work started."@),
{
    if !executable(shell) {
        return Err(InvalidInput("The local executor requires executable /bin/bash. No work started."));
    }
    Ok(())
}

/// One of the doctor's checks: its name, outcome and whether it is required, with
/// either advice (`help`) or, for the protocol, its `scope` and `version`.
#[derive(Debug, Clone, Copy, PartialEq, Eq)]
pub struct Check {
    pub name: &'static str,
    pub ok: bool,
    pub required: bool,
    pub help: Option<&'static str>,
    pub scope: Option<&'static str>,
    pub version: Option<&'static str>,
}

/// The doctor's local checks, in order: workspace read access, the shell at
/// `/bin/bash` (metadata `shell`), the optional search tool, and this executor's
/// protocol.
pub fn local_checks(workspace_readable: bool, shell: Option<FileMode>, search_found: bool) -> (r: Vec<Check>)
    ensures
        r@.len() == 4,
        r@[0].name@ == "workspace_read_access"@ && r@[0].ok == workspace_readable && r@[0].required,
        (r@[0].help matches Some(h) && h@ == "Use a readable directory with --workspace PATH. Write access is not checked."@),
        r@[0].scope is None && r@[0].version is None,
        r@[1].name@ == "local_shell"@ && r@[1].ok == spec_executable(shell) && r@[1].required,
        (r@[1].help matches Some(h) && h@ == "The local executor requires executable /bin/bash."@),
        r@[1].scope is None && r@[1].version is None,
        r@[2].name@ == "local_search"@ && r@[2].ok == search_found && !r@[2].required,
        (r@[2].help matches Some(h) && h@ == "Install rg for fast search. If unavailable, use a scoped shell search fallback."@),
        r@[2].scope is None && r@[2].version is None,
        r@[3].name@ == "local_protocol"@ && r@[3].ok && r@[3].required && r@[3].help is None,
        (r@[3].version matches Some(v) && v@ == "sikaru-compute-v1"@),
        (r@[3].scope matches Some(x) && x@ == "This CLI's supported protocol; remote acceptance is checked when attaching."@),
{
    let mut checks: Vec<Check> = Vec::new();
    checks.push(Check {
        name: "workspace_read_access",
        ok: workspace_readable,
        required: true,
        help: Some("Use a readable directory with --workspace PATH. Write access is not checked."),
        scope: None,
        version: None,
    });
    checks.push(Check {
        name: "local_shell",
        ok: executable(shell),
        required: true,
        help: Some("The local executor requires executable /bin/bash."),
        scope: None,
        version: None,
    });
    checks.push(Check {
        name: "local_search",
        ok: search_found,
        required: false,
        help: Some("Install rg for fast search. If unavailable, use a scoped shell search fallback."),
        scope: None,
        version: None,
    });
    checks.push(Check {
        name: "local_protocol",
        ok: true,
        required: true,
        help: None,
        scope: Some("This CLI's supported protocol; remote acceptance is checked when attaching."),
        version: Some("sikaru-compute-v1"),
    });
    checks
}

/// The doctor passes when every required local check passed and the project is readable.
pub fn doctor_ready(checks: &Vec<Check>, project_ok: bool) -> (r: bool)
    ensures
        r == (project_ok && forall|i: int| 0 <= i < checks@.len() ==> (#[trigger] checks@[i]).required
            ==> checks@[i].ok),
{
    let mut i: usize = 0;
    while i < checks.len()
        invariant
            i <= checks@.len(),
            forall|k: int| 0 <= k < i ==> (#[trigger] checks@[k]).required ==> checks@[k].ok,
        decreases checks@.len() - i,
    {
        if checks[i].required && !checks[i].ok {
            return false;
        }
        i = i + 1;
    }
    project_ok
}

} // verus!
