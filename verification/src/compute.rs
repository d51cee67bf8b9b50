//! The outcome of a run as the command line reports it.
use vstd::prelude::*;
use crate::text::text_equal;

verus! {

/// The process exit code of a result with `status`: 0 completed, 2 approval
/// required, 3 cancelled, 4 recovery required, 1 otherwise.
pub fn exit_code(status: Option<&str>) -> (r: i32)
    ensures
        r == match status {
            Some(s) => if s@ == "completed"@ {
                0i32
            } else if s@ == "approval_required"@ {
                2i32
            } else if s@ == "cancelled"@ {
                3i32
            } else if s@ == "recovery_required"@ {
                4i32
            } else {
                1i32
            },
            None => 1i32,
        },
{
    match status {
        Some(s) => if text_equal(s, "completed") {
            0
        } else if text_equal(s, "approval_required") {
            2
        } else if text_equal(s, "cancelled") {
            3
        } else if text_equal(s, "recovery_required") {
            4
        } else {
            1
        },
        None => 1,
    }
}

} // verus!
