//! The text the monitor answers a failed process termination with.
use vstd::prelude::*;
use crate::text::{append_decimal, decimal};

verus! {

/// Why sending SIGTERM to a process failed.
#[derive(Clone, Debug)]
pub enum KillFailure {
    /// The process belongs to another user (`EPERM`).
    PermissionDenied,
    /// No such process (`ESRCH`).
    NotFound,
    /// Any other error, with the system's description of it.
    Other(String),
}

/// The message for a failed termination of `pid`.
pub open spec fn spec_kill_message(pid: u32, failure: KillFailure) -> Seq<char> {
    match failure {
        KillFailure::PermissionDenied => "Permission denied: cannot kill PID "@ + decimal(pid as nat)
            + " (owned by another user)"@,
        KillFailure::NotFound => "Process "@ + decimal(pid as nat) + " not found (already exited)"@,
        KillFailure::Other(description) => "Failed to kill PID "@ + decimal(pid as nat) + ": "@
            + description@,
    }
}

/// The message shown when terminating `pid` failed.
pub fn kill_error_message(pid: u32, failure: &KillFailure) -> (r: String)
    ensures
        r@ == spec_kill_message(pid, *failure),
{
    match failure {
        KillFailure::PermissionDenied => {
            let mut s = String::from_str("Permission denied: cannot kill PID ");
            append_decimal(&mut s, pid);
            s.append(" (owned by another user)");
            s
        },
        KillFailure::NotFound => {
            let mut s = String::from_str("Process ");
            append_decimal(&mut s, pid);
            s.append(" not found (already exited)");
            s
        },
        KillFailure::Other(description) => {
            let mut s = String::from_str("Failed to kill PID ");
            append_decimal(&mut s, pid);
            s.append(": ");
            s.append(description.as_str());
            s
        },
    }
}

} // verus!
