use pulse_orbit::processes::{kill_error_message, KillFailure};

#[test]
fn kill_messages() {
    assert_eq!(
        kill_error_message(1234, &KillFailure::PermissionDenied),
        "Permission denied: cannot kill PID 1234 (owned by another user)"
    );
    assert_eq!(
        kill_error_message(99, &KillFailure::NotFound),
        "Process 99 not found (already exited)"
    );
    assert_eq!(
        kill_error_message(0, &KillFailure::Other("EINVAL: Invalid argument".to_string())),
        "Failed to kill PID 0: EINVAL: Invalid argument"
    );
    assert_eq!(
        kill_error_message(u32::MAX, &KillFailure::NotFound),
        format!("Process {} not found (already exited)", u32::MAX)
    );
}
