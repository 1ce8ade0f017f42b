//! The exit status that stands for the way a child process ended.

use vstd::prelude::*;

verus! {

/// The largest signal number that a wait status can hold.
pub const MAX_SIGNAL: i32 = 127;

/// The status that stands for a child that was terminated by `signal`: 128
/// plus the signal number.
pub open spec fn signal_status(signal: i32) -> int {
    128 + signal
}

/// The status that stands for the way a child ended: its exit code where it
/// exited on its own, 128 plus the signal number where a signal terminated
/// it, and 1 where neither is known.
pub open spec fn status_of(code: Option<i32>, signal: Option<i32>) -> int {
    match code {
        Some(code) => code as int,
        None => match signal {
            Some(signal) => signal_status(signal),
            None => 1,
        },
    }
}

/// Whether a signal number is one that a wait status can hold.
pub open spec fn signal_fits(signal: Option<i32>) -> bool {
    signal matches Some(number) ==> 0 <= number <= MAX_SIGNAL
}

/// The status that stands for the way a child ended.
pub fn termination_status(code: Option<i32>, signal: Option<i32>) -> (status: i32)
    requires
        signal_fits(signal),
    ensures
        status == status_of(code, signal),
{
    match code {
        Some(code) => code,
        None => match signal {
            Some(signal) => 128 + signal,
            None => 1,
        },
    }
}

} // verus!
