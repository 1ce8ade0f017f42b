//! Admission control: the ceiling on the system load that a new job has to
//! get under.
//!
//! The controller is consulted only right before a spawn, never against a job
//! that is already running. Without a load ceiling it never delays a spawn.

use vstd::prelude::*;

verus! {

/// How long a spawn is held back after a sample at or above the ceiling, in
/// milliseconds.
pub const PAUSE_MILLISECONDS: u64 = 500;

/// What the controller asks for next.
#[derive(Clone, Copy, Debug, PartialEq, Eq, Structural)]
pub enum Admission {
    /// The job may be spawned now.
    Proceed,
    /// The one-minute load average has to be sampled first.
    Sample,
    /// The load is too high: pause, then sample again.
    Pause,
}

/// The controller's demand once a slot is free: a sample where a ceiling is set,
/// nothing where none is.
pub open spec fn at_free_slot(gated: bool) -> Admission {
    if gated {
        Admission::Sample
    } else {
        Admission::Proceed
    }
}

/// The controller's demand after a sample: the job passes exactly when the load
/// was strictly below the ceiling.
pub open spec fn after_sample(below_ceiling: bool) -> Admission {
    if below_ceiling {
        Admission::Proceed
    } else {
        Admission::Pause
    }
}

/// Decides what is asked for once a slot is free.
pub fn admit_at_free_slot(gated: bool) -> (admission: Admission)
    ensures
        admission == at_free_slot(gated),
        !gated ==> admission == Admission::Proceed,
{
    if gated {
        Admission::Sample
    } else {
        Admission::Proceed
    }
}

/// Decides what is asked for after a sample of the load.
pub fn admit_after_sample(below_ceiling: bool) -> (admission: Admission)
    ensures
        admission == after_sample(below_ceiling),
{
    if below_ceiling {
        Admission::Proceed
    } else {
        Admission::Pause
    }
}

} // verus!
