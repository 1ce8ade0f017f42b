//! The dispatcher as a transition system: its states, the events it is told
//! of and the actions it answers with.
//!
//! The dispatcher first asks for the notice of terminated children; without
//! it no job is spawned. Every job then goes from `Pending` over `Running` to
//! `Reaped`, and never back.
//! The dispatcher itself spawns nothing and waits for nothing: it names the
//! next action, and is told what came of it.

use crate::parallel::admission::{after_sample, at_free_slot, Admission};
use crate::parallel::exit::combined;
use vstd::prelude::*;

verus! {

/// Where one job of the plan stands.
#[derive(Clone, Copy, Debug, PartialEq, Eq, Structural)]
pub enum JobState {
    /// Not spawned yet.
    Pending,
    /// Spawned and not yet reaped.
    Running,
    /// Finished; this is what it contributes to the exit code.
    Reaped(u8),
}

/// A job that was spawned and is not reaped yet.
#[derive(Clone, Copy, Debug, PartialEq, Eq, Structural)]
pub struct RunningJob {
    /// The place of the job in the plan.
    pub index: usize,
    /// The process that runs it.
    pub pid: u32,
}

/// What a look at one running job found, without blocking.
#[derive(Clone, Copy, Debug, PartialEq, Eq, Structural)]
pub enum Poll {
    /// The process has not terminated.
    StillRunning,
    /// The job is over, with this contribution to the exit code.
    Finished(u8),
}

/// Why a run was given up.
#[derive(Clone, Copy, Debug, PartialEq, Eq, Structural)]
pub enum Cause {
    /// The notice of terminated children could not be subscribed to.
    Subscription,
    /// The job at this place of the plan could not be spawned.
    Spawn { index: usize },
}

/// What the dispatcher is waiting to be told.
#[derive(Clone, Copy, Debug, PartialEq, Eq, Structural)]
pub enum Phase {
    /// The notice of terminated children is to be subscribed to, before
    /// anything else.
    Subscribing,
    /// Every slot is taken: a job has to end before the next can start.
    Reaping,
    /// A slot is free and the load has to be sampled.
    Sampling,
    /// The load was too high; a pause comes before the next sample.
    Sleeping,
    /// The next job of the plan is to be spawned.
    Spawning,
    /// Every job was spawned; the running ones are waited for, oldest first.
    Draining,
    /// Every job is reaped.
    Finished,
    /// The run was given up.
    Aborted(Cause),
}

/// What the dispatcher wants done next.
#[derive(Clone, Copy, Debug, PartialEq, Eq, Structural)]
pub enum Action {
    /// Subscribe to the notice that a child has terminated.
    Subscribe,
    /// Block until some child terminates, then look at every running job in
    /// the order of `running` and report one `Poll` for each.
    AwaitTermination,
    /// Sample the one-minute load average and report whether it is strictly
    /// below the ceiling.
    SampleLoad,
    /// Pause for the controller's interval.
    Sleep,
    /// Spawn the job at this place of the plan.
    Spawn { index: usize },
    /// Block until this job terminates and report its contribution.
    Wait { job: RunningJob },
    /// Leave with this exit code: every job is reaped.
    Exit { code: u8 },
    /// Give up, and spawn nothing more.
    Abort { cause: Cause },
}

/// What the dispatcher is told, as a mathematical value.
pub enum EventView {
    /// The notice of terminated children is subscribed to.
    Subscribed,
    /// The notice of terminated children could not be subscribed to.
    SubscriptionFailed,
    /// One result for each running job, in the order of `running`.
    Polled(Seq<Poll>),
    /// The load was sampled.
    Load { below_ceiling: bool },
    /// The pause is over.
    Slept,
    /// The job was spawned as this process.
    Spawned { pid: u32 },
    /// The job could not be spawned.
    SpawnFailed,
    /// The awaited job ended with this contribution.
    Waited(u8),
}

/// The dispatcher as a mathematical value.
pub struct SchedulerView {
    /// The most jobs that may run at once.
    pub max_jobs: usize,
    /// Whether a load ceiling is set.
    pub gated: bool,
    /// The state of every job, in plan order.
    pub states: Seq<JobState>,
    /// The jobs that run, in the order they were spawned.
    pub running: Seq<RunningJob>,
    /// How many jobs were spawned so far.
    pub launched: nat,
    /// The OR of the contributions reaped so far.
    pub code: u8,
    pub phase: Phase,
}

/// What a job in this state has contributed so far.
pub open spec fn contribution_so_far(state: JobState) -> u8 {
    match state {
        JobState::Reaped(contribution) => contribution,
        _ => 0,
    }
}

/// The contributions of all jobs so far, in plan order: 0 for a job that is
/// not reaped yet.
pub open spec fn contributions(states: Seq<JobState>) -> Seq<u8> {
    states.map_values(|state: JobState| contribution_so_far(state))
}

/// The phase once a spawn or the drain is to be decided: drain when the plan
/// is used up, reap when no slot is free, else ask the admission controller.
pub open spec fn phase_after_launch(
    launched: nat,
    jobs: nat,
    running: nat,
    max_jobs: usize,
    gated: bool,
) -> Phase {
    if launched >= jobs {
        if running == 0 {
            Phase::Finished
        } else {
            Phase::Draining
        }
    } else if running >= max_jobs {
        Phase::Reaping
    } else {
        phase_of(at_free_slot(gated))
    }
}

/// The phase in which the controller's demand is met.
pub open spec fn phase_of(admission: Admission) -> Phase {
    match admission {
        Admission::Proceed => Phase::Spawning,
        Admission::Sample => Phase::Sampling,
        Admission::Pause => Phase::Sleeping,
    }
}

/// The running jobs among the first `n` that a poll found still running.
pub open spec fn survivors(running: Seq<RunningJob>, polls: Seq<Poll>, n: int) -> Seq<RunningJob>
    decreases n,
{
    if n <= 0 {
        Seq::empty()
    } else if polls[n - 1] is StillRunning {
        survivors(running, polls, n - 1).push(running[n - 1])
    } else {
        survivors(running, polls, n - 1)
    }
}

/// The job states once the first `n` results of a poll are taken in: a job
/// found finished is reaped with its contribution.
pub open spec fn settled(
    states: Seq<JobState>,
    running: Seq<RunningJob>,
    polls: Seq<Poll>,
    n: int,
) -> Seq<JobState>
    decreases n,
{
    if n <= 0 {
        states
    } else {
        match polls[n - 1] {
            Poll::Finished(contribution) => settled(states, running, polls, n - 1).update(
                running[n - 1].index as int,
                JobState::Reaped(contribution),
            ),
            Poll::StillRunning => settled(states, running, polls, n - 1),
        }
    }
}

/// The exit code once the first `n` results of a poll are taken in.
pub open spec fn code_after(code: u8, polls: Seq<Poll>, n: int) -> u8
    decreases n,
{
    if n <= 0 {
        code
    } else {
        match polls[n - 1] {
            Poll::Finished(contribution) => code_after(code, polls, n - 1) | contribution,
            Poll::StillRunning => code_after(code, polls, n - 1),
        }
    }
}

impl SchedulerView {
    /// The dispatcher before anything has happened.
    pub open spec fn initial(jobs: nat, max_jobs: usize, gated: bool) -> SchedulerView {
        SchedulerView {
            max_jobs,
            gated,
            states: Seq::new(jobs, |i: int| JobState::Pending),
            running: Seq::empty(),
            launched: 0,
            code: 0,
            phase: Phase::Subscribing,
        }
    }

    /// What holds of the dispatcher at every moment.
    pub open spec fn wf(self) -> bool {
        &&& self.max_jobs > 0
        &&& self.launched <= self.states.len() <= usize::MAX
        &&& self.running.len() <= self.max_jobs
        &&& forall|i: int|
            0 <= i < self.states.len() ==> ((#[trigger] self.states[i]) is Pending <==> i
                >= self.launched)
        &&& forall|k: int|
            0 <= k < self.running.len() ==> (#[trigger] self.running[k]).index < self.launched
                && self.states[self.running[k].index as int] is Running
        &&& forall|k: int, l: int|
            0 <= k < l < self.running.len() ==> (#[trigger] self.running[k]).index
                < (#[trigger] self.running[l]).index
        &&& forall|i: int|
            0 <= i < self.states.len() && (#[trigger] self.states[i]) is Running
                ==> self.runs(i)
        &&& self.code == combined(contributions(self.states))
        &&& self.phase_fits()
    }

    /// Whether the job at `index` is among the running ones.
    pub open spec fn runs(self, index: int) -> bool {
        exists|k: int| 0 <= k < self.running.len() && (#[trigger] self.running[k]).index == index
    }

    /// What each phase takes for granted.
    pub open spec fn phase_fits(self) -> bool {
        let more = self.launched < self.states.len();
        let free = self.running.len() < self.max_jobs;
        match self.phase {
            Phase::Subscribing => self.launched == 0 && self.running.len() == 0,
            Phase::Reaping => more && !free,
            Phase::Sampling => more && free && self.gated,
            Phase::Sleeping => more && free && self.gated,
            Phase::Spawning => more && free,
            Phase::Draining => !more && self.running.len() > 0,
            Phase::Finished => !more && self.running.len() == 0,
            Phase::Aborted(Cause::Subscription) => self.launched == 0 && self.running.len() == 0,
            Phase::Aborted(Cause::Spawn { index }) => more && index == self.launched,
        }
    }

    /// The action that the dispatcher wants done in this state.
    pub open spec fn action(self) -> Action {
        match self.phase {
            Phase::Subscribing => Action::Subscribe,
            Phase::Reaping => Action::AwaitTermination,
            Phase::Sampling => Action::SampleLoad,
            Phase::Sleeping => Action::Sleep,
            Phase::Spawning => Action::Spawn { index: self.launched as usize },
            Phase::Draining => Action::Wait { job: self.running[0] },
            Phase::Finished => Action::Exit { code: self.code },
            Phase::Aborted(cause) => Action::Abort { cause },
        }
    }

    /// Whether `event` answers the action of this state.
    pub open spec fn accepts(self, event: EventView) -> bool {
        match (self.phase, event) {
            (Phase::Subscribing, EventView::Subscribed) => true,
            (Phase::Subscribing, EventView::SubscriptionFailed) => true,
            (Phase::Reaping, EventView::Polled(polls)) => polls.len() == self.running.len(),
            (Phase::Sampling, EventView::Load { .. }) => true,
            (Phase::Sleeping, EventView::Slept) => true,
            (Phase::Spawning, EventView::Spawned { .. }) => true,
            (Phase::Spawning, EventView::SpawnFailed) => true,
            (Phase::Draining, EventView::Waited(_)) => true,
            _ => false,
        }
    }

    /// The state after `event`. An event that does not answer the action of
    /// this state changes nothing.
    pub open spec fn next(self, event: EventView) -> SchedulerView {
        if !self.accepts(event) {
            self
        } else {
            match event {
                EventView::Subscribed => SchedulerView {
                    phase: phase_after_launch(
                        0,
                        self.states.len(),
                        0,
                        self.max_jobs,
                        self.gated,
                    ),
                    ..self
                },
                EventView::SubscriptionFailed => SchedulerView {
                    phase: Phase::Aborted(Cause::Subscription),
                    ..self
                },
                EventView::Polled(polls) => {
                    let n = self.running.len() as int;
                    let running = survivors(self.running, polls, n);
                    SchedulerView {
                        states: settled(self.states, self.running, polls, n),
                        running,
                        code: code_after(self.code, polls, n),
                        phase: if running.len() < self.max_jobs {
                            phase_of(at_free_slot(self.gated))
                        } else {
                            Phase::Reaping
                        },
                        ..self
                    }
                },
                EventView::Load { below_ceiling } => SchedulerView {
                    phase: phase_of(after_sample(below_ceiling)),
                    ..self
                },
                EventView::Slept => SchedulerView { phase: Phase::Sampling, ..self },
                EventView::Spawned { pid } => {
                    let running = self.running.push(
                        RunningJob { index: self.launched as usize, pid },
                    );
                    SchedulerView {
                        states: self.states.update(self.launched as int, JobState::Running),
                        running,
                        launched: self.launched + 1,
                        phase: phase_after_launch(
                            self.launched + 1,
                            self.states.len(),
                            running.len(),
                            self.max_jobs,
                            self.gated,
                        ),
                        ..self
                    }
                },
                EventView::SpawnFailed => SchedulerView {
                    phase: Phase::Aborted(Cause::Spawn { index: self.launched as usize }),
                    ..self
                },
                EventView::Waited(contribution) => {
                    let running = self.running.skip(1);
                    SchedulerView {
                        states: self.states.update(
                            self.running[0].index as int,
                            JobState::Reaped(contribution),
                        ),
                        running,
                        code: self.code | contribution,
                        phase: if running.len() == 0 {
                            Phase::Finished
                        } else {
                            Phase::Draining
                        },
                        ..self
                    }
                },
            }
        }
    }

    /// The state after a whole history of events.
    pub open spec fn after(self, events: Seq<EventView>) -> SchedulerView
        decreases events.len(),
    {
        if events.len() == 0 {
            self
        } else {
            self.after(events.drop_last()).next(events.last())
        }
    }

    /// The places in the plan of the jobs that are in state `Running`.
    pub open spec fn running_set(self) -> Set<int> {
        Set::new(|i: int| 0 <= i < self.states.len() && self.states[i] is Running)
    }

    /// Whether every job of the plan is reaped.
    pub open spec fn all_reaped(self) -> bool {
        forall|i: int| 0 <= i < self.states.len() ==> (#[trigger] self.states[i]) is Reaped
    }
}

/// Whether a job may go from state `before` to state `after` in one step:
/// it stays where it is, is spawned, or is reaped.
pub open spec fn advances(before: JobState, after: JobState) -> bool {
    ||| after == before
    ||| before is Pending && after is Running
    ||| before is Running && after is Reaped
}

} // verus!
