//! The dispatcher: it decides when the next job of the plan is spawned and
//! when running jobs are reaped, and keeps the exit code.
//!
//! The dispatcher performs nothing itself. Its caller asks for the action,
//! performs it, and reports the outcome as an event:
//!
//! ```text
//! let mut action = scheduler.action();
//! loop {
//!     let event = match action {
//!         Action::Exit { code } => return code,
//!         Action::Abort { cause } => fail,
//!         other => perform(other),
//!     };
//!     action = scheduler.step(&event);
//! }
//! ```

use crate::parallel::admission::{admit_after_sample, admit_at_free_slot, Admission};
use crate::parallel::exit::ExitAggregate;
use crate::parallel::laws::{lemma_initial_is_wf, lemma_next_is_wf};
use crate::parallel::model::{
    code_after, phase_after_launch, phase_of, settled, survivors, Action, Cause, EventView,
    JobState, Phase, Poll, RunningJob, SchedulerView,
};
use crate::parallel::options::Settings;
use crate::parallel::plan::ExecutionPlan;
use vstd::prelude::*;

verus! {

/// What the dispatcher is told after an action was performed.
#[derive(Clone, Debug, PartialEq, Eq)]
pub enum Event {
    /// The notice of terminated children is subscribed to.
    Subscribed,
    /// The notice of terminated children could not be subscribed to.
    SubscriptionFailed,
    /// A child terminated and every running job was looked at: one result
    /// for each, in the order of the running jobs.
    Polled(Vec<Poll>),
    /// The load was sampled; `below_ceiling` says whether it was strictly
    /// below the ceiling.
    Load { below_ceiling: bool },
    /// The pause is over.
    Slept,
    /// The job was spawned as this process.
    Spawned { pid: u32 },
    /// The job could not be spawned.
    SpawnFailed,
    /// The awaited job ended with this contribution.
    Waited(u8),
}

impl View for Event {
    type V = EventView;

    open spec fn view(&self) -> EventView {
        match self {
            Event::Subscribed => EventView::Subscribed,
            Event::SubscriptionFailed => EventView::SubscriptionFailed,
            Event::Polled(polls) => EventView::Polled(polls@),
            Event::Load { below_ceiling } => EventView::Load { below_ceiling: *below_ceiling },
            Event::Slept => EventView::Slept,
            Event::Spawned { pid } => EventView::Spawned { pid: *pid },
            Event::SpawnFailed => EventView::SpawnFailed,
            Event::Waited(contribution) => EventView::Waited(*contribution),
        }
    }
}

/// The dispatcher of one run.
pub struct Scheduler {
    max_jobs: usize,
    gated: bool,
    states: Vec<JobState>,
    running: Vec<RunningJob>,
    launched: usize,
    aggregate: ExitAggregate,
    phase: Phase,
}

impl View for Scheduler {
    type V = SchedulerView;

    closed spec fn view(&self) -> SchedulerView {
        SchedulerView {
            max_jobs: self.max_jobs,
            gated: self.gated,
            states: self.states@,
            running: self.running@,
            launched: self.launched as nat,
            code: self.aggregate.value(),
            phase: self.phase,
        }
    }
}

/// The phase in which the controller's demand is met.
fn phase_for(admission: Admission) -> (phase: Phase)
    ensures
        phase == phase_of(admission),
{
    match admission {
        Admission::Proceed => Phase::Spawning,
        Admission::Sample => Phase::Sampling,
        Admission::Pause => Phase::Sleeping,
    }
}

/// The phase once a spawn or the drain is to be decided.
fn decide(launched: usize, jobs: usize, running: usize, max_jobs: usize, gated: bool) -> (phase:
    Phase)
    ensures
        phase == phase_after_launch(launched as nat, jobs as nat, running as nat, max_jobs, gated),
{
    if launched >= jobs {
        if running == 0 {
            Phase::Finished
        } else {
            Phase::Draining
        }
    } else if running >= max_jobs {
        Phase::Reaping
    } else {
        phase_for(admit_at_free_slot(gated))
    }
}

impl Scheduler {
    /// A dispatcher for a plan of `jobs` jobs, of which at most `max_jobs`
    /// run at once; `gated` says whether a load ceiling is set.
    pub fn new(jobs: usize, max_jobs: usize, gated: bool) -> (scheduler: Scheduler)
        requires
            max_jobs > 0,
        ensures
            scheduler@ == SchedulerView::initial(jobs as nat, max_jobs, gated),
            scheduler@.wf(),
    {
        let mut states: Vec<JobState> = Vec::new();
        let mut i: usize = 0;
        while i < jobs
            invariant
                i <= jobs,
                states@.len() == i,
                forall|j: int| 0 <= j < i ==> states@[j] == JobState::Pending,
            decreases jobs - i,
        {
            states.push(JobState::Pending);
            i += 1;
        }
        let scheduler = Scheduler {
            max_jobs,
            gated,
            states,
            running: Vec::new(),
            launched: 0,
            aggregate: ExitAggregate::new(),
            phase: Phase::Subscribing,
        };
        proof {
            let model = SchedulerView::initial(jobs as nat, max_jobs, gated);
            assert(scheduler@.states =~= model.states);
            assert(scheduler@.running =~= model.running);
            lemma_initial_is_wf(jobs as nat, max_jobs, gated);
        }
        scheduler
    }

    /// A dispatcher for the jobs of `plan` under `settings`: as many jobs run
    /// at once as `-j` allows, and new jobs are held back by the load exactly
    /// where `-l` has set a ceiling.
    pub fn for_plan(plan: &ExecutionPlan, settings: &Settings) -> (scheduler: Scheduler)
        requires
            settings@.wf(),
        ensures
            scheduler@ == SchedulerView::initial(
                plan@.len(),
                settings.max_jobs,
                settings@.max_load is Some,
            ),
            scheduler@.wf(),
    {
        Scheduler::new(plan.len(), settings.max_jobs, settings.gated())
    }

    /// The action that the dispatcher wants done now.
    pub fn action(&self) -> (action: Action)
        requires
            self@.wf(),
        ensures
            action == self@.action(),
    {
        match self.phase {
            Phase::Subscribing => Action::Subscribe,
            Phase::Reaping => Action::AwaitTermination,
            Phase::Sampling => Action::SampleLoad,
            Phase::Sleeping => Action::Sleep,
            Phase::Spawning => Action::Spawn { index: self.launched },
            Phase::Draining => Action::Wait { job: self.running[0] },
            Phase::Finished => Action::Exit { code: self.aggregate.code() },
            Phase::Aborted(cause) => Action::Abort { cause },
        }
    }

    /// Takes in the results of a poll: the jobs found finished are reaped.
    fn reap(&mut self, polls: &Vec<Poll>)
        requires
            old(self)@.wf(),
            old(self)@.accepts(EventView::Polled(polls@)),
        ensures
            final(self)@ == old(self)@.next(EventView::Polled(polls@)),
    {
        let ghost before = self@;
        proof {
            lemma_next_is_wf(before, EventView::Polled(polls@));
        }
        let n = self.running.len();
        let mut kept: Vec<RunningJob> = Vec::new();
        let mut k: usize = 0;
        while k < n
            invariant
                k <= n,
                n == before.running.len(),
                polls@.len() == n,
                before.wf(),
                self.running@ == before.running,
                self.max_jobs == before.max_jobs,
                self.gated == before.gated,
                self.launched == before.launched,
                self.phase == before.phase,
                self.states@.len() == before.states.len(),
                self.states@ == settled(before.states, before.running, polls@, k as int),
                kept@ == survivors(before.running, polls@, k as int),
                self.aggregate.value() == code_after(before.code, polls@, k as int),
            decreases n - k,
        {
            let job = self.running[k];
            match polls[k] {
                Poll::StillRunning => {
                    kept.push(job);
                },
                Poll::Finished(contribution) => {
                    assert(before.running[k as int].index < before.launched);
                    self.states.set(job.index, JobState::Reaped(contribution));
                    self.aggregate.record(contribution);
                },
            }
            k += 1;
        }
        self.phase = if kept.len() < self.max_jobs {
            phase_for(admit_at_free_slot(self.gated))
        } else {
            Phase::Reaping
        };
        self.running = kept;
    }

    /// Tells the dispatcher what came of the action it asked for, and
    /// returns the action it wants done next. An event that does not answer
    /// that action is ignored.
    pub fn step(&mut self, event: &Event) -> (action: Action)
        requires
            old(self)@.wf(),
        ensures
            final(self)@ == old(self)@.next(event@),
            final(self)@.wf(),
            action == final(self)@.action(),
    {
        proof {
            lemma_next_is_wf(self@, event@);
        }
        match event {
            Event::Subscribed => {
                if self.phase == Phase::Subscribing {
                    self.phase = decide(0, self.states.len(), 0, self.max_jobs, self.gated);
                }
            },
            Event::SubscriptionFailed => {
                if self.phase == Phase::Subscribing {
                    self.phase = Phase::Aborted(Cause::Subscription);
                }
            },
            Event::Polled(polls) => {
                if self.phase == Phase::Reaping && polls.len() == self.running.len() {
                    self.reap(polls);
                }
            },
            Event::Load { below_ceiling } => {
                if self.phase == Phase::Sampling {
                    self.phase = phase_for(admit_after_sample(*below_ceiling));
                }
            },
            Event::Slept => {
                if self.phase == Phase::Sleeping {
                    self.phase = Phase::Sampling;
                }
            },
            Event::Spawned { pid } => {
                if self.phase == Phase::Spawning {
                    self.states.set(self.launched, JobState::Running);
                    self.running.push(RunningJob { index: self.launched, pid: *pid });
                    self.launched = self.launched + 1;
                    self.phase = decide(
                        self.launched,
                        self.states.len(),
                        self.running.len(),
                        self.max_jobs,
                        self.gated,
                    );
                }
            },
            Event::SpawnFailed => {
                if self.phase == Phase::Spawning {
                    self.phase = Phase::Aborted(Cause::Spawn { index: self.launched });
                }
            },
            Event::Waited(contribution) => {
                if self.phase == Phase::Draining {
                    let ghost before = self.running@;
                    let job = self.running.remove(0);
                    assert(self.running@ =~= before.skip(1));
                    self.states.set(job.index, JobState::Reaped(*contribution));
                    self.aggregate.record(*contribution);
                    self.phase = if self.running.len() == 0 {
                        Phase::Finished
                    } else {
                        Phase::Draining
                    };
                }
            },
        }
        self.action()
    }

    /// The jobs that are running, in the order they were spawned.
    pub fn running(&self) -> (running: &Vec<RunningJob>)
        ensures
            running@ == self@.running,
    {
        &self.running
    }

    /// The state of the job at `index` of the plan.
    pub fn state(&self, index: usize) -> (state: JobState)
        requires
            index < self@.states.len(),
        ensures
            state == self@.states[index as int],
    {
        self.states[index]
    }

    /// The number of jobs in the plan.
    pub fn jobs(&self) -> (jobs: usize)
        ensures
            jobs == self@.states.len(),
    {
        self.states.len()
    }

    /// The OR of the contributions reaped so far.
    pub fn exit_code(&self) -> (code: u8)
        ensures
            code == self@.code,
    {
        self.aggregate.code()
    }
}

} // verus!
