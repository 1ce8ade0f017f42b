//! What holds of the dispatcher in every state it can reach.

use crate::parallel::exit::{combined, lemma_combined_remove};
use crate::parallel::model::{
    advances, code_after, contribution_so_far, contributions, settled, survivors, Action, Cause,
    EventView, JobState, Phase, Poll, RunningJob, SchedulerView,
};
use vstd::prelude::*;

verus! {

/// A job that has contributed nothing so far ORs its contribution into the
/// aggregate when it is reaped.
proof fn lemma_combined_update(values: Seq<u8>, i: int, contribution: u8)
    requires
        0 <= i < values.len(),
        values[i] == 0,
    ensures
        combined(values.update(i, contribution)) == combined(values) | contribution,
{
    let updated = values.update(i, contribution);
    lemma_combined_remove(values, i);
    lemma_combined_remove(updated, i);
    assert(updated.remove(i) =~= values.remove(i));
    let rest = combined(values.remove(i));
    assert(rest | 0u8 == rest) by (bit_vector);
}

/// Changing the state of one job changes its place in the contributions and
/// no other.
proof fn lemma_contributions_update(states: Seq<JobState>, i: int, state: JobState)
    requires
        0 <= i < states.len(),
    ensures
        contributions(states.update(i, state)) == contributions(states).update(
            i,
            contribution_so_far(state),
        ),
{
    assert(contributions(states.update(i, state)) =~= contributions(states).update(
        i,
        contribution_so_far(state),
    ));
}

/// The places among the first `n` results of a poll that say "still
/// running", in rising order.
spec fn kept_places(polls: Seq<Poll>, n: int) -> Seq<int>
    decreases n,
{
    if n <= 0 {
        Seq::empty()
    } else if polls[n - 1] is StillRunning {
        kept_places(polls, n - 1).push(n - 1)
    } else {
        kept_places(polls, n - 1)
    }
}

/// How many of the first `k` results of a poll say "still running".
spec fn kept_before(polls: Seq<Poll>, k: int) -> int
    decreases k,
{
    if k <= 0 {
        0
    } else if polls[k - 1] is StillRunning {
        kept_before(polls, k - 1) + 1
    } else {
        kept_before(polls, k - 1)
    }
}

/// The jobs that a poll keeps are the running jobs that it found still
/// running, in their old order.
proof fn lemma_survivors(running: Seq<RunningJob>, polls: Seq<Poll>, n: int)
    requires
        polls.len() == running.len(),
        0 <= n <= running.len(),
    ensures
        ({
            let kept = survivors(running, polls, n);
            let places = kept_places(polls, n);
            &&& kept.len() == places.len() == kept_before(polls, n) <= n
            &&& forall|m: int|
                0 <= m < kept.len() ==> 0 <= #[trigger] places[m] < n
                    && polls[places[m]] is StillRunning && kept[m] == running[places[m]]
            &&& forall|a: int, b: int|
                0 <= a < b < kept.len() ==> #[trigger] places[a] < #[trigger] places[b]
            &&& forall|k: int|
                0 <= k < n && (#[trigger] polls[k]) is StillRunning ==> 0 <= kept_before(polls, k)
                    < kept.len() && places[kept_before(polls, k)] == k
        }),
    decreases n,
{
    if n > 0 {
        lemma_survivors(running, polls, n - 1);
        let places_before = kept_places(polls, n - 1);
        let places = kept_places(polls, n);
        if polls[n - 1] is StillRunning {
            assert forall|a: int, b: int| 0 <= a < b < places.len() implies #[trigger] places[a]
                < #[trigger] places[b] by {
                if b < places_before.len() {
                    assert(places[a] == places_before[a] && places[b] == places_before[b]);
                } else {
                    assert(places[a] == places_before[a]);
                }
            }
            assert forall|k: int| 0 <= k < n && (#[trigger] polls[k]) is StillRunning implies 0
                <= kept_before(polls, k) < places.len() && places[kept_before(polls, k)] == k by {
                if k < n - 1 {
                    assert(places[kept_before(polls, k)] == places_before[kept_before(polls, k)]);
                }
            }
        }
    }
}

/// Whether `states` lists a running job at every place that `running` names.
spec fn all_running(states: Seq<JobState>, running: Seq<RunningJob>) -> bool {
    forall|k: int|
        0 <= k < running.len() ==> (#[trigger] running[k]).index < states.len()
            && states[running[k].index as int] is Running
}

/// The states that a poll leaves: a job found finished is reaped with its
/// contribution, and nothing else changes.
proof fn lemma_settled(
    states: Seq<JobState>,
    running: Seq<RunningJob>,
    polls: Seq<Poll>,
    n: int,
)
    requires
        polls.len() == running.len(),
        0 <= n <= running.len(),
        all_running(states, running),
        forall|k: int, l: int|
            0 <= k < l < running.len() ==> (#[trigger] running[k]).index < (
            #[trigger] running[l]).index,
    ensures
        ({
            let after = settled(states, running, polls, n);
            &&& after.len() == states.len()
            &&& forall|i: int|
                0 <= i < after.len() ==> #[trigger] after[i] == states[i] || (states[i] is Running
                    && after[i] is Reaped)
            &&& forall|k: int|
                0 <= k < n ==> match #[trigger] polls[k] {
                    Poll::Finished(contribution) => after[running[k].index as int]
                        == JobState::Reaped(contribution),
                    Poll::StillRunning => after[running[k].index as int] is Running,
                }
            &&& forall|k: int|
                n <= k < running.len() ==> after[(#[trigger] running[k]).index as int] is Running
        }),
    decreases n,
{
    if n > 0 {
        lemma_settled(states, running, polls, n - 1);
        let before = settled(states, running, polls, n - 1);
        let after = settled(states, running, polls, n);
        let at = running[n - 1].index as int;
        assert(before[at] is Running);
        assert forall|k: int| 0 <= k < n implies match #[trigger] polls[k] {
            Poll::Finished(c) => after[running[k].index as int] == JobState::Reaped(c),
            Poll::StillRunning => after[running[k].index as int] is Running,
        } by {
            if k < n - 1 {
                assert(running[k].index < running[n - 1].index);
            }
        }
        assert forall|k: int| n <= k < running.len() implies after[(
        #[trigger] running[k]).index as int] is Running by {
            assert(running[n - 1].index < running[k].index);
        }
    }
}

/// The exit code that a poll leaves is the OR of what the jobs have
/// contributed by then.
proof fn lemma_code_after(
    states: Seq<JobState>,
    running: Seq<RunningJob>,
    polls: Seq<Poll>,
    n: int,
)
    requires
        polls.len() == running.len(),
        0 <= n <= running.len(),
        all_running(states, running),
        forall|k: int, l: int|
            0 <= k < l < running.len() ==> (#[trigger] running[k]).index < (
            #[trigger] running[l]).index,
    ensures
        code_after(combined(contributions(states)), polls, n) == combined(
            contributions(settled(states, running, polls, n)),
        ),
    decreases n,
{
    if n > 0 {
        lemma_code_after(states, running, polls, n - 1);
        lemma_settled(states, running, polls, n - 1);
        let before = settled(states, running, polls, n - 1);
        let at = running[n - 1].index as int;
        assert(before[at] is Running);
        match polls[n - 1] {
            Poll::Finished(contribution) => {
                lemma_contributions_update(before, at, JobState::Reaped(contribution));
                lemma_combined_update(contributions(before), at, contribution);
            },
            Poll::StillRunning => {},
        }
    }
}

/// Every step keeps the dispatcher well-formed.
pub proof fn lemma_next_is_wf(s: SchedulerView, event: EventView)
    requires
        s.wf(),
    ensures
        s.next(event).wf(),
{
    let t = s.next(event);
    if s.accepts(event) {
        match event {
            EventView::Polled(polls) => {
                let n = s.running.len() as int;
                lemma_survivors(s.running, polls, n);
                lemma_settled(s.states, s.running, polls, n);
                lemma_code_after(s.states, s.running, polls, n);
                let places = kept_places(polls, n);
                assert forall|k: int| 0 <= k < t.running.len() implies (
                #[trigger] t.running[k]).index < t.launched
                    && t.states[t.running[k].index as int] is Running by {
                    let j = places[k];
                    assert(polls[j] is StillRunning);
                    assert(s.running[j].index < s.launched);
                }
                assert forall|k: int, l: int| 0 <= k < l < t.running.len() implies (
                #[trigger] t.running[k]).index < (#[trigger] t.running[l]).index by {
                    assert(places[k] < places[l]);
                    assert(s.running[places[k]].index < s.running[places[l]].index);
                }
                assert forall|i: int|
                    0 <= i < t.states.len() && (#[trigger] t.states[i]) is Running implies t.runs(
                    i,
                ) by {
                    assert(s.states[i] is Running);
                    assert(s.runs(i));
                    let k = choose|k: int|
                        0 <= k < s.running.len() && (#[trigger] s.running[k]).index == i;
                    assert(polls[k] is StillRunning);
                    let m = kept_before(polls, k);
                    assert(places[m] == k);
                    assert(t.running[m].index == i);
                }
            },
            EventView::Subscribed => {},
            EventView::SubscriptionFailed => {},
            EventView::Load { below_ceiling } => {},
            EventView::Slept => {},
            EventView::Spawned { pid } => {
                let at = s.launched as int;
                lemma_contributions_update(s.states, at, JobState::Running);
                assert(contributions(s.states).update(at, 0u8) =~= contributions(s.states));
                assert forall|i: int|
                    0 <= i < t.states.len() && (#[trigger] t.states[i]) is Running implies t.runs(
                    i,
                ) by {
                    if i == at {
                        assert(t.running[t.running.len() - 1].index == i);
                    } else {
                        assert(s.states[i] is Running);
                        assert(s.runs(i));
                        let k = choose|k: int|
                            0 <= k < s.running.len() && (#[trigger] s.running[k]).index == i;
                        assert(t.running[k].index == i);
                    }
                }
                assert forall|k: int, l: int| 0 <= k < l < t.running.len() implies (
                #[trigger] t.running[k]).index < (#[trigger] t.running[l]).index by {
                    if l == t.running.len() - 1 {
                        assert(t.running[k] == s.running[k]);
                    } else {
                        assert(t.running[k] == s.running[k] && t.running[l] == s.running[l]);
                    }
                }
                assert forall|k: int| 0 <= k < t.running.len() implies (
                #[trigger] t.running[k]).index < t.launched
                    && t.states[t.running[k].index as int] is Running by {
                    if k < s.running.len() {
                        assert(t.running[k] == s.running[k]);
                    }
                }
            },
            EventView::SpawnFailed => {},
            EventView::Waited(contribution) => {
                let first = s.running[0];
                let at = first.index as int;
                lemma_contributions_update(s.states, at, JobState::Reaped(contribution));
                lemma_combined_update(contributions(s.states), at, contribution);
                assert forall|k: int| 0 <= k < t.running.len() implies (
                #[trigger] t.running[k]).index < t.launched
                    && t.states[t.running[k].index as int] is Running by {
                    assert(t.running[k] == s.running[k + 1]);
                    assert(s.running[0].index < s.running[k + 1].index);
                }
                assert forall|k: int, l: int| 0 <= k < l < t.running.len() implies (
                #[trigger] t.running[k]).index < (#[trigger] t.running[l]).index by {
                    assert(t.running[k] == s.running[k + 1] && t.running[l] == s.running[l + 1]);
                }
                assert forall|i: int|
                    0 <= i < t.states.len() && (#[trigger] t.states[i]) is Running implies t.runs(
                    i,
                ) by {
                    assert(s.states[i] is Running);
                    assert(s.runs(i));
                    let k = choose|k: int|
                        0 <= k < s.running.len() && (#[trigger] s.running[k]).index == i;
                    assert(k > 0);
                    assert(t.running[k - 1].index == i);
                }
            },
        }
    }
}

/// The dispatcher starts out well-formed.
pub proof fn lemma_initial_is_wf(jobs: nat, max_jobs: usize, gated: bool)
    requires
        max_jobs > 0,
        jobs <= usize::MAX,
    ensures
        SchedulerView::initial(jobs, max_jobs, gated).wf(),
{
    let s = SchedulerView::initial(jobs, max_jobs, gated);
    lemma_combined_all_zero(contributions(s.states));
}

/// Contributions that are all 0 combine to 0.
proof fn lemma_combined_all_zero(values: Seq<u8>)
    requires
        forall|i: int| 0 <= i < values.len() ==> values[i] == 0,
    ensures
        combined(values) == 0,
    decreases values.len(),
{
    if values.len() > 0 {
        lemma_combined_all_zero(values.drop_last());
        assert(0u8 | 0u8 == 0u8) by (bit_vector);
    }
}

/// Whatever happens, in whatever order, the dispatcher stays well-formed.
pub proof fn lemma_always_wf(jobs: nat, max_jobs: usize, gated: bool, events: Seq<EventView>)
    requires
        max_jobs > 0,
        jobs <= usize::MAX,
    ensures
        SchedulerView::initial(jobs, max_jobs, gated).after(events).wf(),
    decreases events.len(),
{
    let start = SchedulerView::initial(jobs, max_jobs, gated);
    if events.len() == 0 {
        lemma_initial_is_wf(jobs, max_jobs, gated);
    } else {
        lemma_always_wf(jobs, max_jobs, gated, events.drop_last());
        lemma_next_is_wf(start.after(events.drop_last()), events.last());
    }
}

/// Concurrency bound: the jobs in state `Running` are those that the
/// dispatcher tracks, and there are never more of them than `max_jobs`.
pub proof fn lemma_concurrency_bound(s: SchedulerView)
    requires
        s.wf(),
    ensures
        s.running_set().finite(),
        s.running_set().len() == s.running.len(),
        s.running_set().len() <= s.max_jobs,
{
    let places = s.running.map_values(|job: RunningJob| job.index as int);
    assert(places.no_duplicates()) by {
        assert forall|a: int, b: int|
            0 <= a < places.len() && 0 <= b < places.len() && a != b implies places[a]
            != places[b] by {
            if a < b {
                assert(s.running[a].index < s.running[b].index);
            } else {
                assert(s.running[b].index < s.running[a].index);
            }
        }
    }
    places.unique_seq_to_set();
    vstd::seq_lib::seq_to_set_is_finite(places);
    assert(places.to_set() =~= s.running_set()) by {
        assert forall|i: int| places.to_set().contains(i) implies s.running_set().contains(i) by {
            let k = choose|k: int| 0 <= k < places.len() && places[k] == i;
            assert(s.running[k].index == i);
        }
        assert forall|i: int| s.running_set().contains(i) implies places.to_set().contains(i) by {
            assert(s.runs(i));
            let k = choose|k: int| 0 <= k < s.running.len() && (#[trigger] s.running[k]).index == i;
            assert(places[k] == i);
        }
    }
}

/// Concurrency bound, over whole runs: whatever happens, in whatever order,
/// at no point are more than `max_jobs` jobs in state `Running`.
pub proof fn lemma_never_more_than_max_jobs(
    jobs: nat,
    max_jobs: usize,
    gated: bool,
    events: Seq<EventView>,
)
    requires
        max_jobs > 0,
        jobs <= usize::MAX,
    ensures
        SchedulerView::initial(jobs, max_jobs, gated).after(events).running_set().finite(),
        SchedulerView::initial(jobs, max_jobs, gated).after(events).running_set().len() <= max_jobs,
{
    lemma_always_wf(jobs, max_jobs, gated, events);
    lemma_settings_stay(SchedulerView::initial(jobs, max_jobs, gated), events);
    lemma_concurrency_bound(SchedulerView::initial(jobs, max_jobs, gated).after(events));
}

/// Completeness, one step at a time: the plan keeps its length, and every job
/// stays where it is, is spawned, or is reaped. No job goes back, and no
/// contribution changes once it is recorded.
pub proof fn lemma_jobs_only_advance(s: SchedulerView, event: EventView)
    requires
        s.wf(),
    ensures
        s.next(event).states.len() == s.states.len(),
        forall|i: int|
            0 <= i < s.states.len() ==> advances(s.states[i], #[trigger] s.next(event).states[i]),
{
    if s.accepts(event) {
        match event {
            EventView::Polled(polls) => {
                lemma_settled(s.states, s.running, polls, s.running.len() as int);
            },
            _ => {},
        }
    }
}

/// Whether a job can get from state `before` to state `after` in any number
/// of steps.
pub open spec fn reaches(before: JobState, after: JobState) -> bool {
    ||| after == before
    ||| before is Pending && !(after is Pending)
    ||| before is Running && after is Reaped
}

/// Completeness, over whole runs: whatever happens, a job never returns to
/// an earlier state, so it is spawned at most once and reaped at most once.
pub proof fn lemma_jobs_never_go_back(s: SchedulerView, events: Seq<EventView>)
    requires
        s.wf(),
    ensures
        s.after(events).wf(),
        s.after(events).states.len() == s.states.len(),
        forall|i: int|
            0 <= i < s.states.len() ==> reaches(s.states[i], #[trigger] s.after(events).states[i]),
    decreases events.len(),
{
    if events.len() > 0 {
        let before = s.after(events.drop_last());
        lemma_jobs_never_go_back(s, events.drop_last());
        lemma_next_is_wf(before, events.last());
        lemma_jobs_only_advance(before, events.last());
        assert forall|i: int| 0 <= i < s.states.len() implies reaches(
            s.states[i],
            #[trigger] s.after(events).states[i],
        ) by {
            assert(reaches(s.states[i], before.states[i]));
            assert(advances(before.states[i], before.next(events.last()).states[i]));
        }
    }
}

/// Completeness, at the end: the dispatcher asks to exit only when every job
/// of the plan is reaped.
pub proof fn lemma_exit_means_all_reaped(s: SchedulerView)
    requires
        s.wf(),
        s.action() is Exit,
    ensures
        s.all_reaped(),
{
    assert forall|i: int| 0 <= i < s.states.len() implies (#[trigger] s.states[i]) is Reaped by {
        if s.states[i] is Running {
            assert(s.runs(i));
        }
    }
}

/// Aggregation: the exit code that the dispatcher leaves with is the OR of
/// the contributions of all jobs of the plan.
pub proof fn lemma_exit_code_is_or_of_all(s: SchedulerView)
    requires
        s.wf(),
        s.action() is Exit,
    ensures
        s.action() == (Action::Exit { code: combined(contributions(s.states)) }),
        forall|i: int|
            0 <= i < s.states.len() ==> #[trigger] s.states[i] == JobState::Reaped(
                contributions(s.states)[i],
            ),
{
    lemma_exit_means_all_reaped(s);
}

/// Launch order: the job that the dispatcher asks to spawn is the first one
/// of the plan that is still pending.
pub proof fn lemma_launch_order(s: SchedulerView)
    requires
        s.wf(),
        s.action() is Spawn,
    ensures
        s.action() == (Action::Spawn { index: s.launched as usize }),
        s.launched < s.states.len(),
        forall|i: int| 0 <= i < s.launched ==> !((#[trigger] s.states[i]) is Pending),
        forall|i: int| s.launched <= i < s.states.len() ==> (#[trigger] s.states[i]) is Pending,
{
}

/// Launch order, one step on: a spawn that succeeded makes the job run and
/// moves on to the next place of the plan.
pub proof fn lemma_spawn_takes_next(s: SchedulerView, pid: u32)
    requires
        s.wf(),
        s.action() is Spawn,
    ensures
        s.next(EventView::Spawned { pid }).launched == s.launched + 1,
        s.next(EventView::Spawned { pid }).states == s.states.update(
            s.launched as int,
            JobState::Running,
        ),
        s.next(EventView::Spawned { pid }).running == s.running.push(
            RunningJob { index: s.launched as usize, pid },
        ),
{
}

/// The subscription comes first: as long as the dispatcher asks for it, and
/// where it has failed, no job was ever spawned, and every job is pending.
pub proof fn lemma_subscription_comes_first(s: SchedulerView)
    requires
        s.wf(),
        s.action() is Subscribe || s.action() == (Action::Abort { cause: Cause::Subscription }),
    ensures
        s.launched == 0,
        s.running.len() == 0,
        forall|i: int| 0 <= i < s.states.len() ==> (#[trigger] s.states[i]) is Pending,
{
}

/// A spawn that failed ends the run: the dispatcher asks to give up, names
/// the job that could not be spawned, and takes in no further event.
pub proof fn lemma_failed_spawn_is_fatal(s: SchedulerView, event: EventView)
    requires
        s.wf(),
        s.action() is Spawn,
    ensures
        s.next(EventView::SpawnFailed).action() == (Action::Abort {
            cause: Cause::Spawn { index: s.launched as usize },
        }),
        s.next(EventView::SpawnFailed).next(event) == s.next(EventView::SpawnFailed),
        s.next(EventView::SpawnFailed).states == s.states,
{
}

/// A job is spawned only into a free slot.
pub proof fn lemma_spawn_needs_free_slot(s: SchedulerView)
    requires
        s.wf(),
        s.action() is Spawn,
    ensures
        s.running.len() < s.max_jobs,
{
}

/// The load is looked at only right before a spawn: a job is left to
/// start, a slot is free for it, and a sample below the ceiling is answered
/// with the spawn of that job. Running jobs are never held against the
/// load.
pub proof fn lemma_sample_precedes_spawn(s: SchedulerView)
    requires
        s.wf(),
        s.action() is SampleLoad,
    ensures
        s.gated,
        s.launched < s.states.len(),
        s.running.len() < s.max_jobs,
        s.next(EventView::Load { below_ceiling: true }).action() == (Action::Spawn {
            index: s.launched as usize,
        }),
        s.next(EventView::Load { below_ceiling: false }).action() == Action::Sleep,
        s.next(EventView::Load { below_ceiling: false }).next(EventView::Slept).action()
            == Action::SampleLoad,
        s.next(EventView::Load { below_ceiling: false }).states == s.states,
        s.next(EventView::Load { below_ceiling: false }).running == s.running,
{
}

/// Without a load ceiling no spawn is ever delayed: the dispatcher
/// neither samples the load nor sleeps, and whenever a slot is free and a job
/// is left it asks for the spawn at once.
pub proof fn lemma_no_ceiling_no_delay(s: SchedulerView)
    requires
        s.wf(),
        !s.gated,
    ensures
        !(s.action() is SampleLoad),
        !(s.action() is Sleep),
        s.launched < s.states.len() && s.running.len() < s.max_jobs && !(s.phase is Aborted)
            && !(s.phase is Subscribing) ==> s.action() is Spawn,
{
}

/// Without a load ceiling, over whole runs: whatever happens, the dispatcher
/// never asks for a sample of the load or for a pause.
pub proof fn lemma_never_held_back(jobs: nat, max_jobs: usize, events: Seq<EventView>)
    requires
        max_jobs > 0,
        jobs <= usize::MAX,
    ensures
        !(SchedulerView::initial(jobs, max_jobs, false).after(events).action() is SampleLoad),
        !(SchedulerView::initial(jobs, max_jobs, false).after(events).action() is Sleep),
{
    lemma_always_wf(jobs, max_jobs, false, events);
    lemma_settings_stay(SchedulerView::initial(jobs, max_jobs, false), events);
    lemma_no_ceiling_no_delay(SchedulerView::initial(jobs, max_jobs, false).after(events));
}

/// No event changes the cap on running jobs or whether a ceiling is set.
pub proof fn lemma_settings_stay(s: SchedulerView, events: Seq<EventView>)
    ensures
        s.after(events).gated == s.gated,
        s.after(events).max_jobs == s.max_jobs,
    decreases events.len(),
{
    if events.len() > 0 {
        lemma_settings_stay(s, events.drop_last());
    }
}

/// How far a phase is from the next spawn or reap.
pub open spec fn phase_rank(phase: Phase) -> nat {
    match phase {
        Phase::Subscribing => 4,
        Phase::Sampling => 3,
        Phase::Sleeping => 3,
        Phase::Spawning => 2,
        Phase::Reaping => 1,
        Phase::Draining => 1,
        Phase::Finished => 0,
        Phase::Aborted(_) => 0,
    }
}

/// A bound on the work that is left: it counts every job that is not yet
/// spawned, every job that runs, and the steps of the phase.
pub open spec fn work_left(s: SchedulerView) -> nat {
    (10 * (s.states.len() - s.launched) + 5 * s.running.len() + phase_rank(s.phase)) as nat
}

/// Whether an event only tells the dispatcher to go on waiting: the load is
/// still too high, a pause is over, or a poll found no job finished.
pub open spec fn only_waits(event: EventView) -> bool {
    match event {
        EventView::Load { below_ceiling } => !below_ceiling,
        EventView::Slept => true,
        EventView::Polled(polls) => forall|k: int|
            0 <= k < polls.len() ==> (#[trigger] polls[k]) is StillRunning,
        _ => false,
    }
}

/// A poll that found a job finished keeps fewer jobs than were running.
proof fn lemma_poll_frees_a_slot(running: Seq<RunningJob>, polls: Seq<Poll>, n: int)
    requires
        polls.len() == running.len(),
        0 <= n <= running.len(),
    ensures
        survivors(running, polls, n).len() <= n,
        (exists|k: int| 0 <= k < n && !((#[trigger] polls[k]) is StillRunning)) ==> survivors(
            running,
            polls,
            n,
        ).len() < n,
    decreases n,
{
    if n > 0 {
        lemma_poll_frees_a_slot(running, polls, n - 1);
        if exists|k: int| 0 <= k < n && !((#[trigger] polls[k]) is StillRunning) {
            let k = choose|k: int| 0 <= k < n && !((#[trigger] polls[k]) is StillRunning);
            if k < n - 1 {
                assert(0 <= k < n - 1 && !(polls[k] is StillRunning));
            }
        }
    }
}

/// Progress: every event that the dispatcher takes in brings the run
/// nearer to its end, unless it only tells the dispatcher to go on waiting;
/// and waiting never makes the way longer. So a run ends after as many
/// events as there is work at its start, not counting the waits.
pub proof fn lemma_progress(s: SchedulerView, event: EventView)
    requires
        s.wf(),
        s.accepts(event),
    ensures
        work_left(s.next(event)) <= work_left(s),
        !only_waits(event) ==> work_left(s.next(event)) < work_left(s),
{
    match event {
        EventView::Polled(polls) => {
            let n = s.running.len() as int;
            lemma_poll_frees_a_slot(s.running, polls, n);
            lemma_settled(s.states, s.running, polls, n);
            if !only_waits(event) {
                let k = choose|k: int| 0 <= k < polls.len() && !((#[trigger] polls[k]) is StillRunning);
                assert(0 <= k < n && !(polls[k] is StillRunning));
            }
        },
        _ => {},
    }
}

/// No work is left exactly at the end of a run, and at its end the
/// dispatcher takes in no further event.
pub proof fn lemma_end_of_run(s: SchedulerView, event: EventView)
    requires
        s.wf(),
    ensures
        work_left(s) == 0 <==> s.phase is Finished || (s.phase is Aborted && s.launched
            == s.states.len() && s.running.len() == 0),
        s.action() is Exit || s.action() is Abort ==> s.next(event) == s,
{
}

/// How many events of a history the dispatcher took in that did more than
/// tell it to go on waiting.
pub open spec fn steps_taken(s: SchedulerView, events: Seq<EventView>) -> nat
    decreases events.len(),
{
    if events.len() == 0 {
        0
    } else {
        let before = s.after(events.drop_last());
        steps_taken(s, events.drop_last()) + if before.accepts(events.last()) && !only_waits(
            events.last(),
        ) {
            1nat
        } else {
            0nat
        }
    }
}

/// Progress, over whole runs: whatever happens, the steps that were taken
/// and the work that is left never add up to more than the work at the start.
/// A plan of `jobs` jobs is therefore through after at most `10 * jobs + 4`
/// steps, however long the waits between them are.
pub proof fn lemma_run_is_bounded(jobs: nat, max_jobs: usize, gated: bool, events: Seq<EventView>)
    requires
        max_jobs > 0,
        jobs <= usize::MAX,
    ensures
        steps_taken(SchedulerView::initial(jobs, max_jobs, gated), events) + work_left(
            SchedulerView::initial(jobs, max_jobs, gated).after(events),
        ) <= 10 * jobs + 4,
    decreases events.len(),
{
    let start = SchedulerView::initial(jobs, max_jobs, gated);
    if events.len() > 0 {
        let before = start.after(events.drop_last());
        lemma_run_is_bounded(jobs, max_jobs, gated, events.drop_last());
        lemma_always_wf(jobs, max_jobs, gated, events.drop_last());
        if before.accepts(events.last()) {
            lemma_progress(before, events.last());
        }
    }
}

} // verus!
