use moreutils::parallel::admission::{
    admit_after_sample, admit_at_free_slot, Admission, PAUSE_MILLISECONDS,
};
use moreutils::parallel::exit::{aggregate, ExitAggregate, JobOutcome};
use moreutils::parallel::model::{Action, Cause, JobState, Poll, RunningJob};
use moreutils::parallel::invocation::{parse_command_line, Invocation};
use moreutils::parallel::scheduler::{Event, Scheduler};

/// A dispatcher that has its subscription.
fn started(jobs: usize, max_jobs: usize, gated: bool) -> Scheduler {
    let mut scheduler = Scheduler::new(jobs, max_jobs, gated);
    assert_eq!(scheduler.action(), Action::Subscribe);
    scheduler.step(&Event::Subscribed);
    scheduler
}

/// Runs a plan to its end. Job `i` contributes `contributions[i]`; whenever
/// the dispatcher waits for a termination, the running job with the lowest
/// value in `order` ends. Returns the exit code, the order of the spawns, the
/// order of the reaps, and the largest number of jobs seen running at once.
fn run(
    contributions: &[u8],
    order: &[usize],
    max_jobs: usize,
    gated: bool,
    loads_below: &mut Vec<bool>,
) -> (u8, Vec<usize>, Vec<usize>, usize, Vec<Action>) {
    let mut scheduler = started(contributions.len(), max_jobs, gated);
    let mut spawned = Vec::new();
    let mut reaped = Vec::new();
    let mut peak = 0;
    let mut trace = Vec::new();
    let mut action = scheduler.action();
    let mut steps = 0;
    loop {
        steps += 1;
        assert!(steps < 10_000, "the dispatcher does not come to an end");
        trace.push(action);
        peak = peak.max(scheduler.running().len());
        assert!(scheduler.running().len() <= max_jobs);
        let event = match action {
            Action::Exit { code } => return (code, spawned, reaped, peak, trace),
            Action::Abort { cause } => panic!("unexpected abort: {:?}", cause),
            Action::Subscribe => Event::Subscribed,
            Action::AwaitTermination => {
                let running = scheduler.running().clone();
                let first = running.iter().min_by_key(|job| order[job.index]).unwrap().index;
                reaped.push(first);
                Event::Polled(
                    running
                        .iter()
                        .map(|job| {
                            if job.index == first {
                                Poll::Finished(contributions[job.index])
                            } else {
                                Poll::StillRunning
                            }
                        })
                        .collect(),
                )
            }
            Action::SampleLoad => Event::Load { below_ceiling: loads_below.remove(0) },
            Action::Sleep => Event::Slept,
            Action::Spawn { index } => {
                spawned.push(index);
                Event::Spawned { pid: 1000 + index as u32 }
            }
            Action::Wait { job } => {
                assert_eq!(job.pid, 1000 + job.index as u32);
                reaped.push(job.index);
                Event::Waited(contributions[job.index])
            }
        };
        action = scheduler.step(&event);
    }
}

#[test]
fn three_jobs_under_a_cap_of_two() {
    let (code, spawned, reaped, peak, _) = run(&[0, 2, 0], &[2, 0, 1], 2, false, &mut vec![]);
    assert_eq!(code, 0 | 2 | 0);
    assert_eq!(code, 2);
    assert_eq!(spawned, vec![0, 1, 2]);
    assert_eq!(peak, 2);
    let mut sorted = reaped.clone();
    sorted.sort();
    assert_eq!(sorted, vec![0, 1, 2]);
}

#[test]
fn true_and_false_give_one() {
    let (code, spawned, _, _, _) = run(&[0, 1], &[0, 1], 4, false, &mut vec![]);
    assert_eq!(code, 1);
    assert_eq!(spawned, vec![0, 1]);
}

#[test]
fn capacity_above_the_number_of_jobs_spawns_at_once() {
    let (code, spawned, reaped, peak, trace) = run(&[0, 0], &[0, 1], 10, false, &mut vec![]);
    assert_eq!(code, 0);
    assert_eq!(spawned, vec![0, 1]);
    assert_eq!(reaped, vec![0, 1]);
    assert_eq!(peak, 2);
    assert_eq!(
        trace,
        vec![
            Action::Spawn { index: 0 },
            Action::Spawn { index: 1 },
            Action::Wait { job: RunningJob { index: 0, pid: 1000 } },
            Action::Wait { job: RunningJob { index: 1, pid: 1001 } },
            Action::Exit { code: 0 },
        ]
    );
}

#[test]
fn empty_plan_exits_with_zero_at_once() {
    let scheduler = started(0, 3, true);
    assert_eq!(scheduler.action(), Action::Exit { code: 0 });
    assert_eq!(scheduler.jobs(), 0);
}

#[test]
fn never_more_than_max_jobs_running() {
    for max_jobs in 1..6usize {
        let contributions: Vec<u8> = (0..11).map(|i| i as u8).collect();
        let order: Vec<usize> = vec![5, 3, 9, 1, 0, 7, 2, 10, 4, 8, 6];
        let (code, spawned, reaped, peak, _) =
            run(&contributions, &order, max_jobs, false, &mut vec![]);
        assert_eq!(peak, max_jobs.min(11));
        assert_eq!(spawned, (0..11).collect::<Vec<usize>>());
        let mut sorted = reaped.clone();
        sorted.sort();
        assert_eq!(sorted, (0..11).collect::<Vec<usize>>());
        assert_eq!(code, contributions.iter().fold(0, |a, c| a | c));
    }
}

#[test]
fn every_job_is_reaped_exactly_once() {
    let contributions = [1u8, 2, 4, 8, 16];
    let order = [4usize, 3, 2, 1, 0];
    let (code, spawned, reaped, _, _) = run(&contributions, &order, 2, false, &mut vec![]);
    assert_eq!(spawned, vec![0, 1, 2, 3, 4]);
    assert_eq!(reaped.len(), 5);
    for index in 0..5 {
        assert_eq!(reaped.iter().filter(|i| **i == index).count(), 1);
    }
    assert_eq!(code, 31);
}

#[test]
fn job_states_go_from_pending_over_running_to_reaped() {
    let mut scheduler = started(2, 1, false);
    assert_eq!(scheduler.state(0), JobState::Pending);
    assert_eq!(scheduler.state(1), JobState::Pending);
    assert_eq!(scheduler.action(), Action::Spawn { index: 0 });
    assert_eq!(scheduler.step(&Event::Spawned { pid: 7 }), Action::AwaitTermination);
    assert_eq!(scheduler.state(0), JobState::Running);
    assert_eq!(scheduler.running(), &vec![RunningJob { index: 0, pid: 7 }]);
    assert_eq!(
        scheduler.step(&Event::Polled(vec![Poll::Finished(3)])),
        Action::Spawn { index: 1 }
    );
    assert_eq!(scheduler.state(0), JobState::Reaped(3));
    assert_eq!(scheduler.state(1), JobState::Pending);
    assert_eq!(scheduler.exit_code(), 3);
    assert_eq!(
        scheduler.step(&Event::Spawned { pid: 8 }),
        Action::Wait { job: RunningJob { index: 1, pid: 8 } }
    );
    assert_eq!(scheduler.state(1), JobState::Running);
    assert_eq!(scheduler.step(&Event::Waited(4)), Action::Exit { code: 7 });
    assert_eq!(scheduler.state(0), JobState::Reaped(3));
    assert_eq!(scheduler.state(1), JobState::Reaped(4));
    assert!(scheduler.running().is_empty());
}

#[test]
fn notification_without_a_finished_job_keeps_waiting() {
    let mut scheduler = started(3, 2, false);
    scheduler.step(&Event::Spawned { pid: 1 });
    assert_eq!(scheduler.step(&Event::Spawned { pid: 2 }), Action::AwaitTermination);
    assert_eq!(
        scheduler.step(&Event::Polled(vec![Poll::StillRunning, Poll::StillRunning])),
        Action::AwaitTermination
    );
    assert_eq!(scheduler.running().len(), 2);
    assert_eq!(
        scheduler.step(&Event::Polled(vec![Poll::Finished(0), Poll::Finished(5)])),
        Action::Spawn { index: 2 }
    );
    assert_eq!(scheduler.running().len(), 0);
    assert_eq!(scheduler.exit_code(), 5);
}

#[test]
fn poll_keeps_the_survivors_in_order() {
    let mut scheduler = started(5, 3, false);
    scheduler.step(&Event::Spawned { pid: 10 });
    scheduler.step(&Event::Spawned { pid: 11 });
    assert_eq!(scheduler.step(&Event::Spawned { pid: 12 }), Action::AwaitTermination);
    assert_eq!(
        scheduler.step(&Event::Polled(vec![
            Poll::StillRunning,
            Poll::Finished(1),
            Poll::StillRunning
        ])),
        Action::Spawn { index: 3 }
    );
    assert_eq!(
        scheduler.running(),
        &vec![RunningJob { index: 0, pid: 10 }, RunningJob { index: 2, pid: 12 }]
    );
    assert_eq!(scheduler.state(1), JobState::Reaped(1));
    assert_eq!(scheduler.step(&Event::Spawned { pid: 13 }), Action::AwaitTermination);
    assert_eq!(
        scheduler.running(),
        &vec![
            RunningJob { index: 0, pid: 10 },
            RunningJob { index: 2, pid: 12 },
            RunningJob { index: 3, pid: 13 }
        ]
    );
}

#[test]
fn failed_spawn_aborts_the_run() {
    let mut scheduler = started(3, 2, false);
    assert_eq!(scheduler.step(&Event::Spawned { pid: 1 }), Action::Spawn { index: 1 });
    let abort = Action::Abort { cause: Cause::Spawn { index: 1 } };
    assert_eq!(scheduler.step(&Event::SpawnFailed), abort);
    assert_eq!(scheduler.step(&Event::Spawned { pid: 2 }), abort);
    assert_eq!(scheduler.step(&Event::Waited(0)), abort);
    assert_eq!(scheduler.step(&Event::Subscribed), abort);
    assert_eq!(scheduler.state(1), JobState::Pending);
    assert_eq!(scheduler.state(2), JobState::Pending);
    assert_eq!(scheduler.running().len(), 1);
}

#[test]
fn events_that_answer_nothing_are_ignored() {
    let mut scheduler = started(2, 1, false);
    assert_eq!(scheduler.action(), Action::Spawn { index: 0 });
    assert_eq!(scheduler.step(&Event::Slept), Action::Spawn { index: 0 });
    assert_eq!(scheduler.step(&Event::Load { below_ceiling: true }), Action::Spawn { index: 0 });
    assert_eq!(scheduler.step(&Event::Waited(9)), Action::Spawn { index: 0 });
    assert_eq!(scheduler.step(&Event::Polled(vec![])), Action::Spawn { index: 0 });
    assert_eq!(scheduler.exit_code(), 0);
    assert_eq!(scheduler.step(&Event::Spawned { pid: 1 }), Action::AwaitTermination);
    assert_eq!(scheduler.step(&Event::Polled(vec![])), Action::AwaitTermination);
    assert_eq!(
        scheduler.step(&Event::Polled(vec![Poll::Finished(1), Poll::Finished(2)])),
        Action::AwaitTermination
    );
    assert_eq!(scheduler.step(&Event::Spawned { pid: 2 }), Action::AwaitTermination);
    assert_eq!(scheduler.running().len(), 1);
    assert_eq!(scheduler.exit_code(), 0);
}

#[test]
fn without_a_ceiling_the_load_is_never_sampled() {
    let contributions = [0u8; 9];
    let order = [0usize, 1, 2, 3, 4, 5, 6, 7, 8];
    let (_, _, _, _, trace) = run(&contributions, &order, 3, false, &mut vec![]);
    assert!(trace.iter().all(|a| *a != Action::SampleLoad && *a != Action::Sleep));
    assert_eq!(admit_at_free_slot(false), Admission::Proceed);
}

#[test]
fn with_a_ceiling_every_spawn_waits_for_a_low_sample() {
    let mut loads = vec![false, false, true, true, false, true];
    let (code, spawned, _, _, trace) = run(&[0, 0, 4], &[0, 1, 2], 2, true, &mut loads);
    assert!(loads.is_empty());
    assert_eq!(code, 4);
    assert_eq!(spawned, vec![0, 1, 2]);
    assert_eq!(
        trace,
        vec![
            Action::SampleLoad,
            Action::Sleep,
            Action::SampleLoad,
            Action::Sleep,
            Action::SampleLoad,
            Action::Spawn { index: 0 },
            Action::SampleLoad,
            Action::Spawn { index: 1 },
            Action::AwaitTermination,
            Action::SampleLoad,
            Action::Sleep,
            Action::SampleLoad,
            Action::Spawn { index: 2 },
            Action::Wait { job: RunningJob { index: 1, pid: 1001 } },
            Action::Wait { job: RunningJob { index: 2, pid: 1002 } },
            Action::Exit { code: 4 },
        ]
    );
}

#[test]
fn admission_decisions() {
    assert_eq!(admit_at_free_slot(true), Admission::Sample);
    assert_eq!(admit_at_free_slot(false), Admission::Proceed);
    assert_eq!(admit_after_sample(true), Admission::Proceed);
    assert_eq!(admit_after_sample(false), Admission::Pause);
    assert_eq!(PAUSE_MILLISECONDS, 500);
}

#[test]
fn drain_does_not_consult_the_controller() {
    let mut loads = vec![true];
    let (_, _, _, _, trace) = run(&[0], &[0], 1, true, &mut loads);
    assert_eq!(
        trace,
        vec![
            Action::SampleLoad,
            Action::Spawn { index: 0 },
            Action::Wait { job: RunningJob { index: 0, pid: 1000 } },
            Action::Exit { code: 0 },
        ]
    );
}

#[test]
fn signal_nine_contributes_137() {
    assert_eq!(JobOutcome::Signaled(9).contribution(), 137);
    assert_eq!(JobOutcome::from_status(None, Some(9)).contribution(), 128 + 9);
}

#[test]
fn contribution_of_each_outcome() {
    assert_eq!(JobOutcome::Exited(0).contribution(), 0);
    assert_eq!(JobOutcome::Exited(2).contribution(), 2);
    assert_eq!(JobOutcome::Exited(255).contribution(), 255);
    assert_eq!(JobOutcome::Signaled(1).contribution(), 129);
    assert_eq!(JobOutcome::Signaled(15).contribution(), 143);
    assert_eq!(JobOutcome::Signaled(127).contribution(), 255);
    assert_eq!(JobOutcome::WaitFailed.contribution(), 1);
}

#[test]
fn outcome_of_raw_status_fields() {
    assert_eq!(JobOutcome::from_status(Some(0), None), JobOutcome::Exited(0));
    assert_eq!(JobOutcome::from_status(Some(3), Some(9)), JobOutcome::Exited(3));
    assert_eq!(JobOutcome::from_status(Some(255), None), JobOutcome::Exited(255));
    assert_eq!(JobOutcome::from_status(Some(256), None), JobOutcome::WaitFailed);
    assert_eq!(JobOutcome::from_status(Some(-1), None), JobOutcome::WaitFailed);
    assert_eq!(JobOutcome::from_status(None, Some(11)), JobOutcome::Signaled(11));
    assert_eq!(JobOutcome::from_status(None, Some(127)), JobOutcome::Signaled(127));
    assert_eq!(JobOutcome::from_status(None, Some(128)), JobOutcome::WaitFailed);
    assert_eq!(JobOutcome::from_status(None, Some(-2)), JobOutcome::WaitFailed);
    assert_eq!(JobOutcome::from_status(None, None), JobOutcome::WaitFailed);
    assert_eq!(JobOutcome::from_status(None, None).contribution(), 1);
}

#[test]
fn aggregate_is_the_or_of_all_contributions() {
    assert_eq!(aggregate(&vec![]), 0);
    assert_eq!(aggregate(&vec![0, 0, 0]), 0);
    assert_eq!(aggregate(&vec![0, 2, 0]), 2);
    assert_eq!(aggregate(&vec![1, 2, 4]), 7);
    assert_eq!(aggregate(&vec![3, 5]), 7);
    assert_eq!(aggregate(&vec![137, 1]), 137);
    assert_eq!(aggregate(&vec![255, 0]), 255);
}

#[test]
fn aggregate_does_not_depend_on_the_order() {
    let contributions = vec![1u8, 0, 137, 2, 2, 64];
    let expected = aggregate(&contributions);
    let mut turned = contributions.clone();
    for _ in 0..contributions.len() {
        turned.rotate_left(1);
        assert_eq!(aggregate(&turned), expected);
    }
    let mut reversed = contributions.clone();
    reversed.reverse();
    assert_eq!(aggregate(&reversed), expected);
    assert_eq!(expected, 1 | 137 | 2 | 64);
}

#[test]
fn aggregate_is_zero_only_if_every_job_contributed_zero() {
    for bit in 0..8 {
        let mut contributions = vec![0u8; 5];
        contributions[bit % 5] = 1 << bit;
        assert_ne!(aggregate(&contributions), 0);
    }
}

#[test]
fn exit_aggregate_records_one_by_one() {
    let mut total = ExitAggregate::new();
    assert_eq!(total.code(), 0);
    total.record(0);
    assert_eq!(total.code(), 0);
    total.record(2);
    assert_eq!(total.code(), 2);
    total.record(2);
    assert_eq!(total.code(), 2);
    total.record(129);
    assert_eq!(total.code(), 131);
}

#[test]
fn reap_order_does_not_change_the_exit_code() {
    let contributions = [1u8, 2, 4, 8];
    let (first, _, _, _, _) = run(&contributions, &[0, 1, 2, 3], 2, false, &mut vec![]);
    let (second, _, _, _, _) = run(&contributions, &[3, 2, 1, 0], 2, false, &mut vec![]);
    let (third, _, _, _, _) = run(&contributions, &[1, 3, 0, 2], 3, false, &mut vec![]);
    assert_eq!(first, 15);
    assert_eq!(second, 15);
    assert_eq!(third, 15);
}

#[test]
fn dispatcher_follows_the_command_line() {
    let args: Vec<Vec<u8>> =
        ["-j", "2", "--", "sleep 0.1; exit 0", "exit 2", "exit 0"].iter().map(|w| w.as_bytes().to_vec()).collect();
    let (settings, plan) = match parse_command_line(&args, Some(8)) {
        Ok(Invocation::Run { settings, plan }) => (settings, plan),
        other => panic!("unexpected {:?}", other),
    };
    let mut scheduler = Scheduler::for_plan(&plan, &settings);
    assert_eq!(scheduler.jobs(), 3);
    assert_eq!(scheduler.action(), Action::Subscribe);
    assert_eq!(scheduler.step(&Event::Subscribed), Action::Spawn { index: 0 });
    assert_eq!(scheduler.step(&Event::Spawned { pid: 1 }), Action::Spawn { index: 1 });
    assert_eq!(scheduler.step(&Event::Spawned { pid: 2 }), Action::AwaitTermination);
    assert_eq!(
        scheduler.step(&Event::Polled(vec![Poll::StillRunning, Poll::Finished(2)])),
        Action::Spawn { index: 2 }
    );
    assert_eq!(
        scheduler.step(&Event::Spawned { pid: 3 }),
        Action::Wait { job: RunningJob { index: 0, pid: 1 } }
    );
    assert_eq!(
        scheduler.step(&Event::Waited(0)),
        Action::Wait { job: RunningJob { index: 2, pid: 3 } }
    );
    assert_eq!(scheduler.step(&Event::Waited(0)), Action::Exit { code: 2 });

    let gated: Vec<Vec<u8>> = ["-l", "2.5", "true", "--", "x"].iter().map(|w| w.as_bytes().to_vec()).collect();
    match parse_command_line(&gated, None) {
        Ok(Invocation::Run { settings, plan }) => {
            let mut scheduler = Scheduler::for_plan(&plan, &settings);
            assert_eq!(scheduler.step(&Event::Subscribed), Action::SampleLoad);
        }
        other => panic!("unexpected {:?}", other),
    }
}

#[test]
fn without_the_subscription_nothing_is_spawned() {
    let mut scheduler = Scheduler::new(2, 2, false);
    assert_eq!(scheduler.action(), Action::Subscribe);
    assert_eq!(scheduler.step(&Event::Spawned { pid: 1 }), Action::Subscribe);
    assert_eq!(scheduler.step(&Event::Load { below_ceiling: true }), Action::Subscribe);
    let abort = Action::Abort { cause: Cause::Subscription };
    assert_eq!(scheduler.step(&Event::SubscriptionFailed), abort);
    assert_eq!(scheduler.step(&Event::Subscribed), abort);
    assert_eq!(scheduler.step(&Event::Spawned { pid: 1 }), abort);
    assert_eq!(scheduler.state(0), JobState::Pending);
    assert_eq!(scheduler.state(1), JobState::Pending);
    assert!(scheduler.running().is_empty());
    assert_eq!(scheduler.exit_code(), 0);
}

#[test]
fn the_subscription_is_asked_for_once() {
    let mut scheduler = Scheduler::new(1, 1, true);
    assert_eq!(scheduler.step(&Event::Subscribed), Action::SampleLoad);
    assert_eq!(scheduler.step(&Event::Subscribed), Action::SampleLoad);
    assert_eq!(scheduler.step(&Event::SubscriptionFailed), Action::SampleLoad);
    let mut empty = Scheduler::new(0, 1, false);
    assert_eq!(empty.step(&Event::Subscribed), Action::Exit { code: 0 });
}

#[test]
fn a_run_ends_after_a_bounded_number_of_steps() {
    for jobs in 0..9usize {
        for max_jobs in 1..4usize {
            let contributions = vec![0u8; jobs];
            let order: Vec<usize> = (0..jobs).rev().collect();
            let mut loads = vec![true; jobs];
            let (_, spawned, reaped, _, trace) =
                run(&contributions, &order, max_jobs, true, &mut loads);
            assert_eq!(spawned.len(), jobs);
            assert_eq!(reaped.len(), jobs);
            assert!(trace.len() <= 10 * jobs + 4, "{} steps for {} jobs", trace.len(), jobs);
        }
    }
}
