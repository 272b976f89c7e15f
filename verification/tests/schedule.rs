use libtest2::schedule::crash_note;
use libtest2::schedule::plan_lanes;
use libtest2::schedule::worker_passed;
use libtest2::schedule::ConcurrentLane;
use libtest2::schedule::LaneAction;

#[test]
fn one_thread_runs_every_case_alone() {
    let lanes = plan_lanes(&vec![false, true, false], 1);
    assert_eq!(lanes.concurrent, Vec::<usize>::new());
    assert_eq!(lanes.exclusive, vec![0, 1, 2]);
    let lanes = plan_lanes(&vec![false, true, false], 0);
    assert_eq!(lanes.exclusive, vec![0, 1, 2]);
}

#[test]
fn one_case_runs_alone() {
    let lanes = plan_lanes(&vec![false], 8);
    assert_eq!(lanes.concurrent, Vec::<usize>::new());
    assert_eq!(lanes.exclusive, vec![0]);
    let lanes = plan_lanes(&vec![], 8);
    assert_eq!(lanes.concurrent, Vec::<usize>::new());
    assert_eq!(lanes.exclusive, Vec::<usize>::new());
}

#[test]
fn several_threads_split_the_cases_by_exclusivity() {
    let lanes = plan_lanes(&vec![false, true, false, true, true, false], 2);
    assert_eq!(lanes.concurrent, vec![0, 2, 5]);
    assert_eq!(lanes.exclusive, vec![1, 3, 4]);
}

#[test]
fn the_lane_starts_as_many_cases_as_it_has_threads() {
    let mut lane = ConcurrentLane::new(vec![7, 8, 9], 2, false, true);
    assert_eq!(lane.next_action(), LaneAction::Start(7));
    lane.started();
    assert_eq!(lane.next_action(), LaneAction::Start(8));
    lane.started();
    assert_eq!(lane.next_action(), LaneAction::Wait);
    lane.finished(8, true);
    assert_eq!(lane.next_action(), LaneAction::Start(9));
    lane.started();
    assert_eq!(lane.next_action(), LaneAction::Wait);
    lane.finished(7, false);
    assert_eq!(lane.next_action(), LaneAction::Wait);
    assert!(!lane.success());
    lane.finished(9, true);
    assert_eq!(lane.next_action(), LaneAction::Done);
    assert!(!lane.success());
}

#[test]
fn under_fail_fast_the_lane_starts_nothing_after_a_failure() {
    let mut lane = ConcurrentLane::new(vec![0, 1, 2, 3], 2, true, true);
    lane.started();
    lane.started();
    assert_eq!(lane.next_action(), LaneAction::Wait);
    lane.finished(0, false);
    // The case that runs is awaited; the cases that wait are not started.
    assert_eq!(lane.next_action(), LaneAction::Wait);
    lane.finished(1, true);
    assert_eq!(lane.next_action(), LaneAction::Done);
    assert!(!lane.success());
}

#[test]
fn a_lane_that_starts_after_a_failure_is_done_at_once_under_fail_fast() {
    let lane = ConcurrentLane::new(vec![0, 1], 2, true, false);
    assert_eq!(lane.next_action(), LaneAction::Done);
    let lane = ConcurrentLane::new(vec![0, 1], 2, false, false);
    assert_eq!(lane.next_action(), LaneAction::Start(0));
}

#[test]
fn a_case_without_a_worker_runs_inline() {
    let mut lane = ConcurrentLane::new(vec![4, 5], 0, false, true);
    assert_eq!(lane.next_action(), LaneAction::Start(4));
    lane.ran_inline(true);
    assert!(lane.success());
    assert_eq!(lane.next_action(), LaneAction::Start(5));
    lane.ran_inline(false);
    assert!(!lane.success());
    assert_eq!(lane.next_action(), LaneAction::Done);
    // What happens behind the end of the queue changes nothing.
    lane.ran_inline(true);
    lane.started();
    assert_eq!(lane.next_action(), LaneAction::Done);
    lane.finished(9, true);
    assert_eq!(lane.next_action(), LaneAction::Done);
    assert!(!lane.success());
}

#[test]
fn a_worker_that_is_not_known_still_counts_for_the_result() {
    let mut lane = ConcurrentLane::new(vec![1, 1], 4, false, true);
    lane.started();
    lane.started();
    lane.finished(3, false);
    assert_eq!(lane.next_action(), LaneAction::Wait);
    lane.finished(1, true);
    assert_eq!(lane.next_action(), LaneAction::Wait);
    lane.finished(1, true);
    assert_eq!(lane.next_action(), LaneAction::Done);
    assert!(!lane.success());
}

#[test]
fn a_worker_that_came_to_grief_stands_for_a_failed_case() {
    assert!(worker_passed(Some(true), true));
    assert!(!worker_passed(Some(true), false));
    assert!(!worker_passed(Some(false), true));
    assert!(!worker_passed(None, true));
    assert!(!worker_passed(None, false));
}

#[test]
fn a_case_that_passed_on_a_worker_that_came_to_grief_is_told_of() {
    assert_eq!(crash_note(Some(true), false), Some("case terminated after reporting success"));
    assert_eq!(crash_note(Some(true), true), None);
    assert_eq!(crash_note(Some(false), false), None);
    assert_eq!(crash_note(None, false), None);
    assert_eq!(crash_note(None, true), None);
}
