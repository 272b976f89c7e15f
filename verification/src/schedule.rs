//! Scheduling: the two lanes of a run, and the decisions of the lane that runs cases in
//! parallel.

use vstd::prelude::*;

verus! {

/// The positions `0..n`, in order.
pub open spec fn positions(n: nat) -> Seq<usize> {
    Seq::new(n, |i: int| i as usize)
}

/// The positions of the cases that run in parallel: none where the run has one thread or
/// one case, else those of the cases that are not exclusive, in order.
pub open spec fn concurrent_lane(flags: Seq<bool>, threads: nat) -> Seq<usize> {
    if threads <= 1 || flags.len() == 1 {
        Seq::empty()
    } else {
        positions(flags.len()).filter(|i: usize| !flags[i as int])
    }
}

/// The positions of the cases that run one at a time: all where the run has one thread or
/// one case, else those of the exclusive cases, in order.
pub open spec fn exclusive_lane(flags: Seq<bool>, threads: nat) -> Seq<usize> {
    if threads <= 1 || flags.len() == 1 {
        positions(flags.len())
    } else {
        positions(flags.len()).filter(|i: usize| flags[i as int])
    }
}

/// The two lanes of a run.
pub struct Lanes {
    pub concurrent: Vec<usize>,
    pub exclusive: Vec<usize>,
}

/// Splits the cases into the two lanes. `flags` tells of each case whether it is exclusive.
pub fn plan_lanes(flags: &Vec<bool>, threads: usize) -> (lanes: Lanes)
    ensures
        lanes.concurrent@ == concurrent_lane(flags@, threads as nat),
        lanes.exclusive@ == exclusive_lane(flags@, threads as nat),
        forall|k: int| 0 <= k < lanes.concurrent.len() ==> (#[trigger] lanes.concurrent[k] as int) < flags.len(),
        forall|k: int| 0 <= k < lanes.exclusive.len() ==> (#[trigger] lanes.exclusive[k] as int) < flags.len(),
{
    let serial = threads <= 1 || flags.len() == 1;
    let mut concurrent: Vec<usize> = Vec::new();
    let mut exclusive: Vec<usize> = Vec::new();
    let ghost all = positions(flags.len() as nat);
    let ghost apart = |i: usize| !flags@[i as int];
    let ghost alone = |i: usize| flags@[i as int];
    let mut i: usize = 0;
    proof {
        reveal(Seq::filter);
        assert(all.take(0) =~= Seq::empty());
    }
    while i < flags.len()
        invariant
            i <= flags.len(),
            all == positions(flags.len() as nat),
            apart == (|i: usize| !flags@[i as int]),
            alone == (|i: usize| flags@[i as int]),
            serial ==> concurrent@ == Seq::<usize>::empty() && exclusive@ == all.take(i as int),
            !serial ==> concurrent@ == all.take(i as int).filter(apart) && exclusive@ == all.take(
                i as int,
            ).filter(alone),
            forall|k: int| 0 <= k < concurrent.len() ==> (#[trigger] concurrent[k] as int) < flags.len(),
            forall|k: int| 0 <= k < exclusive.len() ==> (#[trigger] exclusive[k] as int) < flags.len(),
        decreases flags.len() - i,
    {
        proof {
            assert(all.take(i + 1) =~= all.take(i as int) + seq![i]);
            Seq::filter_distributes_over_add(all.take(i as int), seq![i], apart);
            Seq::filter_distributes_over_add(all.take(i as int), seq![i], alone);
            reveal_with_fuel(Seq::filter, 2);
            assert(seq![i].drop_last() =~= Seq::<usize>::empty());
            assert(all.take(i + 1) =~= all.take(i as int).push(i));
        }
        if serial || flags[i] {
            exclusive.push(i);
        } else {
            concurrent.push(i);
        }
        proof {
            if !serial {
                if flags[i as int] {
                    assert(all.take(i + 1).filter(alone) =~= all.take(i as int).filter(alone).push(i));
                    assert(all.take(i + 1).filter(apart) =~= all.take(i as int).filter(apart));
                } else {
                    assert(all.take(i + 1).filter(apart) =~= all.take(i as int).filter(apart).push(i));
                    assert(all.take(i + 1).filter(alone) =~= all.take(i as int).filter(alone));
                }
            }
        }
        i += 1;
    }
    proof {
        assert(all.take(i as int) =~= all);
    }
    Lanes { concurrent, exclusive }
}

/// The lane that runs cases in parallel, as plain values: the cases that wait, in the
/// order in which they start; the cases that run; the number of cases that may run at
/// once; whether the first failure ends the run; and whether every case so far has passed.
pub struct LaneView {
    pub waiting: Seq<usize>,
    pub running: Seq<usize>,
    pub threads: nat,
    pub fail_fast: bool,
    pub success: bool,
}

/// What the scheduler does next.
#[derive(Copy, Clone, Debug, PartialEq, Eq, Structural)]
pub enum LaneAction {
    /// Start the case at this position on a new worker.
    Start(usize),
    /// Wait for a worker to finish.
    Wait,
    /// The lane is done.
    Done,
}

/// What happened in the lane.
pub enum LaneEvent {
    /// The first waiting case now runs on a worker.
    Started,
    /// No worker could be had: the first waiting case ran on the scheduler's own thread,
    /// and passed or not.
    RanInline(bool),
    /// The worker of the case at this position has finished, and the case passed or not. A
    /// worker that ended without reporting counts as a case that did not pass.
    Finished(usize, bool),
}

/// The decision of the scheduler. Under fail-fast, after a failure, nothing is started:
/// the lane only waits for the cases that run. Otherwise the next waiting case starts
/// while a thread is free.
pub open spec fn decide(lane: LaneView) -> LaneAction {
    if lane.fail_fast && !lane.success {
        if lane.running.len() > 0 {
            LaneAction::Wait
        } else {
            LaneAction::Done
        }
    } else if lane.running.len() < lane.threads && lane.waiting.len() > 0 {
        LaneAction::Start(lane.waiting[0])
    } else if lane.running.len() > 0 {
        LaneAction::Wait
    } else {
        LaneAction::Done
    }
}

/// `running` without its first entry for `case`.
pub open spec fn without(running: Seq<usize>, case: usize) -> Seq<usize>
    decreases running.len(),
{
    if running.len() == 0 {
        running
    } else if running[0] == case {
        running.skip(1)
    } else {
        seq![running[0]] + without(running.skip(1), case)
    }
}

/// The lane after `event`.
pub open spec fn lane_step(lane: LaneView, event: LaneEvent) -> LaneView {
    match event {
        LaneEvent::Started => if lane.waiting.len() > 0 {
            LaneView {
                waiting: lane.waiting.skip(1),
                running: lane.running.push(lane.waiting[0]),
                ..lane
            }
        } else {
            lane
        },
        LaneEvent::RanInline(passed) => if lane.waiting.len() > 0 {
            LaneView { waiting: lane.waiting.skip(1), success: lane.success && passed, ..lane }
        } else {
            lane
        },
        LaneEvent::Finished(case, passed) => LaneView {
            running: without(lane.running, case),
            success: lane.success && passed,
            ..lane
        },
    }
}

/// The lane after `events`, in order.
pub open spec fn lane_steps(lane: LaneView, events: Seq<LaneEvent>) -> LaneView
    decreases events.len(),
{
    if events.len() == 0 {
        lane
    } else {
        lane_step(lane_steps(lane, events.drop_last()), events.last())
    }
}

/// Fail-fast: once a case has failed, whatever happens afterwards, no case that waits is
/// started and the waiting cases stay where they are; and the lane is not done while a
/// case still runs.
pub proof fn lemma_fail_fast(lane: LaneView, events: Seq<LaneEvent>)
    requires
        lane.fail_fast,
        !lane.success,
    ensures
        !(decide(lane_steps(lane, events)) is Start),
        !lane_steps(lane, events).success,
        lane_steps(lane, events).fail_fast,
        decide(lane_steps(lane, events)) is Done ==> lane_steps(lane, events).running.len() == 0,
    decreases events.len(),
{
    if events.len() > 0 {
        lemma_fail_fast(lane, events.drop_last());
    }
}

/// The lane is done only when no case runs; and as long as no failure ends the run early,
/// only when no case waits either.
pub proof fn lemma_done(lane: LaneView)
    requires
        decide(lane) is Done,
        lane.threads >= 1,
    ensures
        lane.running.len() == 0,
        !(lane.fail_fast && !lane.success) ==> lane.waiting.len() == 0,
{
}

/// Whether the case of a worker passed: the worker reported that it did, and then ended as
/// it should. A worker that ended without a report, or came to grief after its report,
/// stands for a case that failed.
pub fn worker_passed(reported: Option<bool>, ended_well: bool) -> (passed: bool)
    ensures
        passed == (reported == Some(true) && ended_well),
{
    match reported {
        Some(passed) => passed && ended_well,
        None => false,
    }
}

/// The message for a case whose worker reported success and then came to grief.
pub const TERMINATED: &'static str = "case terminated after reporting success";

/// What is to be told of a worker that has ended: nothing where it ended as it should or
/// had reported no success; else that its case, which had passed, counts as failed.
pub fn crash_note(reported: Option<bool>, ended_well: bool) -> (note: Option<&'static str>)
    ensures
        match note {
            Some(text) => reported == Some(true) && !ended_well && text@ == TERMINATED@,
            None => !(reported == Some(true) && !ended_well),
        },
{
    match reported {
        Some(true) => if ended_well {
            None
        } else {
            Some(TERMINATED)
        },
        _ => None,
    }
}

/// The scheduler's book of the lane that runs cases in parallel. It decides; the caller
/// starts the workers, waits for them, and tells the book what happened.
pub struct ConcurrentLane {
    /// The waiting cases, the next one last.
    stack: Vec<usize>,
    running: Vec<usize>,
    threads: usize,
    fail_fast: bool,
    success: bool,
}

impl View for ConcurrentLane {
    type V = LaneView;

    closed spec fn view(&self) -> LaneView {
        LaneView {
            waiting: self.stack@.reverse(),
            running: self.running@,
            threads: self.threads as nat,
            fail_fast: self.fail_fast,
            success: self.success,
        }
    }
}

fn reversed(cases: &Vec<usize>) -> (out: Vec<usize>)
    ensures
        out@ == cases@.reverse(),
{
    let mut out: Vec<usize> = Vec::new();
    let mut i: usize = cases.len();
    while i > 0
        invariant
            i <= cases.len(),
            out@ == cases@.skip(i as int).reverse(),
        decreases i,
    {
        i -= 1;
        proof {
            assert(cases@.skip(i as int).reverse() =~= cases@.skip(i + 1).reverse().push(
                cases@[i as int],
            ));
        }
        out.push(cases[i]);
    }
    proof {
        assert(cases@.skip(0) =~= cases@);
    }
    out
}

impl ConcurrentLane {
    /// The book of a lane in which `cases` wait. A run always has one thread at least.
    pub fn new(cases: Vec<usize>, threads: usize, fail_fast: bool, success: bool) -> (lane: Self)
        ensures
            lane@ == (LaneView {
                waiting: cases@,
                running: Seq::empty(),
                threads: if threads == 0 {
                    1
                } else {
                    threads as nat
                },
                fail_fast,
                success,
            }),
    {
        let lane = ConcurrentLane {
            stack: reversed(&cases),
            running: Vec::new(),
            threads: if threads == 0 {
                1
            } else {
                threads
            },
            fail_fast,
            success,
        };
        proof {
            assert(cases@.reverse().reverse() =~= cases@);
        }
        lane
    }

    /// What to do next.
    pub fn next_action(&self) -> (action: LaneAction)
        ensures
            action == decide(self@),
    {
        if self.fail_fast && !self.success {
            if self.running.len() > 0 {
                LaneAction::Wait
            } else {
                LaneAction::Done
            }
        } else if self.running.len() < self.threads && self.stack.len() > 0 {
            LaneAction::Start(self.stack[self.stack.len() - 1])
        } else if self.running.len() > 0 {
            LaneAction::Wait
        } else {
            LaneAction::Done
        }
    }

    /// The first waiting case now runs on a worker.
    pub fn started(&mut self)
        ensures
            final(self)@ == lane_step(old(self)@, LaneEvent::Started),
    {
        match self.stack.pop() {
            Some(case) => {
                self.running.push(case);
                proof {
                    assert(self.stack@.reverse() =~= old(self).stack@.reverse().skip(1));
                }
            },
            None => {},
        }
    }

    /// The first waiting case ran on the scheduler's own thread.
    pub fn ran_inline(&mut self, passed: bool)
        ensures
            final(self)@ == lane_step(old(self)@, LaneEvent::RanInline(passed)),
    {
        match self.stack.pop() {
            Some(case) => {
                self.success = self.success && passed;
                proof {
                    assert(self.stack@.reverse() =~= old(self).stack@.reverse().skip(1));
                }
            },
            None => {},
        }
    }

    /// The worker of `case` has finished.
    pub fn finished(&mut self, case: usize, passed: bool)
        ensures
            final(self)@ == lane_step(old(self)@, LaneEvent::Finished(case, passed)),
    {
        let mut i: usize = 0;
        proof {
            assert(self.running@.take(0) + without(self.running@.skip(0), case) =~= without(
                self.running@,
                case,
            )) by {
                assert(self.running@.skip(0) =~= self.running@);
            }
        }
        while i < self.running.len() && self.running[i] != case
            invariant
                i <= self.running.len(),
                *self == *old(self),
                without(self.running@, case) == self.running@.take(i as int) + without(
                    self.running@.skip(i as int),
                    case,
                ),
            decreases self.running.len() - i,
        {
            proof {
                let running = self.running@;
                let rest = running.skip(i as int);
                assert(rest[0] == running[i as int]);
                assert(rest.skip(1) =~= running.skip(i + 1));
                assert(running.take(i as int) + (seq![rest[0]] + without(rest.skip(1), case))
                    =~= running.take(i + 1) + without(running.skip(i + 1), case));
            }
            i += 1;
        }
        proof {
            let running = self.running@;
            let rest = running.skip(i as int);
            if i < running.len() {
                assert(rest[0] == running[i as int]);
                assert(rest.skip(1) =~= running.skip(i + 1));
                assert(running.remove(i as int) =~= running.take(i as int) + running.skip(i + 1));
            } else {
                assert(running.take(i as int) + rest =~= running);
            }
        }
        if i < self.running.len() {
            self.running.remove(i);
        }
        self.success = self.success && passed;
    }

    /// Whether every case so far has passed.
    pub fn success(&self) -> (success: bool)
        ensures
            success == self@.success,
    {
        self.success
    }
}

} // verus!
