//! The run of the selected cases: the events of each case, the lane that runs cases one at
//! a time, and the run as a whole.

use vstd::prelude::*;
use crate::case::Case;
use crate::context::TestContext;
use crate::context::since;
use crate::error::RunError;
use crate::error::RunResult;
use crate::event::CaseComplete;
use crate::event::CaseMessage;
use crate::event::CaseStart;
use crate::event::Event;
use crate::event::EventView;
use crate::event::MessageKind;
use crate::event::RunComplete;
use crate::event::RunMode;
use crate::event::RunStart;
use crate::harness::names;
use crate::notify::Notifier;
use crate::notify::WriteError;
use crate::notify::added;
use crate::notify::extends;
use crate::notify::lemma_extends_chain;
use crate::notify::lemma_extends_push;
use crate::notify::lemma_extends_same;
use crate::notify::timeless_log;
use crate::opts::RunIgnored;
use crate::opts::TestOpts;
use crate::opts::TestOptsView;
use crate::schedule::ConcurrentLane;
use crate::schedule::LaneAction;
use crate::schedule::concurrent_lane;
use crate::schedule::exclusive_lane;
use crate::schedule::plan_lanes;

verus! {

/// How a case ended: without a word when it passed, else with the severity and the text of
/// what it reported.
pub type Outcome = Option<(MessageKind, Option<Seq<char>>)>;

/// The outcome that the result of a case stands for.
pub open spec fn outcome_of(result: RunResult) -> Outcome {
    match result {
        Ok(_) => None,
        Err(error) => Some((error.kind(), error.message())),
    }
}

/// Whether the case counts as a success of the run: it did not fail. An ignored case does
/// not fail the run.
pub open spec fn passes(outcome: Outcome) -> bool {
    match outcome {
        Some((MessageKind::Error, _)) => false,
        _ => true,
    }
}

/// The events that follow the body of a case, without their times: a message where the
/// case reported something, and its completion.
pub open spec fn finish_events(name: Seq<char>, outcome: Outcome) -> Seq<EventView> {
    (match outcome {
        Some((kind, message)) => seq![
            EventView::CaseMessage { name, kind, message, elapsed: None },
        ],
        None => Seq::empty(),
    }) + seq![EventView::CaseComplete { name, elapsed: None }]
}

/// The events of one case, without their times: its start, a message where the case
/// reported something, and its completion.
pub open spec fn case_events(name: Seq<char>, outcome: Outcome) -> Seq<EventView> {
    seq![EventView::CaseStart { name, elapsed: None }] + finish_events(name, outcome)
}

/// The failure that stands for a case whose body ended abnormally. `payload` is the text
/// that the body gave as it ended, if it gave one.
pub fn panic_failure(payload: Option<&str>) -> (error: RunError)
    ensures
        error.kind() == MessageKind::Error,
        error.message() == Some(
            match payload {
                Some(text) => "test panicked: "@ + text@,
                None => "test panicked"@,
            },
        ),
{
    let mut message = String::new();
    match payload {
        Some(text) => {
            message.append("test panicked: ");
            message.append(text);
        },
        None => {
            message.append("test panicked");
        },
    }
    proof {
        assert(message@ =~= match payload {
            Some(text) => "test panicked: "@ + text@,
            None => "test panicked"@,
        });
    }
    RunError::failure(message)
}

/// Tells `notifier` that the case named `name` starts.
pub fn start_case<T, N: Notifier>(name: &str, context: &TestContext<T>, notifier: &mut N) -> (r: Result<
    (),
    WriteError,
>)
    ensures
        final(notifier).reliable() == old(notifier).reliable(),
        old(notifier).reliable() ==> r is Ok,
        final(notifier).refused() == old(notifier).refused() + if r is Err {
            1nat
        } else {
            0nat
        },
        final(notifier).hints() == old(notifier).hints(),
        r is Ok ==> extends(old(notifier).log(), final(notifier).log()) && timeless_log(
            added(old(notifier).log(), final(notifier).log()),
        ) == seq![EventView::CaseStart { name: name@, elapsed: None }],
{
    let event = Event::CaseStart(
        CaseStart { name: name.to_owned(), elapsed_s: Some(context.elapsed_s()) },
    );
    proof {
        lemma_extends_push(notifier.log(), event@);
    }
    notifier.notify(event)
}

/// Tells `notifier` how the case named `name` ended, and returns whether the case counts as
/// a success of the run.
pub fn finish_case<T, N: Notifier>(
    name: &str,
    outcome: &RunResult,
    context: &TestContext<T>,
    notifier: &mut N,
) -> (r: Result<bool, WriteError>)
    ensures
        final(notifier).reliable() == old(notifier).reliable(),
        old(notifier).reliable() ==> r is Ok,
        final(notifier).refused() == old(notifier).refused() + if r is Err {
            1nat
        } else {
            0nat
        },
        final(notifier).hints() == old(notifier).hints(),
        r matches Ok(passed) ==> {
            &&& extends(old(notifier).log(), final(notifier).log())
            &&& timeless_log(added(old(notifier).log(), final(notifier).log())) == finish_events(
                name@,
                outcome_of(*outcome),
            )
            &&& passed == passes(outcome_of(*outcome))
        },
{
    let ghost before = notifier.log();
    let mut passed = true;
    match outcome {
        Err(error) => {
            let kind = error.status();
            let message = match error.cause() {
                Some(text) => Some(text.clone()),
                None => None,
            };
            passed = match kind {
                MessageKind::Error => false,
                MessageKind::Ignored => true,
            };
            let event = Event::CaseMessage(
                CaseMessage {
                    name: name.to_owned(),
                    kind,
                    message,
                    elapsed_s: Some(context.elapsed_s()),
                },
            );
            proof {
                lemma_extends_push(notifier.log(), event@);
            }
            notifier.notify(event)?;
        },
        Ok(_) => {
            proof {
                lemma_extends_same(before);
            }
        },
    }
    let ghost middle = notifier.log();
    let event = Event::CaseComplete(
        CaseComplete { name: name.to_owned(), elapsed_s: Some(context.elapsed_s()) },
    );
    proof {
        lemma_extends_push(middle, event@);
    }
    notifier.notify(event)?;
    proof {
        lemma_extends_chain(before, middle, notifier.log());
    }
    Ok(passed)
}

/// Runs one case: tells `notifier` of its start, runs its body, and tells how it ended.
/// Returns whether the case counts as a success of the run.
pub fn run_case<C: Case, N: Notifier>(case: &C, context: &TestContext<C::Input>, notifier: &mut N) -> (r:
    Result<bool, WriteError>)
    requires
        case.runnable(),
    ensures
        final(notifier).reliable() == old(notifier).reliable(),
        old(notifier).reliable() ==> r is Ok,
        final(notifier).refused() == old(notifier).refused() + if r is Err {
            1nat
        } else {
            0nat
        },
        final(notifier).hints() == old(notifier).hints(),
        r matches Ok(passed) ==> extends(old(notifier).log(), final(notifier).log()) && exists|
            result: RunResult,
        |
            {
                &&& case.may_give(context, result)
                &&& timeless_log(added(old(notifier).log(), final(notifier).log())) == case_events(
                    case.spec_name(),
                    outcome_of(result),
                )
                &&& passed == passes(outcome_of(result))
            },
{
    let ghost before = notifier.log();
    start_case(case.name(), context, notifier)?;
    let ghost middle = notifier.log();
    let outcome = case.run(context);
    let passed = finish_case(case.name(), &outcome, context, notifier)?;
    proof {
        lemma_extends_chain(before, middle, notifier.log());
        assert(timeless_log(added(before, notifier.log())) == case_events(
            case.spec_name(),
            outcome_of(outcome),
        ));
    }
    Ok(passed)
}

/// The state of a lane that ran `names` one at a time, where `outcomes` tells how each
/// case ended if it ran: the events of the lane without their times, and whether the run
/// is still a success. Under fail-fast no case runs after a failure.
pub open spec fn serial_lane(
    names: Seq<Seq<char>>,
    outcomes: Seq<Outcome>,
    fail_fast: bool,
    success: bool,
) -> (Seq<EventView>, bool)
    decreases names.len(),
{
    if names.len() == 0 {
        (Seq::empty(), success)
    } else {
        let before = serial_lane(names.drop_last(), outcomes.drop_last(), fail_fast, success);
        if fail_fast && !before.1 {
            before
        } else {
            (
                before.0 + case_events(names.last(), outcomes.last()),
                before.1 && passes(outcomes.last()),
            )
        }
    }
}

/// Whether running `case` in the run that `context` describes can end with `outcome`.
pub open spec fn ended_as<C: Case>(case: C, context: &TestContext<C::Input>, outcome: Outcome) -> bool {
    exists|result: RunResult| #[trigger] case.may_give(context, result) && outcome == outcome_of(result)
}

/// Whether the case at position `at` of a lane was started: under fail-fast, only while
/// the run was still a success.
pub open spec fn was_started(
    names: Seq<Seq<char>>,
    outcomes: Seq<Outcome>,
    fail_fast: bool,
    success: bool,
    at: int,
) -> bool {
    !(fail_fast && !serial_lane(names.take(at), outcomes.take(at), fail_fast, success).1)
}

/// Whether `outcomes` are those of the cases of a lane: every case that was started
/// ended as running it can end.
pub open spec fn genuine<C: Case>(
    cases: Seq<C>,
    order: Seq<usize>,
    context: &TestContext<C::Input>,
    outcomes: Seq<Outcome>,
    fail_fast: bool,
    success: bool,
) -> bool {
    forall|at: int|
        0 <= at < order.len() && was_started(
            names_at(cases, order),
            outcomes,
            fail_fast,
            success,
            at,
        ) ==> ended_as(cases[order[at] as int], context, #[trigger] outcomes[at])
}

/// The names of the cases at the positions `order`.
pub open spec fn names_at<C: Case>(cases: Seq<C>, order: Seq<usize>) -> Seq<Seq<char>> {
    Seq::new(order.len(), |k: int| cases[order[k] as int].spec_name())
}

/// Runs the cases at the positions `order` one at a time, in that order. `success` tells
/// whether the run is a success so far; under fail-fast no case is started once it is not.
pub fn run_cases<C: Case, N: Notifier>(
    cases: &Vec<C>,
    order: &Vec<usize>,
    context: &TestContext<C::Input>,
    notifier: &mut N,
    fail_fast: bool,
    success: bool,
) -> (r: Result<bool, WriteError>)
    requires
        forall|k: int| 0 <= k < order.len() ==> (#[trigger] order[k] as int) < cases.len(),
        forall|k: int| 0 <= k < cases.len() ==> (#[trigger] cases[k]).runnable(),
    ensures
        final(notifier).reliable() == old(notifier).reliable(),
        old(notifier).reliable() ==> r is Ok,
        final(notifier).refused() == old(notifier).refused() + if r is Err {
            1nat
        } else {
            0nat
        },
        final(notifier).hints() == old(notifier).hints(),
        r matches Ok(still) ==> extends(old(notifier).log(), final(notifier).log()) && exists|
            outcomes: Seq<Outcome>,
        |
            {
                &&& outcomes.len() == order.len()
                &&& (timeless_log(added(old(notifier).log(), final(notifier).log())), still)
                    == serial_lane(names_at(cases@, order@), outcomes, fail_fast, success)
                &&& genuine(cases@, order@, context, outcomes, fail_fast, success)
            },
{
    let ghost before = notifier.log();
    let ghost all = names_at(cases@, order@);
    let ghost mut outcomes: Seq<Outcome> = Seq::empty();
    let mut still = success;
    let mut i: usize = 0;
    proof {
        lemma_extends_same(before);
        assert(all.take(0) =~= Seq::empty());
    }
    while i < order.len()
        invariant
            i <= order.len(),
            all == names_at(cases@, order@),
            forall|k: int| 0 <= k < order.len() ==> (#[trigger] order[k] as int) < cases.len(),
            forall|k: int| 0 <= k < cases.len() ==> (#[trigger] cases[k]).runnable(),
            notifier.reliable() == old(notifier).reliable(),
            notifier.refused() == old(notifier).refused(),
            notifier.hints() == old(notifier).hints(),
            extends(before, notifier.log()),
            outcomes.len() == i,
            (timeless_log(added(before, notifier.log())), still) == serial_lane(
                all.take(i as int),
                outcomes,
                fail_fast,
                success,
            ),
            forall|at: int|
                0 <= at < i && was_started(all, outcomes, fail_fast, success, at) ==> ended_as(
                    cases@[order@[at] as int],
                    context,
                    #[trigger] outcomes[at],
                ),
        decreases order.len() - i,
    {
        let ghost middle = notifier.log();
        let ghost earlier = outcomes;
        proof {
            assert(all.take(i + 1).drop_last() =~= all.take(i as int));
            assert(all.take(i + 1).last() == cases@[order@[i as int] as int].spec_name());
            assert(earlier.take(i as int) =~= earlier);
        }
        if fail_fast && !still {
            proof {
                assert(outcomes.push(None).drop_last() =~= outcomes);
                outcomes = outcomes.push(None);
            }
        } else {
            let case = &cases[order[i]];
            let passed = run_case(case, context, notifier)?;
            proof {
                lemma_extends_chain(before, middle, notifier.log());
                let result = choose|result: RunResult|
                    {
                        &&& case.may_give(context, result)
                        &&& timeless_log(added(middle, notifier.log())) == case_events(
                            case.spec_name(),
                            outcome_of(result),
                        )
                        &&& passed == passes(outcome_of(result))
                    };
                let outcome = outcome_of(result);
                assert(ended_as(*case, context, outcome));
                assert(outcomes.push(outcome).drop_last() =~= outcomes);
                outcomes = outcomes.push(outcome);
            }
            still = still && passed;
        }
        proof {
            assert forall|at: int|
                0 <= at < i + 1 && was_started(all, outcomes, fail_fast, success, at) implies ended_as(
                cases@[order@[at] as int],
                context,
                #[trigger] outcomes[at],
            ) by {
                assert(outcomes.take(at) =~= earlier.take(at));
                if at < i {
                    assert(outcomes[at] == earlier[at]);
                    assert(was_started(all, earlier, fail_fast, success, at));
                } else {
                    assert(all.take(at) == all.take(i as int));
                }
            }
        }
        i += 1;
    }
    proof {
        assert(all.take(i as int) =~= all);
    }
    Ok(still)
}

/// Whether `log` is made of the events of cases that ran one after the other: every start
/// of a case is followed by its completion, with one message of the case in between at
/// most, and nothing stands outside such a stretch.
pub open spec fn case_by_case(log: Seq<EventView>) -> bool
    decreases log.len(),
{
    if log.len() == 0 {
        true
    } else {
        match log[0] {
            EventView::CaseStart { name, .. } => {
                ||| log.len() >= 2 && log[1] == (EventView::CaseComplete { name, elapsed: None })
                    && case_by_case(log.skip(2))
                ||| log.len() >= 3 && (log[1] matches EventView::CaseMessage {
                    name: of,
                    elapsed: None,
                    ..
                } && of == name) && log[2] == (EventView::CaseComplete { name, elapsed: None })
                    && case_by_case(log.skip(3))
            },
            _ => false,
        }
    }
}

/// Two logs of cases that ran one after the other give such a log when joined.
pub proof fn lemma_case_by_case_joined(first: Seq<EventView>, second: Seq<EventView>)
    requires
        case_by_case(first),
        case_by_case(second),
    ensures
        case_by_case(first + second),
    decreases first.len(),
{
    let joined = first + second;
    if first.len() == 0 {
        assert(joined =~= second);
    } else {
        if first.len() >= 2 && first[1] is CaseComplete && case_by_case(first.skip(2)) {
            lemma_case_by_case_joined(first.skip(2), second);
            assert(joined.skip(2) =~= first.skip(2) + second);
            assert(joined[0] == first[0] && joined[1] == first[1]);
        } else {
            lemma_case_by_case_joined(first.skip(3), second);
            assert(joined.skip(3) =~= first.skip(3) + second);
            assert(joined[0] == first[0] && joined[1] == first[1] && joined[2] == first[2]);
        }
    }
}

/// The events of a lane are those of cases that ran one after the other: each start has
/// its completion behind it, and the message of a case stands between the two.
pub proof fn lemma_lane_runs_case_by_case(
    names: Seq<Seq<char>>,
    outcomes: Seq<Outcome>,
    fail_fast: bool,
    success: bool,
)
    requires
        outcomes.len() == names.len(),
    ensures
        case_by_case(serial_lane(names, outcomes, fail_fast, success).0),
    decreases names.len(),
{
    if names.len() > 0 {
        lemma_lane_runs_case_by_case(names.drop_last(), outcomes.drop_last(), fail_fast, success);
        let before = serial_lane(names.drop_last(), outcomes.drop_last(), fail_fast, success);
        if !(fail_fast && !before.1) {
            let block = case_events(names.last(), outcomes.last());
            assert(case_by_case(block)) by {
                let name = names.last();
                match outcomes.last() {
                    Some((kind, message)) => {
                        assert(block =~= seq![
                            EventView::CaseStart { name, elapsed: None },
                            EventView::CaseMessage { name, kind, message, elapsed: None },
                            EventView::CaseComplete { name, elapsed: None },
                        ]);
                        assert(block.skip(3) =~= Seq::<EventView>::empty());
                        assert(case_by_case(block.skip(3)));
                    },
                    None => {
                        assert(block =~= seq![
                            EventView::CaseStart { name, elapsed: None },
                            EventView::CaseComplete { name, elapsed: None },
                        ]);
                        assert(block.skip(2) =~= Seq::<EventView>::empty());
                        assert(case_by_case(block.skip(2)));
                    },
                }
            }
            lemma_case_by_case_joined(before.0, block);
        }
    }
}

/// The result of a lane is the conjunction over its cases: the run is still a success
/// behind the lane where it was one before, and no case of the lane failed.
pub proof fn lemma_lane_result(
    names: Seq<Seq<char>>,
    outcomes: Seq<Outcome>,
    fail_fast: bool,
    success: bool,
)
    requires
        outcomes.len() == names.len(),
    ensures
        serial_lane(names, outcomes, fail_fast, success).1 == (success && forall|at: int|
            0 <= at < outcomes.len() ==> passes(#[trigger] outcomes[at])),
    decreases names.len(),
{
    if names.len() > 0 {
        let rest = outcomes.drop_last();
        lemma_lane_result(names.drop_last(), rest, fail_fast, success);
        if forall|at: int| 0 <= at < outcomes.len() ==> passes(#[trigger] outcomes[at]) {
            assert forall|at: int| 0 <= at < rest.len() implies passes(#[trigger] rest[at]) by {
                assert(rest[at] == outcomes[at]);
            }
            assert(passes(outcomes[outcomes.len() - 1]));
        } else {
            let bad = choose|at: int| 0 <= at < outcomes.len() && !passes(#[trigger] outcomes[at]);
            if bad < rest.len() {
                assert(rest[bad] == outcomes[bad]);
            }
        }
    }
}

/// Once a lane has stopped at a failure, the cases behind do not run, however they would
/// have ended.
pub proof fn lemma_stopped_lane(
    names: Seq<Seq<char>>,
    outcomes: Seq<Outcome>,
    fail_fast: bool,
    success: bool,
    ran: int,
)
    requires
        0 <= ran <= names.len(),
        outcomes.len() == names.len(),
        fail_fast,
        !serial_lane(names.take(ran), outcomes.take(ran), fail_fast, success).1,
    ensures
        serial_lane(names, outcomes, fail_fast, success) == serial_lane(
            names.take(ran),
            outcomes.take(ran),
            fail_fast,
            success,
        ),
    decreases names.len() - ran,
{
    if ran == names.len() {
        assert(names.take(ran) =~= names);
        assert(outcomes.take(ran) =~= outcomes);
    } else {
        assert(names.drop_last().take(ran) =~= names.take(ran));
        assert(outcomes.drop_last().take(ran) =~= outcomes.take(ran));
        lemma_stopped_lane(names.drop_last(), outcomes.drop_last(), fail_fast, success, ran);
    }
}

/// Runs the cases of the lane that may run in parallel, where no worker can be had: the
/// book of the lane decides, and every case that it starts runs on the calling thread.
pub fn run_lane<C: Case, N: Notifier>(
    cases: &Vec<C>,
    order: &Vec<usize>,
    context: &TestContext<C::Input>,
    notifier: &mut N,
    threads: usize,
    fail_fast: bool,
    success: bool,
) -> (r: Result<bool, WriteError>)
    requires
        forall|k: int| 0 <= k < order.len() ==> (#[trigger] order[k] as int) < cases.len(),
        forall|k: int| 0 <= k < cases.len() ==> (#[trigger] cases[k]).runnable(),
    ensures
        final(notifier).reliable() == old(notifier).reliable(),
        old(notifier).reliable() ==> r is Ok,
        final(notifier).refused() == old(notifier).refused() + if r is Err {
            1nat
        } else {
            0nat
        },
        final(notifier).hints() == old(notifier).hints(),
        r matches Ok(still) ==> extends(old(notifier).log(), final(notifier).log()) && exists|
            outcomes: Seq<Outcome>,
        |
            {
                &&& outcomes.len() == order.len()
                &&& (timeless_log(added(old(notifier).log(), final(notifier).log())), still)
                    == serial_lane(names_at(cases@, order@), outcomes, fail_fast, success)
                &&& genuine(cases@, order@, context, outcomes, fail_fast, success)
            },
{
    let ghost before = notifier.log();
    let ghost all = names_at(cases@, order@);
    let ghost mut outcomes: Seq<Outcome> = Seq::empty();
    let mut lane = ConcurrentLane::new(order.clone(), threads, fail_fast, success);
    let ghost mut ran: int = 0;
    proof {
        lemma_extends_same(before);
        assert(all.take(0) =~= Seq::empty());
        assert(order@.skip(0) =~= order@);
    }
    loop
        invariant
            0 <= ran <= order.len(),
            all == names_at(cases@, order@),
            forall|k: int| 0 <= k < order.len() ==> (#[trigger] order[k] as int) < cases.len(),
            forall|k: int| 0 <= k < cases.len() ==> (#[trigger] cases[k]).runnable(),
            notifier.reliable() == old(notifier).reliable(),
            notifier.refused() == old(notifier).refused(),
            notifier.hints() == old(notifier).hints(),
            before == old(notifier).log(),
            extends(before, notifier.log()),
            lane@.waiting == order@.skip(ran),
            lane@.running.len() == 0,
            lane@.threads >= 1,
            lane@.fail_fast == fail_fast,
            outcomes.len() == ran,
            (timeless_log(added(before, notifier.log())), lane@.success) == serial_lane(
                all.take(ran),
                outcomes,
                fail_fast,
                success,
            ),
            forall|at: int|
                0 <= at < ran && was_started(all, outcomes, fail_fast, success, at) ==> ended_as(
                    cases@[order@[at] as int],
                    context,
                    #[trigger] outcomes[at],
                ),
        decreases order.len() - ran,
    {
        let ghost middle = notifier.log();
        let ghost earlier = outcomes;
        match lane.next_action() {
            LaneAction::Start(at) => {
                proof {
                    assert(at == order@[ran]);
                    assert(all.take(ran + 1).drop_last() =~= all.take(ran));
                    assert(all.take(ran + 1).last() == cases@[at as int].spec_name());
                }
                let case = &cases[at];
                let passed = run_case(case, context, notifier)?;
                lane.ran_inline(passed);
                proof {
                    lemma_extends_chain(before, middle, notifier.log());
                    let result = choose|result: RunResult|
                        {
                            &&& case.may_give(context, result)
                            &&& timeless_log(added(middle, notifier.log())) == case_events(
                                case.spec_name(),
                                outcome_of(result),
                            )
                            &&& passed == passes(outcome_of(result))
                        };
                    let outcome = outcome_of(result);
                    assert(ended_as(*case, context, outcome));
                    assert(outcomes.push(outcome).drop_last() =~= outcomes);
                    outcomes = outcomes.push(outcome);
                    assert(order@.skip(ran).skip(1) =~= order@.skip(ran + 1));
                    assert forall|at: int|
                        0 <= at < ran + 1 && was_started(
                            all,
                            outcomes,
                            fail_fast,
                            success,
                            at,
                        ) implies ended_as(
                        cases@[order@[at] as int],
                        context,
                        #[trigger] outcomes[at],
                    ) by {
                        assert(outcomes.take(at) =~= earlier.take(at));
                        if at < ran {
                            assert(outcomes[at] == earlier[at]);
                            assert(was_started(all, earlier, fail_fast, success, at));
                        }
                    }
                    ran = ran + 1;
                }
            },
            LaneAction::Wait => {
                // No case runs on a worker here, so there is nothing to wait for.
                proof {
                    assert(false);
                }
                return Ok(lane.success());
            },
            LaneAction::Done => {
                proof {
                    let rest = Seq::new((order.len() - ran) as nat, |k: int| None::<(MessageKind, Option<Seq<char>>)>);
                    let padded = outcomes + rest;
                    assert(padded.take(ran) =~= outcomes);
                    if ran < order.len() {
                        assert(lane@.waiting.len() > 0);
                        lemma_stopped_lane(all, padded, fail_fast, success, ran);
                    } else {
                        assert(all.take(ran) =~= all);
                        assert(padded =~= outcomes);
                    }
                    assert(padded.len() == order.len());
                    assert((timeless_log(added(before, notifier.log())), lane@.success)
                        == serial_lane(names_at(cases@, order@), padded, fail_fast, success));
                    assert forall|at: int|
                        0 <= at < order.len() && was_started(
                            all,
                            padded,
                            fail_fast,
                            success,
                            at,
                        ) implies ended_as(
                        cases@[order@[at] as int],
                        context,
                        #[trigger] padded[at],
                    ) by {
                        if at < ran {
                            assert(padded.take(at) =~= outcomes.take(at));
                            assert(padded[at] == outcomes[at]);
                            assert(was_started(all, outcomes, fail_fast, success, at));
                        } else {
                            // The lane had stopped before this case.
                            assert(all.take(at).take(ran) =~= all.take(ran));
                            assert(padded.take(at).take(ran) =~= outcomes);
                            lemma_stopped_lane(
                                all.take(at),
                                padded.take(at),
                                fail_fast,
                                success,
                                ran,
                            );
                        }
                    }
                }
                return Ok(lane.success());
            },
        }
    }
}

/// A case that asks to be ignored for a reason, in a run that honors such requests,
/// leaves one message, which has the severity `Ignored` and carries the reason; it does
/// not fail the run; and a summary of its events counts one ignored case and no other.
pub proof fn lemma_ignored_case(name: Seq<char>, reason: Seq<char>)
    ensures
        case_events(name, Some((MessageKind::Ignored, Some(reason)))) == seq![
            EventView::CaseStart { name, elapsed: None },
            EventView::CaseMessage {
                name,
                kind: MessageKind::Ignored,
                message: Some(reason),
                elapsed: None,
            },
            EventView::CaseComplete { name, elapsed: None },
        ],
        passes(Some((MessageKind::Ignored, Some(reason)))),
        ({
            let summary = crate::notify::summary::replayed(
                case_events(name, Some((MessageKind::Ignored, Some(reason)))),
            );
            &&& crate::notify::summary::count(summary.cases, Some(MessageKind::Ignored)) == 1
            &&& crate::notify::summary::count(summary.cases, Some(MessageKind::Error)) == 0
            &&& crate::notify::summary::count(summary.cases, None) == 0
        }),
{
    let events = case_events(name, Some((MessageKind::Ignored, Some(reason))));
    let expected = seq![
        EventView::CaseStart { name, elapsed: None },
        EventView::CaseMessage {
            name,
            kind: MessageKind::Ignored,
            message: Some(reason),
            elapsed: None,
        },
        EventView::CaseComplete { name, elapsed: None },
    ];
    assert(events =~= expected);
    let none = Seq::<EventView>::empty();
    let one = seq![expected[0]];
    let two = seq![expected[0], expected[1]];
    assert(events.drop_last() =~= two);
    assert(two.drop_last() =~= one);
    assert(one.drop_last() =~= none);
    let fresh = crate::notify::summary::fresh();
    let s0 = crate::notify::summary::replayed_onto(fresh, none);
    let s1 = crate::notify::summary::replayed_onto(fresh, one);
    let s2 = crate::notify::summary::replayed_onto(fresh, two);
    let s3 = crate::notify::summary::replayed_onto(fresh, events);
    assert(s0 == fresh);
    assert(s1 == crate::notify::summary::step(s0, expected[0]));
    assert(s2 == crate::notify::summary::step(s1, expected[1]));
    assert(s3 == crate::notify::summary::step(s2, expected[2]));
    let started = crate::notify::summary::marked(
        crate::notify::summary::blank(name),
        crate::notify::summary::Mark::Started,
    );
    assert(s1.cases =~= seq![started]);
    assert(crate::notify::summary::slot(s1.cases, name) == 0);
    let messaged = crate::notify::summary::marked(
        started,
        crate::notify::summary::Mark::Message(MessageKind::Ignored, Some(reason)),
    );
    assert(s2.cases =~= seq![messaged]);
    assert(crate::notify::summary::slot(s2.cases, name) == 0);
    let done = crate::notify::summary::marked(messaged, crate::notify::summary::Mark::Completed);
    assert(s3.cases =~= seq![done]);
    assert(done.messages =~= seq![(MessageKind::Ignored, Some(reason))]);
    assert(done.messages[0].0 == MessageKind::Ignored);
    assert(crate::notify::summary::verdict(done) == Some(MessageKind::Ignored));
    let rest = s3.cases.drop_last();
    assert(rest =~= Seq::<crate::notify::summary::CaseRecord>::empty());
    assert(s3.cases.last() == done);
    assert(crate::notify::summary::count(rest, Some(MessageKind::Ignored)) == 0);
    assert(crate::notify::summary::count(rest, Some(MessageKind::Error)) == 0);
    assert(crate::notify::summary::count(rest, None) == 0);
    assert(s3 == crate::notify::summary::replayed(events));
}

/// Why a run was refused before its first case.
#[derive(Copy, Clone, Debug, PartialEq, Eq, Structural)]
pub enum Refusal {
    /// The options ask that the output of the cases is not captured.
    NoCapture,
    /// The options ask for the output of the cases that passed.
    ShowOutput,
    /// The options ask for tests and for benchmarks at once.
    ModeConflict,
}

/// Why a run ended without a result.
#[derive(Debug)]
pub enum HarnessError {
    Refused(Refusal),
    /// The reporter could not write.
    Write(WriteError),
}

impl Refusal {
    pub open spec fn text(self) -> Seq<char> {
        match self {
            Refusal::NoCapture => "`--no-capture` is not supported at this time"@,
            Refusal::ShowOutput => "`--show-output` is not supported at this time"@,
            Refusal::ModeConflict => "`--test` and `-bench` are mutually exclusive"@,
        }
    }

    /// The message for the user.
    pub fn message(&self) -> (text: &'static str)
        ensures
            text@ == self.text(),
    {
        match self {
            Refusal::NoCapture => "`--no-capture` is not supported at this time",
            Refusal::ShowOutput => "`--show-output` is not supported at this time",
            Refusal::ModeConflict => "`--test` and `-bench` are mutually exclusive",
        }
    }
}

/// Why the options do not allow a run, if they do not.
pub open spec fn refusal(opts: TestOptsView) -> Option<Refusal> {
    if opts.no_capture {
        Some(Refusal::NoCapture)
    } else if opts.show_output {
        Some(Refusal::ShowOutput)
    } else if opts.run_tests && opts.bench_benchmarks {
        Some(Refusal::ModeConflict)
    } else {
        None
    }
}

/// The number of cases that may run at once: one where the options do not say.
pub open spec fn thread_count(opts: TestOptsView) -> nat {
    match opts.test_threads {
        Some(threads) => if threads == 0 {
            1
        } else {
            threads as nat
        },
        None => 1,
    }
}

/// The events of a whole run without their times, and its result. `flags` tells of each
/// case whether it is exclusive, `apart` how the cases of the concurrent lane ended, and
/// `alone` how those of the exclusive lane ended. The concurrent lane comes first.
pub open spec fn whole_run<C: Case>(
    cases: Seq<C>,
    opts: TestOptsView,
    flags: Seq<bool>,
    apart: Seq<Outcome>,
    alone: Seq<Outcome>,
) -> (Seq<EventView>, bool) {
    let first = serial_lane(
        names_at(cases, concurrent_lane(flags, thread_count(opts))),
        apart,
        opts.fail_fast,
        true,
    );
    let second = serial_lane(
        names_at(cases, exclusive_lane(flags, thread_count(opts))),
        alone,
        opts.fail_fast,
        first.1,
    );
    (
        seq![EventView::RunStart { elapsed: None }] + first.0 + second.0 + seq![
            EventView::RunComplete { elapsed: None },
        ],
        second.1,
    )
}

/// Whether the case at each position is taken as exclusive: its own answer in the run that
/// `context` describes, where the run has more than one thread and more than one case; no
/// case is asked otherwise.
pub open spec fn answers<C: Case>(cases: Seq<C>, context: &TestContext<C::Input>, threads: nat) -> Seq<bool> {
    Seq::new(
        cases.len(),
        |i: int| threads != 1 && cases.len() != 1 && cases[i].exclusive_in(context),
    )
}

/// The hints of a run: that cases run in parallel, given before the concurrent lane, and
/// that they do not, given before the exclusive lane, each only where its lane has a
/// case. `at` is the number of events that were taken before the first lane, `first` the
/// number of events of the concurrent lane, and `parallel` and `alone` are the numbers of
/// cases of the two lanes.
pub open spec fn run_hints(at: nat, first: nat, parallel: nat, alone: nat) -> Seq<(nat, bool)> {
    (if parallel > 0 {
        seq![(at, true)]
    } else {
        Seq::empty()
    }) + (if alone > 0 {
        seq![(at + first, false)]
    } else {
        Seq::empty()
    })
}

/// Whether the flags and the outcomes of a whole run are those of its cases, in a context
/// that carries the mode of the run and its way with the cases that ask to be ignored:
/// the flags are the answers of the cases, and every case that was started ended as
/// running it can end.
pub open spec fn genuine_run<C: Case>(
    cases: Seq<C>,
    opts: TestOptsView,
    flags: Seq<bool>,
    apart: Seq<Outcome>,
    alone: Seq<Outcome>,
    context: TestContext<C::Input>,
) -> bool {
    let first = concurrent_lane(flags, thread_count(opts));
    let second = exclusive_lane(flags, thread_count(opts));
    &&& context.mode_of() == mode_of(opts)
    &&& context.runs_ignored() == (opts.run_ignored != RunIgnored::No)
    &&& flags == answers(cases, &context, thread_count(opts))
    &&& genuine(cases, first, &context, apart, opts.fail_fast, true)
    &&& genuine(
        cases,
        second,
        &context,
        alone,
        opts.fail_fast,
        serial_lane(names_at(cases, first), apart, opts.fail_fast, true).1,
    )
}

/// A sequence whose items all meet `pred` is kept whole by the filter, and one whose
/// items all miss it is emptied.
proof fn lemma_filter_all_or_none<A>(s: Seq<A>, pred: spec_fn(A) -> bool)
    ensures
        (forall|i: int| 0 <= i < s.len() ==> pred(#[trigger] s[i])) ==> s.filter(pred) == s,
        (forall|i: int| 0 <= i < s.len() ==> !pred(#[trigger] s[i])) ==> s.filter(pred)
            == Seq::<A>::empty(),
    decreases s.len(),
{
    reveal(Seq::filter);
    if s.len() > 0 {
        let rest = s.drop_last();
        lemma_filter_all_or_none(rest, pred);
        if forall|i: int| 0 <= i < s.len() ==> pred(#[trigger] s[i]) {
            assert forall|i: int| 0 <= i < rest.len() implies pred(#[trigger] rest[i]) by {
                assert(rest[i] == s[i]);
            }
            assert(pred(s.last()));
            assert(rest.push(s.last()) =~= s);
        }
        if forall|i: int| 0 <= i < s.len() ==> !pred(#[trigger] s[i]) {
            assert forall|i: int| 0 <= i < rest.len() implies !pred(#[trigger] rest[i]) by {
                assert(rest[i] == s[i]);
            }
            assert(!pred(s.last()));
        }
    } else {
        assert(s.filter(pred) =~= s);
    }
}

/// Under fail-fast no exclusive case starts once a case of the concurrent lane has
/// failed: the run is over with the events of the concurrent lane, and it is no success.
pub proof fn lemma_failure_keeps_exclusive_cases_out<C: Case>(
    cases: Seq<C>,
    opts: TestOptsView,
    flags: Seq<bool>,
    apart: Seq<Outcome>,
    alone: Seq<Outcome>,
)
    requires
        opts.fail_fast,
        apart.len() == concurrent_lane(flags, thread_count(opts)).len(),
        alone.len() == exclusive_lane(flags, thread_count(opts)).len(),
        !serial_lane(
            names_at(cases, concurrent_lane(flags, thread_count(opts))),
            apart,
            true,
            true,
        ).1,
    ensures
        whole_run(cases, opts, flags, apart, alone) == (
            seq![EventView::RunStart { elapsed: None }] + serial_lane(
                names_at(cases, concurrent_lane(flags, thread_count(opts))),
                apart,
                true,
                true,
            ).0 + seq![EventView::RunComplete { elapsed: None }],
            false,
        ),
{
    let behind = names_at(cases, exclusive_lane(flags, thread_count(opts)));
    assert(behind.take(0) =~= Seq::<Seq<char>>::empty());
    lemma_stopped_lane(behind, alone, true, false, 0);
    let first = serial_lane(
        names_at(cases, concurrent_lane(flags, thread_count(opts))),
        apart,
        true,
        true,
    );
    assert(serial_lane(behind, alone, true, false) == (Seq::<EventView>::empty(), false));
    assert(first.0 + Seq::<EventView>::empty() =~= first.0);
}

/// Where the run has one thread or one case, or every case is exclusive, the cases run
/// one at a time in the order in which they were handed over: no case runs in parallel,
/// and the events of the run are those of one lane over all the cases.
pub proof fn lemma_exclusive_cases_run_in_order<C: Case>(
    cases: Seq<C>,
    opts: TestOptsView,
    flags: Seq<bool>,
    apart: Seq<Outcome>,
    alone: Seq<Outcome>,
)
    requires
        flags.len() == cases.len(),
        flags.len() <= usize::MAX,
        thread_count(opts) <= 1 || flags.len() == 1 || forall|i: int|
            0 <= i < flags.len() ==> flags[i],
        apart.len() == concurrent_lane(flags, thread_count(opts)).len(),
        alone.len() == exclusive_lane(flags, thread_count(opts)).len(),
    ensures
        concurrent_lane(flags, thread_count(opts)) == Seq::<usize>::empty(),
        exclusive_lane(flags, thread_count(opts)) == crate::schedule::positions(flags.len()),
        names_at(cases, crate::schedule::positions(flags.len())) == names(cases),
        whole_run(cases, opts, flags, apart, alone) == ({
            let lane = serial_lane(names(cases), alone, opts.fail_fast, true);
            (
                seq![EventView::RunStart { elapsed: None }] + lane.0 + seq![
                    EventView::RunComplete { elapsed: None },
                ],
                lane.1,
            )
        }),
{
    let all = crate::schedule::positions(flags.len());
    if !(thread_count(opts) <= 1 || flags.len() == 1) {
        lemma_filter_all_or_none(all, |i: usize| flags[i as int]);
        lemma_filter_all_or_none(all, |i: usize| !flags[i as int]);
    }
    assert(names_at(cases, all) =~= names(cases));
    assert(apart =~= Seq::<Outcome>::empty());
    assert(names_at(cases, Seq::<usize>::empty()) =~= Seq::<Seq<char>>::empty());
    let lane = serial_lane(names(cases), alone, opts.fail_fast, true);
    assert(seq![EventView::RunStart { elapsed: None }] + Seq::<EventView>::empty() + lane.0
        =~= seq![EventView::RunStart { elapsed: None }] + lane.0);
}

/// What an admitted run works with: the context that its cases see, and the number of
/// cases that may run at once.
pub struct Admission<T = ()> {
    pub context: TestContext<T>,
    pub threads: usize,
}

/// The mode of a run that the options admit.
pub open spec fn mode_of(opts: TestOptsView) -> RunMode {
    if opts.run_tests {
        RunMode::Test
    } else {
        RunMode::Bench
    }
}

/// Opens a run in which no value is handed to the cases; see `begin_run_with`.
pub fn begin_run<N: Notifier>(start: &std::time::Instant, opts: &TestOpts, notifier: &mut N) -> (r:
    Result<Admission, HarnessError>)
    requires
        opts.run_tests || opts.bench_benchmarks,
    ensures
        final(notifier).reliable() == old(notifier).reliable(),
        r matches Err(HarnessError::Write(_)) ==> !old(notifier).reliable(),
        final(notifier).refused() == old(notifier).refused() + if r matches Err(
            HarnessError::Write(_),
        ) {
            1nat
        } else {
            0nat
        },
        final(notifier).hints() == old(notifier).hints(),
        r matches Err(HarnessError::Refused(why)) ==> refusal(opts@) == Some(why),
        !(r matches Err(HarnessError::Write(_))) ==> extends(
            old(notifier).log(),
            final(notifier).log(),
        ) && timeless_log(added(old(notifier).log(), final(notifier).log())) == seq![
            EventView::RunStart { elapsed: None },
        ],
        r matches Ok(admission) ==> {
            &&& refusal(opts@) is None
            &&& admission.threads == thread_count(opts@)
            &&& admission.context.start_of() == *start
            &&& admission.context.mode_of() == mode_of(opts@)
            &&& admission.context.runs_ignored() == (opts.run_ignored != RunIgnored::No)
        },
{
    begin_run_with(start, opts, notifier, ())
}

/// Opens a run: tells `notifier` that the run starts, and admits the run unless the
/// options ask for what is not supported. The context of an admitted run carries `value`
/// to every case.
pub fn begin_run_with<T, N: Notifier>(
    start: &std::time::Instant,
    opts: &TestOpts,
    notifier: &mut N,
    value: T,
) -> (r: Result<Admission<T>, HarnessError>)
    requires
        opts.run_tests || opts.bench_benchmarks,
    ensures
        final(notifier).reliable() == old(notifier).reliable(),
        r matches Err(HarnessError::Write(_)) ==> !old(notifier).reliable(),
        final(notifier).refused() == old(notifier).refused() + if r matches Err(
            HarnessError::Write(_),
        ) {
            1nat
        } else {
            0nat
        },
        final(notifier).hints() == old(notifier).hints(),
        r matches Err(HarnessError::Refused(why)) ==> refusal(opts@) == Some(why),
        !(r matches Err(HarnessError::Write(_))) ==> extends(
            old(notifier).log(),
            final(notifier).log(),
        ) && timeless_log(added(old(notifier).log(), final(notifier).log())) == seq![
            EventView::RunStart { elapsed: None },
        ],
        r matches Ok(admission) ==> {
            &&& refusal(opts@) is None
            &&& admission.threads == thread_count(opts@)
            &&& admission.context.start_of() == *start
            &&& admission.context.mode_of() == mode_of(opts@)
            &&& admission.context.runs_ignored() == (opts.run_ignored != RunIgnored::No)
            &&& admission.context.value_of() == value
        },
{
    let event = Event::RunStart(RunStart { elapsed_s: Some(since(start)) });
    proof {
        lemma_extends_push(notifier.log(), event@);
    }
    match notifier.notify(event) {
        Ok(_) => {},
        Err(e) => {
            return Err(HarnessError::Write(e));
        },
    }
    if opts.no_capture {
        return Err(HarnessError::Refused(Refusal::NoCapture));
    }
    if opts.show_output {
        return Err(HarnessError::Refused(Refusal::ShowOutput));
    }
    let threads: usize = match opts.test_threads {
        Some(threads) => if threads == 0 {
            1
        } else {
            threads
        },
        None => 1,
    };
    let run_ignored = match opts.run_ignored {
        RunIgnored::Yes => true,
        RunIgnored::Only => true,
        RunIgnored::No => false,
    };
    if opts.run_tests && opts.bench_benchmarks {
        return Err(HarnessError::Refused(Refusal::ModeConflict));
    }
    let mode = if opts.run_tests {
        RunMode::Test
    } else {
        RunMode::Bench
    };
    Ok(Admission { context: TestContext::with_value(start, mode, run_ignored, value), threads })
}

/// Closes a run: tells `notifier` that the run is complete.
pub fn end_run<N: Notifier>(start: &std::time::Instant, notifier: &mut N) -> (r: Result<
    (),
    WriteError,
>)
    ensures
        final(notifier).reliable() == old(notifier).reliable(),
        old(notifier).reliable() ==> r is Ok,
        final(notifier).refused() == old(notifier).refused() + if r is Err {
            1nat
        } else {
            0nat
        },
        final(notifier).hints() == old(notifier).hints(),
        r is Ok ==> extends(old(notifier).log(), final(notifier).log()) && timeless_log(
            added(old(notifier).log(), final(notifier).log()),
        ) == seq![EventView::RunComplete { elapsed: None }],
{
    let event = Event::RunComplete(RunComplete { elapsed_s: Some(since(start)) });
    proof {
        lemma_extends_push(notifier.log(), event@);
    }
    notifier.notify(event)
}

/// Asks every case whether it is exclusive, where the run has more than one thread and
/// more than one case; else no case is asked.
pub fn exclusive_flags<C: Case>(cases: &Vec<C>, context: &TestContext<C::Input>, threads: usize) -> (flags:
    Vec<bool>)
    ensures
        flags@ == answers(cases@, context, threads as nat),
{
    let ask = !(threads == 1 || cases.len() == 1);
    let mut flags: Vec<bool> = Vec::new();
    let mut i: usize = 0;
    while i < cases.len()
        invariant
            i <= cases.len(),
            flags.len() == i,
            ask == (threads != 1 && cases.len() != 1),
            forall|k: int|
                0 <= k < i ==> #[trigger] flags@[k] == (ask && cases@[k].exclusive_in(context)),
        decreases cases.len() - i,
    {
        let flag = if ask {
            cases[i].exclusive(context)
        } else {
            false
        };
        let ghost earlier = flags@;
        flags.push(flag);
        proof {
            assert forall|k: int| 0 <= k < i + 1 implies #[trigger] flags@[k] == (ask
                && cases@[k].exclusive_in(context)) by {
                if k < i {
                    assert(flags@[k] == earlier[k]);
                }
            }
        }
        i += 1;
    }
    proof {
        assert(flags@ =~= answers(cases@, context, threads as nat));
    }
    flags
}

/// Runs the selected cases, which take no value, on the calling thread; see
/// `run_with_value`.
pub fn run<C: Case<Input = ()>, N: Notifier>(
    start: &std::time::Instant,
    opts: &TestOpts,
    cases: Vec<C>,
    notifier: &mut N,
) -> (r: Result<bool, HarnessError>)
    requires
        opts.run_tests || opts.bench_benchmarks,
        forall|k: int| 0 <= k < cases.len() ==> (#[trigger] cases[k]).runnable(),
    ensures
        final(notifier).reliable() == old(notifier).reliable(),
        r matches Err(HarnessError::Write(_)) ==> !old(notifier).reliable(),
        final(notifier).refused() == old(notifier).refused() + if r matches Err(
            HarnessError::Write(_),
        ) {
            1nat
        } else {
            0nat
        },
        r matches Err(HarnessError::Refused(why)) ==> refusal(opts@) == Some(why) && extends(
            old(notifier).log(),
            final(notifier).log(),
        ) && timeless_log(added(old(notifier).log(), final(notifier).log())) == seq![
            EventView::RunStart { elapsed: None },
        ],
        r is Ok ==> refusal(opts@) is None,
        r matches Ok(success) ==> extends(old(notifier).log(), final(notifier).log()) && exists|
            flags: Seq<bool>,
            apart: Seq<Outcome>,
            alone: Seq<Outcome>,
            context: TestContext,
        |
            {
                &&& flags.len() == cases.len()
                &&& apart.len() == concurrent_lane(flags, thread_count(opts@)).len()
                &&& alone.len() == exclusive_lane(flags, thread_count(opts@)).len()
                &&& (timeless_log(added(old(notifier).log(), final(notifier).log())), success)
                    == whole_run(cases@, opts@, flags, apart, alone)
                &&& genuine_run(cases@, opts@, flags, apart, alone, context)
                &&& final(notifier).hints() == old(notifier).hints() + run_hints(
                    old(notifier).log().len() + 1,
                    serial_lane(
                        names_at(cases@, concurrent_lane(flags, thread_count(opts@))),
                        apart,
                        opts.fail_fast,
                        true,
                    ).0.len(),
                    concurrent_lane(flags, thread_count(opts@)).len(),
                    exclusive_lane(flags, thread_count(opts@)).len(),
                )
            },
{
    run_with_value(start, opts, cases, notifier, ())
}

/// Runs the selected cases on the calling thread and returns whether the run is a
/// success: no case failed. The cases that may run in parallel come first, one after the
/// other, then the exclusive ones. Every case is handed `value` in its context.
pub fn run_with_value<C: Case, N: Notifier>(
    start: &std::time::Instant,
    opts: &TestOpts,
    cases: Vec<C>,
    notifier: &mut N,
    value: C::Input,
) -> (r: Result<bool, HarnessError>)
    requires
        opts.run_tests || opts.bench_benchmarks,
        forall|k: int| 0 <= k < cases.len() ==> (#[trigger] cases[k]).runnable(),
    ensures
        final(notifier).reliable() == old(notifier).reliable(),
        r matches Err(HarnessError::Write(_)) ==> !old(notifier).reliable(),
        final(notifier).refused() == old(notifier).refused() + if r matches Err(
            HarnessError::Write(_),
        ) {
            1nat
        } else {
            0nat
        },
        r matches Err(HarnessError::Refused(why)) ==> refusal(opts@) == Some(why) && extends(
            old(notifier).log(),
            final(notifier).log(),
        ) && timeless_log(added(old(notifier).log(), final(notifier).log())) == seq![
            EventView::RunStart { elapsed: None },
        ],
        r is Ok ==> refusal(opts@) is None,
        r matches Ok(success) ==> extends(old(notifier).log(), final(notifier).log()) && exists|
            flags: Seq<bool>,
            apart: Seq<Outcome>,
            alone: Seq<Outcome>,
            context: TestContext<C::Input>,
        |
            {
                &&& flags.len() == cases.len()
                &&& apart.len() == concurrent_lane(flags, thread_count(opts@)).len()
                &&& alone.len() == exclusive_lane(flags, thread_count(opts@)).len()
                &&& (timeless_log(added(old(notifier).log(), final(notifier).log())), success)
                    == whole_run(cases@, opts@, flags, apart, alone)
                &&& genuine_run(cases@, opts@, flags, apart, alone, context)
                &&& final(notifier).hints() == old(notifier).hints() + run_hints(
                    old(notifier).log().len() + 1,
                    serial_lane(
                        names_at(cases@, concurrent_lane(flags, thread_count(opts@))),
                        apart,
                        opts.fail_fast,
                        true,
                    ).0.len(),
                    concurrent_lane(flags, thread_count(opts@)).len(),
                    exclusive_lane(flags, thread_count(opts@)).len(),
                )
                &&& context.value_of() == value
            },
{
    let ghost before = notifier.log();
    let admission = begin_run_with(start, opts, notifier, value)?;
    let ghost started = notifier.log();
    let context = admission.context;
    let threads = admission.threads;
    let flags = exclusive_flags(&cases, &context, threads);
    let lanes = plan_lanes(&flags, threads);
    if lanes.concurrent.len() > 0 {
        notifier.threaded(true);
    }
    let first = match run_lane(
        &cases,
        &lanes.concurrent,
        &context,
        notifier,
        threads,
        opts.fail_fast,
        true,
    ) {
        Ok(first) => first,
        Err(e) => {
            return Err(HarnessError::Write(e));
        },
    };
    let ghost raced = notifier.log();
    let ghost apart = choose|outcomes: Seq<Outcome>|
        {
            &&& outcomes.len() == lanes.concurrent.len()
            &&& (timeless_log(added(started, raced)), first) == serial_lane(
                names_at(cases@, lanes.concurrent@),
                outcomes,
                opts.fail_fast,
                true,
            )
            &&& genuine(cases@, lanes.concurrent@, &context, outcomes, opts.fail_fast, true)
        };
    if lanes.exclusive.len() > 0 {
        notifier.threaded(false);
    }
    let success = match run_cases(
        &cases,
        &lanes.exclusive,
        &context,
        notifier,
        opts.fail_fast,
        first,
    ) {
        Ok(success) => success,
        Err(e) => {
            return Err(HarnessError::Write(e));
        },
    };
    let ghost ran = notifier.log();
    let ghost alone = choose|outcomes: Seq<Outcome>|
        {
            &&& outcomes.len() == lanes.exclusive.len()
            &&& (timeless_log(added(raced, ran)), success) == serial_lane(
                names_at(cases@, lanes.exclusive@),
                outcomes,
                opts.fail_fast,
                first,
            )
            &&& genuine(cases@, lanes.exclusive@, &context, outcomes, opts.fail_fast, first)
        };
    match end_run(start, notifier) {
        Ok(_) => {},
        Err(e) => {
            return Err(HarnessError::Write(e));
        },
    }
    proof {
        let after = notifier.log();
        lemma_extends_chain(before, started, raced);
        lemma_extends_chain(before, raced, ran);
        lemma_extends_chain(before, ran, after);
        assert(timeless_log(added(before, after)) =~= seq![EventView::RunStart { elapsed: None }]
            + timeless_log(added(started, raced)) + timeless_log(added(raced, ran)) + seq![
            EventView::RunComplete { elapsed: None },
        ]);
        assert((timeless_log(added(before, after)), success) == whole_run(
            cases@,
            opts@,
            flags@,
            apart,
            alone,
        ));
        assert(genuine_run(cases@, opts@, flags@, apart, alone, context));
        assert(started.len() == before.len() + 1) by {
            assert(timeless_log(added(before, started)).len() == 1);
        }
        assert(raced.len() == started.len() + timeless_log(added(started, raced)).len());
        assert(notifier.hints() =~= old(notifier).hints() + run_hints(
            before.len() + 1,
            timeless_log(added(started, raced)).len(),
            lanes.concurrent.len() as nat,
            lanes.exclusive.len() as nat,
        ));
    }
    Ok(success)
}

} // verus!
