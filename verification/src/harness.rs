//! The harness: discovery of the cases, and the run of the selected ones.

use vstd::prelude::*;
use crate::case::Case;
use crate::cli::Arg;
use crate::cli::ArgView;
use crate::cli::LexError;
use crate::cli::new_parser;
use crate::cli::next_arg;
use crate::cli::next_raw;
use crate::cli::pending;
use crate::context::now;
use crate::context::since;
use crate::event::DiscoverCase;
use crate::event::DiscoverComplete;
use crate::event::DiscoverStart;
use crate::event::Event;
use crate::event::EventView;
use crate::event::RunMode;
use crate::notify::AnyNotifier;
use crate::notify::Notifier;
use crate::notify::Sink;
use crate::notify::WriteError;
use crate::notify::added;
use crate::notify::extends;
use crate::notify::notifier;
use crate::notify::reporter_for;
use crate::notify::timeless_log;
use crate::opts::TestOpts;
use crate::opts::TestOptsBuilder;
use crate::opts::TestOptsView;
use crate::run::HarnessError;
use crate::run::run_with_value;
use crate::select::priority;
use crate::select::priority_of;
use crate::select::runs_before;
use crate::select::selected;
use crate::text::lemma_text_le_total;
use crate::text::lemma_text_le_trans;
use crate::text::text_le_exec;
use crate::text::to_chars;

verus! {

/// The status with which a process ends after a run that was no success.
pub const ERROR_EXIT_CODE: i32 = 101;

/// The names of `cases`, in order.
pub open spec fn names<C: Case>(cases: Seq<C>) -> Seq<Seq<char>> {
    cases.map_values(|c: C| c.spec_name())
}

/// The events of a discovery, without their times: its start, one event for each case in
/// the order given, telling whether the case is selected, and its completion.
pub open spec fn discover_events(names: Seq<Seq<char>>, opts: TestOptsView) -> Seq<EventView> {
    seq![EventView::DiscoverStart { elapsed: None }] + Seq::new(
        names.len(),
        |i: int|
            EventView::DiscoverCase {
                name: names[i],
                mode: RunMode::Test,
                selected: selected(names[i], opts),
                elapsed: None,
            },
    ) + seq![EventView::DiscoverComplete { elapsed: None }]
}

/// The rank of a name, and zero for a name that has none.
pub open spec fn rank(name: Seq<char>, opts: TestOptsView) -> nat {
    match priority(name, opts) {
        Some(rank) => rank,
        None => 0,
    }
}

/// By what a selected case is ordered: its rank, then its name.
pub open spec fn run_key<C: Case>(case: C, opts: TestOptsView) -> (nat, Seq<char>) {
    (rank(case.spec_name(), opts), case.spec_name())
}

/// Whether `cases` stand in the order in which they run.
pub open spec fn in_run_order<C: Case>(cases: Seq<C>, opts: TestOptsView) -> bool {
    forall|a: int, b: int|
        0 <= a < b < cases.len() ==> runs_before(
            #[trigger] run_key(cases[a], opts),
            #[trigger] run_key(cases[b], opts),
        )
}

/// The cases of `cases` that the options select, in the order given.
pub open spec fn selection<C: Case>(cases: Seq<C>, opts: TestOptsView) -> Seq<C> {
    cases.filter(|c: C| selected(c.spec_name(), opts))
}

proof fn lemma_runs_before_total(a: (nat, Seq<char>), b: (nat, Seq<char>))
    ensures
        runs_before(a, b) || runs_before(b, a),
{
    lemma_text_le_total(a.1, b.1);
}

proof fn lemma_runs_before_trans(a: (nat, Seq<char>), b: (nat, Seq<char>), c: (nat, Seq<char>))
    requires
        runs_before(a, b),
        runs_before(b, c),
    ensures
        runs_before(a, c),
{
    if a.0 == b.0 && b.0 == c.0 {
        lemma_text_le_trans(a.1, b.1, c.1);
    }
}

fn key_before(a: &(usize, Vec<char>), b: &(usize, Vec<char>)) -> (yes: bool)
    ensures
        yes == runs_before((a.0 as nat, a.1@), (b.0 as nat, b.1@)),
{
    a.0 < b.0 || (a.0 == b.0 && text_le_exec(&a.1, &b.1))
}

/// A case that is put behind the cases that run before it, and before one that does not,
/// keeps the run order; the cases are then the earlier ones and the new one.
proof fn lemma_insert_in_run_order<C: Case>(before: Seq<C>, case: C, opts: TestOptsView, at: int)
    requires
        0 <= at <= before.len(),
        in_run_order(before, opts),
        forall|k: int|
            0 <= k < at ==> runs_before(#[trigger] run_key(before[k], opts), run_key(case, opts)),
        at < before.len() ==> !runs_before(run_key(before[at], opts), run_key(case, opts)),
    ensures
        in_run_order(before.insert(at, case), opts),
        before.insert(at, case).to_multiset() == before.to_multiset().insert(case),
        forall|k: int|
            0 <= k < before.len() + 1 ==> #[trigger] before.insert(at, case)[k] == case
                || before.contains(before.insert(at, case)[k]),
{
    let after = before.insert(at, case);
    before.insert_ensures(at, case);
    assert forall|a: int, b: int| 0 <= a < b < after.len() implies runs_before(
        #[trigger] run_key(after[a], opts),
        #[trigger] run_key(after[b], opts),
    ) by {
        if b < at {
            assert(after[a] == before[a]);
            assert(after[b] == before[b]);
        } else if b == at {
            assert(after[a] == before[a]);
        } else if a == at {
            // The case at `at` runs behind the new one, and so do those behind it.
            assert(after[b] == before[b - 1]);
            lemma_runs_before_total(run_key(before[at], opts), run_key(case, opts));
            if b - 1 > at {
                assert(runs_before(run_key(before[at], opts), run_key(before[b - 1], opts)));
                lemma_runs_before_trans(
                    run_key(case, opts),
                    run_key(before[at], opts),
                    run_key(before[b - 1], opts),
                );
            }
        } else if a < at {
            assert(after[a] == before[a]);
            assert(after[b] == before[b - 1]);
        } else {
            assert(after[a] == before[a - 1]);
            assert(after[b] == before[b - 1]);
        }
    }
    assert(after =~= before.take(at).push(case) + before.skip(at));
    assert(before =~= before.take(at) + before.skip(at));
    vstd::seq_lib::lemma_multiset_commutative(before.take(at).push(case), before.skip(at));
    vstd::seq_lib::lemma_multiset_commutative(before.take(at), before.skip(at));
    before.take(at).to_multiset_ensures();
    assert(after.to_multiset() =~= before.to_multiset().insert(case));
    assert forall|k: int| 0 <= k < after.len() implies #[trigger] after[k] == case
        || before.contains(after[k]) by {
        if k < at {
            assert(after[k] == before[k]);
        } else if k > at {
            assert(after[k] == before[k - 1]);
        }
    }
}

/// Puts `case` behind the cases that run before it, and before the others.
fn insert_in_run_order<C: Case>(
    kept: &mut Vec<C>,
    keys: &mut Vec<(usize, Vec<char>)>,
    case: C,
    key: (usize, Vec<char>),
    opts: Ghost<TestOptsView>,
)
    requires
        old(keys).len() == old(kept).len(),
        forall|k: int|
            0 <= k < old(kept).len() ==> (#[trigger] old(keys)[k].0 as nat, old(keys)[k].1@)
                == run_key(old(kept)[k], opts@),
        (key.0 as nat, key.1@) == run_key(case, opts@),
        in_run_order(old(kept)@, opts@),
    ensures
        final(keys).len() == final(kept).len(),
        forall|k: int|
            0 <= k < final(kept).len() ==> (#[trigger] final(keys)[k].0 as nat, final(keys)[k].1@)
                == run_key(final(kept)[k], opts@),
        in_run_order(final(kept)@, opts@),
        final(kept)@.to_multiset() == old(kept)@.to_multiset().insert(case),
        forall|k: int|
            0 <= k < final(kept).len() ==> #[trigger] final(kept)[k] == case || old(
                kept,
            )@.contains(final(kept)[k]),
{
    let mut at: usize = 0;
    while at < keys.len() && key_before(&keys[at], &key)
        invariant
            at <= keys.len(),
            keys.len() == kept.len(),
            forall|k: int|
                0 <= k < at ==> runs_before(
                    #[trigger] run_key(kept[k], opts@),
                    run_key(case, opts@),
                ),
            forall|k: int|
                0 <= k < kept.len() ==> (#[trigger] keys[k].0 as nat, keys[k].1@) == run_key(
                    kept[k],
                    opts@,
                ),
            (key.0 as nat, key.1@) == run_key(case, opts@),
        decreases keys.len() - at,
    {
        at += 1;
    }
    proof {
        if at < kept.len() {
            assert((keys[at as int].0 as nat, keys[at as int].1@) == run_key(
                kept[at as int],
                opts@,
            ));
        }
        lemma_insert_in_run_order(kept@, case, opts@, at as int);
    }
    kept.insert(at, case);
    keys.insert(at, key);
}

/// Whether `cases` stand in the order of their names.
pub open spec fn in_name_order<C: Case>(cases: Seq<C>) -> bool {
    forall|a: int, b: int|
        0 <= a < b < cases.len() ==> crate::text::text_le(
            (#[trigger] cases[a]).spec_name(),
            (#[trigger] cases[b]).spec_name(),
        )
}

/// Puts the cases in the order of their names. Cases of one name keep their order.
pub fn sort_by_name<C: Case>(cases: Vec<C>) -> (sorted: Vec<C>)
    ensures
        sorted@.to_multiset() == cases@.to_multiset(),
        in_name_order(sorted@),
{
    let ghost all = cases@;
    let ghost opts = crate::opts::default_opts();
    let mut rest = cases;
    let mut sorted: Vec<C> = Vec::new();
    let mut keys: Vec<(usize, Vec<char>)> = Vec::new();
    proof {
        assert(all.take(0) =~= Seq::<C>::empty());
        assert(all.skip(0) =~= all);
    }
    while rest.len() > 0
        invariant
            rest.len() <= all.len(),
            opts == crate::opts::default_opts(),
            rest@ == all.skip(all.len() - rest.len()),
            sorted@.to_multiset() == all.take(all.len() - rest.len()).to_multiset(),
            keys.len() == sorted.len(),
            forall|k: int|
                0 <= k < sorted.len() ==> (#[trigger] keys[k].0 as nat, keys[k].1@) == run_key(
                    sorted[k],
                    opts,
                ),
            in_run_order(sorted@, opts),
        decreases rest.len(),
    {
        let ghost i = all.len() - rest.len();
        let case = rest.remove(0);
        proof {
            assert(case == all[i]);
            assert(rest@ =~= all.skip(i + 1));
            assert(all.take(i + 1) =~= all.take(i).push(case));
            all.take(i).to_multiset_ensures();
            assert(!crate::select::any_match(case.spec_name(), opts.skip, opts.filter_exact));
            assert(priority(case.spec_name(), opts) == Some(0nat));
        }
        let name = to_chars(case.name());
        insert_in_run_order(&mut sorted, &mut keys, case, (0, name), Ghost(opts));
    }
    proof {
        assert(all.take(all.len() as int) =~= all);
        assert forall|a: int, b: int| 0 <= a < b < sorted.len() implies crate::text::text_le(
            (#[trigger] sorted@[a]).spec_name(),
            (#[trigger] sorted@[b]).spec_name(),
        ) by {
            assert(runs_before(run_key(sorted@[a], opts), run_key(sorted@[b], opts)));
            assert(priority(sorted@[a].spec_name(), opts) == Some(0nat));
            assert(priority(sorted@[b].spec_name(), opts) == Some(0nat));
        }
    }
    sorted
}

/// The event for the case at `at` of a discovery.
pub open spec fn discover_case_event(names: Seq<Seq<char>>, opts: TestOptsView, at: int) -> EventView {
    EventView::DiscoverCase {
        name: names[at],
        mode: RunMode::Test,
        selected: selected(names[at], opts),
        elapsed: None,
    }
}

/// Tells `notifier` of every case, and keeps the selected cases, in the order in which they
/// run.
pub fn discover_cases<C: Case, N: Notifier>(
    start: &std::time::Instant,
    opts: &TestOpts,
    cases: Vec<C>,
    notifier: &mut N,
) -> (r: Result<Vec<C>, WriteError>)
    ensures
        final(notifier).reliable() == old(notifier).reliable(),
        old(notifier).reliable() ==> r is Ok,
        final(notifier).refused() == old(notifier).refused() + if r is Err {
            1nat
        } else {
            0nat
        },
        final(notifier).hints() == old(notifier).hints(),
        r matches Ok(kept) ==> {
            &&& extends(old(notifier).log(), final(notifier).log())
            &&& timeless_log(added(old(notifier).log(), final(notifier).log()))
                == discover_events(names(cases@), opts@)
            &&& kept@.to_multiset() == selection(cases@, opts@).to_multiset()
            &&& in_run_order(kept@, opts@)
            &&& forall|k: int| 0 <= k < kept.len() ==> cases@.contains(#[trigger] kept[k])
        },
{
    let ghost all = cases@;
    let ghost before = notifier.log();
    let ghost pred = |c: C| selected(c.spec_name(), opts@);
    let first = Event::DiscoverStart(DiscoverStart { elapsed_s: Some(since(start)) });
    notifier.notify(first)?;
    let ghost mut new: Seq<EventView> = seq![first@];
    let mut rest = cases;
    let mut kept: Vec<C> = Vec::new();
    let mut keys: Vec<(usize, Vec<char>)> = Vec::new();
    proof {
        assert(all.take(0) =~= Seq::empty());
        assert(all.skip(0) =~= all);
        assert(Seq::<C>::empty().filter(pred) =~= Seq::empty()) by {
            reveal(Seq::filter);
        }
        assert(timeless_log(new) =~= seq![EventView::DiscoverStart { elapsed: None }]
            + Seq::new(0, |k: int| discover_case_event(names(all), opts@, k)));
    }
    while rest.len() > 0
        invariant
            rest.len() <= all.len(),
            rest@ == all.skip(all.len() - rest.len()),
            pred == (|c: C| selected(c.spec_name(), opts@)),
            notifier.reliable() == old(notifier).reliable(),
            notifier.refused() == old(notifier).refused(),
            notifier.hints() == old(notifier).hints(),
            notifier.log() == before + new,
            timeless_log(new) == seq![EventView::DiscoverStart { elapsed: None }] + Seq::new(
                (all.len() - rest.len()) as nat,
                |k: int| discover_case_event(names(all), opts@, k),
            ),
            kept@.to_multiset() == all.take(all.len() - rest.len()).filter(pred).to_multiset(),
            keys.len() == kept.len(),
            forall|k: int|
                0 <= k < kept.len() ==> (#[trigger] keys[k].0 as nat, keys[k].1@) == run_key(
                    kept[k],
                    opts@,
                ),
            in_run_order(kept@, opts@),
            forall|k: int| 0 <= k < kept.len() ==> all.contains(#[trigger] kept[k]),
        decreases rest.len(),
    {
        let ghost i = all.len() - rest.len();
        let case = rest.remove(0);
        proof {
            assert(case == all[i]);
            assert(rest@ =~= all.skip(i + 1));
        }
        let name = to_chars(case.name());
        let found = priority_of(&name, opts);
        let chosen = found.is_some();
        proof {
            crate::select::lemma_selected_iff_ranked(case.spec_name(), opts@);
        }
        let event = Event::DiscoverCase(
            DiscoverCase {
                name: case.name().to_owned(),
                mode: RunMode::Test,
                selected: chosen,
                elapsed_s: Some(since(start)),
            },
        );
        proof {
            assert(event@.timeless() == discover_case_event(names(all), opts@, i));
            let shown = Seq::new(i as nat, |k: int| discover_case_event(names(all), opts@, k));
            let shown_next = Seq::new(
                (i + 1) as nat,
                |k: int| discover_case_event(names(all), opts@, k),
            );
            assert(shown_next =~= shown.push(event@.timeless()));
            assert(timeless_log(new.push(event@)) =~= timeless_log(new).push(event@.timeless()));
            assert(timeless_log(new.push(event@)) =~= seq![
                EventView::DiscoverStart { elapsed: None },
            ] + shown_next);
        }
        notifier.notify(event)?;
        proof {
            assert(before + new.push(event@) =~= (before + new).push(event@));
            new = new.push(event@);
            assert(all.take(i + 1) =~= all.take(i) + seq![case]);
            Seq::filter_distributes_over_add(all.take(i), seq![case], pred);
            assert(seq![case].filter(pred) =~= if pred(case) {
                seq![case]
            } else {
                Seq::empty()
            }) by {
                reveal_with_fuel(Seq::filter, 2);
                assert(seq![case].drop_last() =~= Seq::<C>::empty());
            }
        }
        match found {
            Some(rank) => {
                proof {
                    assert(all.take(i + 1).filter(pred) =~= all.take(i).filter(pred).push(case));
                    all.take(i).filter(pred).to_multiset_ensures();
                }
                insert_in_run_order(&mut kept, &mut keys, case, (rank, name), Ghost(opts@));
            },
            None => {
                proof {
                    assert(all.take(i + 1).filter(pred) =~= all.take(i).filter(pred));
                }
            },
        }
    }
    let last = Event::DiscoverComplete(DiscoverComplete { elapsed_s: Some(since(start)) });
    notifier.notify(last)?;
    proof {
        let after = notifier.log();
        assert(all.take(all.len() as int) =~= all);
        assert(after =~= before + new.push(last@));
        assert(after.take(before.len() as int) =~= before);
        assert(added(before, after) =~= new.push(last@));
        assert(timeless_log(new.push(last@)) =~= timeless_log(new).push(last@.timeless()));
        assert(Seq::new(all.len(), |k: int| discover_case_event(names(all), opts@, k))
            =~= Seq::new(
            names(all).len(),
            |i: int|
                EventView::DiscoverCase {
                    name: names(all)[i],
                    mode: RunMode::Test,
                    selected: selected(names(all)[i], opts@),
                    elapsed: None,
                },
        ));
        assert(timeless_log(added(before, after)) =~= discover_events(names(all), opts@));
    }
    Ok(kept)
}

/// What an argument is to the loop that parses the command line.
#[derive(Copy, Clone, Debug, PartialEq, Eq, Structural)]
pub enum Role {
    /// `-h` or `--help`: the user asks for the usage.
    Help,
    /// The mark `--`.
    Escape,
    /// Something that does not work where it stands.
    Unexpected,
    /// An argument for the options.
    Plain,
}

/// The role of `arg`.
pub open spec fn role_of(arg: ArgView) -> Role {
    match arg {
        ArgView::Short(name) => if name == "h"@ {
            Role::Help
        } else {
            Role::Plain
        },
        ArgView::Long(name) => if name == "help"@ {
            Role::Help
        } else {
            Role::Plain
        },
        ArgView::Escape(_) => Role::Escape,
        ArgView::Unexpected(_) => Role::Unexpected,
        ArgView::Value(_) => Role::Plain,
    }
}

/// The role of `arg`.
pub fn role(arg: &Arg) -> (role: Role)
    ensures
        role == role_of(arg@),
{
    match arg {
        Arg::Short(name) => if *name == "h".to_owned() {
            Role::Help
        } else {
            Role::Plain
        },
        Arg::Long(name) => if *name == "help".to_owned() {
            Role::Help
        } else {
            Role::Plain
        },
        Arg::Escape(_) => Role::Escape,
        Arg::Unexpected(_) => Role::Unexpected,
        Arg::Value(_) => Role::Plain,
    }
}

/// Why parsing the command line gave no options.
#[derive(Debug)]
pub enum ParseStop {
    /// The user asks for the usage of the program named here.
    Help(String),
    /// The command line is not valid.
    Invalid(LexError),
}

/// What the platform offers for running cases in parallel.
#[derive(Copy, Clone, Debug, PartialEq, Eq, Structural)]
pub enum Parallelism {
    /// The platform has no threads: cases run one at a time, whatever the command line
    /// says.
    Unsupported,
    /// The platform has threads; where it tells how many run at once, the number is here.
    Available(Option<usize>),
}

/// The number of threads of a run: without threads none is set; else the number that the
/// command line gives, and failing that the number that the platform offers.
pub open spec fn resolved_threads(asked: Option<usize>, offered: Parallelism) -> Option<usize> {
    match offered {
        Parallelism::Unsupported => None,
        Parallelism::Available(available) => match asked {
            Some(threads) => Some(threads),
            None => match available {
                Some(0) => None,
                other => other,
            },
        },
    }
}

/// Gives the options their number of threads.
pub fn resolve_threads(opts: &mut TestOpts, offered: Parallelism)
    ensures
        final(opts)@ == (TestOptsView {
            test_threads: resolved_threads(old(opts).test_threads, offered),
            ..old(opts)@
        }),
{
    opts.test_threads = match offered {
        Parallelism::Unsupported => None,
        Parallelism::Available(available) => match opts.test_threads {
            Some(threads) => Some(threads),
            None => match available {
                Some(0) => None,
                other => other,
            },
        },
    };
}

/// One turn of the parsing: the argument that the lexer gave, and the value that it gave
/// for the argument, where the argument takes one and the command line has one.
pub struct Turn {
    pub arg: ArgView,
    pub value: Option<Seq<char>>,
}

/// Why parsing the command line gave no options, as plain values.
pub enum StopView {
    Help(Seq<char>),
    Invalid(crate::cli::LexErrorView),
}

/// The state of the parsing: the options so far, and the argument that was read last.
pub struct ParsingView {
    pub builder: crate::opts::BuilderView,
    pub prev: ArgView,
}

/// The parsing after one more turn. `bin` is the name of the program.
pub open spec fn after_turn(state: ParsingView, turn: Turn, bin: Seq<char>) -> Result<
    ParsingView,
    StopView,
> {
    match role_of(turn.arg) {
        Role::Help => Err(StopView::Help(bin)),
        Role::Escape => Ok(ParsingView { prev: turn.arg, ..state }),
        Role::Unexpected => Err(
            StopView::Invalid(
                crate::cli::LexErrorView {
                    msg: "unexpected value"@,
                    within: Some(state.prev),
                    unexpected: Some(turn.arg),
                },
            ),
        ),
        Role::Plain => match crate::opts::take_result(state.builder, turn.arg, turn.value) {
            Ok(None) => Ok(
                ParsingView {
                    builder: crate::opts::take_state(state.builder, turn.arg, turn.value),
                    prev: turn.arg,
                },
            ),
            Ok(Some(arg)) => Err(
                StopView::Invalid(
                    crate::cli::LexErrorView {
                        msg: "unexpected argument"@,
                        within: None,
                        unexpected: Some(arg),
                    },
                ),
            ),
            Err(error) => Err(StopView::Invalid(error)),
        },
    }
}

/// The parsing after `turns`, in order; the first turn that stops the parsing ends it.
pub open spec fn after_turns(state: ParsingView, turns: Seq<Turn>, bin: Seq<char>) -> Result<
    ParsingView,
    StopView,
>
    decreases turns.len(),
{
    if turns.len() == 0 {
        Ok(state)
    } else {
        match after_turns(state, turns.drop_last(), bin) {
            Ok(before) => after_turn(before, turns.last(), bin),
            Err(stop) => Err(stop),
        }
    }
}

/// The state of the options before the first argument.
pub open spec fn first_builder(nightly: bool) -> crate::opts::BuilderView {
    crate::opts::BuilderView {
        opts: crate::opts::default_opts(),
        quiet: false,
        format: None,
        include_ignored: false,
        ignored: false,
        nightly,
    }
}

/// What the command line gives, where the lexer names the program `bin` and then gives
/// `turns`: the options, with their number of threads resolved, or why there are none.
pub open spec fn parsed(bin: Seq<char>, turns: Seq<Turn>, offered: Parallelism, nightly: bool) -> Result<
    TestOptsView,
    StopView,
> {
    match after_turns(
        ParsingView { builder: first_builder(nightly), prev: ArgView::Value(bin) },
        turns,
        bin,
    ) {
        Err(stop) => Err(stop),
        Ok(state) => match crate::opts::finished(state.builder) {
            Err(error) => Err(StopView::Invalid(error)),
            Ok(opts) => Ok(
                TestOptsView {
                    test_threads: resolved_threads(opts.test_threads, offered),
                    ..opts
                },
            ),
        },
    }
}

/// The name of the program on the command line `raw`: its first item, and `test` where
/// the command line is empty.
pub open spec fn program_name(raw: Seq<String>) -> Seq<char> {
    if raw.len() > 0 {
        raw[0]@
    } else {
        "test"@
    }
}

/// The result of parsing, as plain values.
pub open spec fn parse_view(r: Result<TestOpts, ParseStop>) -> Result<TestOptsView, StopView> {
    match r {
        Ok(opts) => Ok(opts@),
        Err(ParseStop::Help(bin)) => Err(StopView::Help(bin@)),
        Err(ParseStop::Invalid(error)) => Err(StopView::Invalid(error@)),
    }
}

/// The parser behind a turn of the parsing: behind the argument, and behind its value
/// where the options read one.
pub open spec fn lexer_behind(parser: lexarg_parser::Parser<'_>, turn: Turn) -> lexarg_parser::Parser<'static> {
    let behind = crate::cli::arg_turn(parser).1;
    match role_of(turn.arg) {
        Role::Plain => crate::opts::parser_behind(behind, turn.arg),
        _ => behind,
    }
}

/// The parser behind `turns`, in order.
pub open spec fn lexer_after(parser: lexarg_parser::Parser<'_>, turns: Seq<Turn>) -> lexarg_parser::Parser<'static>
    decreases turns.len(),
{
    if turns.len() == 0 {
        parser
    } else {
        lexer_behind(lexer_after(parser, turns.drop_last()), turns.last())
    }
}

/// Whether `turn` is the turn that the parser gives: its argument is the next argument
/// of the parser, and its value is the one that the options read for that argument.
pub open spec fn turn_given(parser: lexarg_parser::Parser<'_>, turn: Turn) -> bool {
    &&& crate::cli::arg_turn(parser).0 == Some(turn.arg)
    &&& turn.value == (match role_of(turn.arg) {
        Role::Plain => crate::opts::value_read(crate::cli::arg_turn(parser).1, turn.arg),
        _ => None,
    })
}

/// Whether `turns` are the turns that the parser gives from `parser` on, one after the
/// other.
pub open spec fn lexed(parser: lexarg_parser::Parser<'_>, turns: Seq<Turn>) -> bool {
    forall|i: int|
        0 <= i < turns.len() ==> turn_given(lexer_after(parser, turns.take(i)), #[trigger] turns[i])
}

/// Whether `turns` are the turns of the command line `raw`: those that the parser gives
/// behind the name of the program, up to the turn that stops the parsing, or up to the
/// end of the command line where no turn does.
pub open spec fn turns_of(raw: Seq<String>, turns: Seq<Turn>, nightly: bool) -> bool {
    let start = crate::cli::raw_turn(
        crate::cli::lexer_at_start(raw.map_values(|item: String| item@)),
    ).1;
    let bin = program_name(raw);
    &&& lexed(start, turns)
    &&& values_where_wanted(turns)
    &&& (after_turns(
        ParsingView { builder: first_builder(nightly), prev: ArgView::Value(bin) },
        turns,
        bin,
    ) is Err || crate::cli::arg_turn(lexer_after(start, turns)).0 is None)
}

/// Whether every turn has a value only where its argument takes one.
pub open spec fn values_where_wanted(turns: Seq<Turn>) -> bool {
    forall|i: int|
        0 <= i < turns.len() && !crate::opts::wants_value(
            crate::opts::opt_of((#[trigger] turns[i]).arg),
        ) ==> turns[i].value is None
}

/// The parser gives its turns in one way: two runs of turns from the same parser agree
/// as far as both go.
pub proof fn lemma_same_turns(
    start: lexarg_parser::Parser<'_>,
    first: Seq<Turn>,
    second: Seq<Turn>,
    n: int,
)
    requires
        lexed(start, first),
        lexed(start, second),
        0 <= n <= first.len(),
        n <= second.len(),
    ensures
        first.take(n) == second.take(n),
    decreases n,
{
    if n == 0 {
        assert(first.take(0) =~= second.take(0));
    } else {
        lemma_same_turns(start, first, second, n - 1);
        let at = lexer_after(start, first.take(n - 1));
        assert(turn_given(at, first[n - 1]));
        assert(turn_given(at, second[n - 1]));
        assert(first[n - 1].arg == second[n - 1].arg);
        assert(first[n - 1] == second[n - 1]);
        assert(first.take(n) =~= first.take(n - 1).push(first[n - 1]));
        assert(second.take(n) =~= second.take(n - 1).push(second[n - 1]));
    }
}

/// Once a turn has stopped the parsing, the turns behind it change nothing.
pub proof fn lemma_stop_stays(state: ParsingView, turns: Seq<Turn>, n: int, bin: Seq<char>)
    requires
        0 <= n <= turns.len(),
        after_turns(state, turns.take(n), bin) is Err,
    ensures
        after_turns(state, turns, bin) == after_turns(state, turns.take(n), bin),
    decreases turns.len() - n,
{
    if n == turns.len() {
        assert(turns.take(n) =~= turns);
    } else {
        assert(turns.drop_last().take(n) =~= turns.take(n));
        lemma_stop_stays(state, turns.drop_last(), n, bin);
    }
}

/// What a command line gives is determined by the command line: whatever turns are
/// taken for the turns of the command line, the result of the parsing is the same.
pub proof fn lemma_turns_determine_the_result(
    raw: Seq<String>,
    first: Seq<Turn>,
    second: Seq<Turn>,
    offered: Parallelism,
    nightly: bool,
)
    requires
        turns_of(raw, first, nightly),
        turns_of(raw, second, nightly),
    ensures
        parsed(program_name(raw), first, offered, nightly) == parsed(
            program_name(raw),
            second,
            offered,
            nightly,
        ),
    decreases
            if first.len() <= second.len() {
                0int
            } else {
                1int
            },
{
    let start = crate::cli::raw_turn(
        crate::cli::lexer_at_start(raw.map_values(|item: String| item@)),
    ).1;
    let bin = program_name(raw);
    let state = ParsingView { builder: first_builder(nightly), prev: ArgView::Value(bin) };
    if first.len() <= second.len() {
        let n = first.len() as int;
        lemma_same_turns(start, first, second, n);
        assert(first.take(n) =~= first);
        if n == second.len() {
            assert(second.take(n) =~= second);
        } else {
            assert(turn_given(lexer_after(start, second.take(n)), second[n]));
            assert(after_turns(state, first, bin) is Err);
            lemma_stop_stays(state, second, n, bin);
        }
    } else {
        lemma_turns_determine_the_result(raw, second, first, offered, nightly);
    }
}

/// One more turn that the parser gives is one more of its turns.
proof fn lemma_turn_added(start: lexarg_parser::Parser<'_>, earlier: Seq<Turn>, turn: Turn)
    requires
        lexed(start, earlier),
        values_where_wanted(earlier),
        turn_given(lexer_after(start, earlier), turn),
    ensures
        lexed(start, earlier.push(turn)),
        values_where_wanted(earlier.push(turn)),
        lexer_after(start, earlier.push(turn)) == lexer_behind(lexer_after(start, earlier), turn),
        earlier.push(turn).drop_last() == earlier,
{
    let turns = earlier.push(turn);
    assert(turns.drop_last() =~= earlier);
    assert forall|i: int| 0 <= i < turns.len() implies turn_given(
        lexer_after(start, turns.take(i)),
        #[trigger] turns[i],
    ) by {
        if i < earlier.len() {
            assert(turns.take(i) =~= earlier.take(i));
            assert(turns[i] == earlier[i]);
        } else {
            assert(turns.take(i) =~= earlier);
        }
    }
    assert forall|i: int|
        0 <= i < turns.len() && !crate::opts::wants_value(
            crate::opts::opt_of((#[trigger] turns[i]).arg),
        ) implies turns[i].value is None by {
        if i < earlier.len() {
            assert(turns[i] == earlier[i]);
        }
    }
}

/// Parses the command line `raw`, whose first item is the name of the program. Every
/// argument but `-h`, `--help` and the mark `--` goes to the options; one that they do
/// not know is an error. `nightly` tells whether unstable features are allowed. The
/// result is what the turns of the command line give.
pub fn parse_args(raw: &Vec<String>, offered: Parallelism, nightly: bool) -> (r: Result<
    TestOpts,
    ParseStop,
>)
    ensures
        exists|turns: Seq<Turn>|
            turns_of(raw@, turns, nightly) && parse_view(r) == #[trigger] parsed(
                program_name(raw@),
                turns,
                offered,
                nightly,
            ),
        r matches Ok(opts) ==> (opts.run_tests || opts.bench_benchmarks),
{
    let mut parser = new_parser(raw);
    let mut test_opts = TestOptsBuilder::new().nightly(nightly);
    // The first item is the name of the program; the lexer steps over it.
    let _ = next_raw(&mut parser);
    let ghost start = parser;
    let bin = if raw.len() > 0 {
        raw[0].clone()
    } else {
        "test".to_owned()
    };
    let mut prev_arg = Arg::Value(bin.clone());
    let ghost first = ParsingView { builder: first_builder(nightly), prev: ArgView::Value(bin@) };
    let ghost mut turns: Seq<Turn> = Seq::empty();
    loop
        invariant_except_break
            parser == lexer_after(start, turns),
        invariant
            bin@ == program_name(raw@),
            start == crate::cli::raw_turn(
                crate::cli::lexer_at_start(raw@.map_values(|item: String| item@)),
            ).1,
            first == (ParsingView { builder: first_builder(nightly), prev: ArgView::Value(bin@) }),
            values_where_wanted(turns),
            lexed(start, turns),
            after_turns(first, turns, bin@) == Ok::<ParsingView, StopView>(
                ParsingView { builder: test_opts@, prev: prev_arg@ },
            ),
        ensures
            values_where_wanted(turns),
            lexed(start, turns),
            crate::cli::arg_turn(lexer_after(start, turns)).0 is None,
            after_turns(first, turns, bin@) == Ok::<ParsingView, StopView>(
                ParsingView { builder: test_opts@, prev: prev_arg@ },
            ),
        decreases pending(parser),
    {
        let ghost here = parser;
        let arg = match next_arg(&mut parser) {
            Some(arg) => arg,
            None => {
                break ;
            },
        };
        let ghost before = ParsingView { builder: test_opts@, prev: prev_arg@ };
        let ghost earlier = turns;
        match role(&arg) {
            Role::Help => {
                proof {
                    let turn = Turn { arg: arg@, value: None };
                    lemma_turn_added(start, earlier, turn);
                    turns = earlier.push(turn);
                    assert(parsed(program_name(raw@), turns, offered, nightly) == Err::<TestOptsView, StopView>(
                        StopView::Help(bin@),
                    ));
                    assert(turns_of(raw@, turns, nightly));
                }
                return Err(ParseStop::Help(bin));
            },
            Role::Escape => {
                prev_arg = arg;
                proof {
                    let turn = Turn { arg: arg@, value: None };
                    lemma_turn_added(start, earlier, turn);
                    turns = earlier.push(turn);
                }
            },
            Role::Unexpected => {
                let error = LexError::msg("unexpected value").unexpected(arg).within(prev_arg);
                proof {
                    let turn = Turn { arg: arg@, value: None };
                    lemma_turn_added(start, earlier, turn);
                    turns = earlier.push(turn);
                    assert(parsed(program_name(raw@), turns, offered, nightly) == Err::<TestOptsView, StopView>(
                        StopView::Invalid(error@),
                    ));
                    assert(turns_of(raw@, turns, nightly));
                }
                return Err(ParseStop::Invalid(error));
            },
            Role::Plain => {
                prev_arg = arg.copy();
                let ghost given = arg@;
                let ghost behind = parser;
                let taken = test_opts.parse_next(&mut parser, arg);
                proof {
                    let turn = Turn { arg: given, value: crate::opts::value_read(behind, given) };
                    lemma_turn_added(start, earlier, turn);
                    turns = earlier.push(turn);
                }
                match taken {
                    Ok(None) => {},
                    Ok(Some(arg)) => {
                        let error = LexError::msg("unexpected argument").unexpected(arg);
                        proof {
                            assert(parsed(program_name(raw@), turns, offered, nightly) == Err::<
                                TestOptsView,
                                StopView,
                            >(StopView::Invalid(error@)));
                            assert(turns_of(raw@, turns, nightly));
                        }
                        return Err(ParseStop::Invalid(error));
                    },
                    Err(error) => {
                        proof {
                            assert(parsed(program_name(raw@), turns, offered, nightly) == Err::<
                                TestOptsView,
                                StopView,
                            >(StopView::Invalid(error@)));
                            assert(turns_of(raw@, turns, nightly));
                        }
                        return Err(ParseStop::Invalid(error));
                    },
                }
            },
        }
    }
    proof {
        assert(turns_of(raw@, turns, nightly));
    }
    let mut opts = match test_opts.finish() {
        Ok(opts) => opts,
        Err(error) => {
            proof {
                assert(parsed(program_name(raw@), turns, offered, nightly) == Err::<TestOptsView, StopView>(
                    StopView::Invalid(error@),
                ));
            }
            return Err(ParseStop::Invalid(error));
        },
    };
    resolve_threads(&mut opts, offered);
    proof {
        assert(parsed(program_name(raw@), turns, offered, nightly) == Ok::<TestOptsView, StopView>(opts@));
    }
    Ok(opts)
}

/// A stage of the harness.
pub trait HarnessState {
}

/// The harness at one of its stages. The stages follow each other: arguments, options,
/// discovery, run.
pub struct Harness<State: HarnessState> {
    state: State,
}

/// The stage before the arguments are known.
pub struct StateInitial {
    start: std::time::Instant,
}

impl HarnessState for StateInitial {
}

/// The stage at which the arguments are known.
pub struct StateArgs {
    start: std::time::Instant,
    raw: Vec<String>,
    nightly: bool,
}

impl HarnessState for StateArgs {
}

/// The stage at which the options are known and the reporter is chosen.
pub struct StateParsed<W: Sink> {
    start: std::time::Instant,
    opts: TestOpts,
    notifier: AnyNotifier<W>,
}

impl<W: Sink> HarnessState for StateParsed<W> {
}

/// The stage at which the cases are selected.
pub struct StateDiscovered<C: Case, W: Sink> {
    start: std::time::Instant,
    opts: TestOpts,
    notifier: AnyNotifier<W>,
    cases: Vec<C>,
}

impl<C: Case, W: Sink> HarnessState for StateDiscovered<C, W> {
}

impl Harness<StateInitial> {
    /// A harness whose run starts now.
    pub fn new() -> (harness: Self) {
        Harness { state: StateInitial { start: now() } }
    }

    /// The harness with the command line `args`, whose first item is the name of the
    /// program.
    pub fn with_args(self, args: Vec<String>) -> (harness: Harness<StateArgs>)
        ensures
            harness.raw() == args@,
            harness.allows_unstable(),
    {
        Harness { state: StateArgs { start: self.state.start, raw: args, nightly: true } }
    }
}

impl Default for Harness<StateInitial> {
    fn default() -> Self {
        Self::new()
    }
}

impl Harness<StateArgs> {
    /// The command line.
    pub closed spec fn raw(&self) -> Seq<String> {
        self.state.raw@
    }

    /// Whether unstable features are allowed.
    pub closed spec fn allows_unstable(&self) -> bool {
        self.state.nightly
    }

    /// Tells the harness whether the compiler at hand allows unstable features; it does
    /// unless the harness is told otherwise.
    pub fn nightly(self, yes: bool) -> (harness: Self)
        ensures
            harness.raw() == self.raw(),
            harness.allows_unstable() == yes,
    {
        Harness { state: StateArgs { start: self.state.start, raw: self.state.raw, nightly: yes } }
    }

    /// Parses the command line and chooses the reporter, which writes to `writer`.
    pub fn parse<W: Sink>(&self, writer: W, offered: Parallelism) -> (r: Result<
        Harness<StateParsed<W>>,
        ParseStop,
    >)
        ensures
            r matches Ok(harness) ==> harness.notifier().reporter() == reporter_for(harness.opts())
                && harness.notifier().starts_for(harness.opts()) && harness.notifier().sink()
                == writer && harness.notifier().log() == Seq::<
                EventView,
            >::empty() && (harness.opts().run_tests || harness.opts().bench_benchmarks),
            exists|turns: Seq<Turn>|
                turns_of(self.raw(), turns, self.allows_unstable()) && (match r {
                    Ok(harness) => Ok(harness.opts()),
                    Err(ParseStop::Help(bin)) => Err(StopView::Help(bin@)),
                    Err(ParseStop::Invalid(error)) => Err(StopView::Invalid(error@)),
                }) == #[trigger] parsed(
                    program_name(self.raw()),
                    turns,
                    offered,
                    self.allows_unstable(),
                ),
    {
        let parsed_opts = parse_args(&self.state.raw, offered, self.state.nightly);
        let ghost turns = choose|turns: Seq<Turn>|
            turns_of(self.state.raw@, turns, self.state.nightly) && parse_view(parsed_opts)
                == #[trigger] parsed(
                program_name(self.state.raw@),
                turns,
                offered,
                self.state.nightly,
            );
        let opts = match parsed_opts {
            Ok(opts) => opts,
            Err(stop) => {
                return Err(stop);
            },
        };
        let chosen = notifier(&opts, writer);
        let harness = Harness {
            state: StateParsed { start: self.state.start, opts, notifier: chosen },
        };
        proof {
            assert(Ok::<TestOptsView, StopView>(harness.opts()) == parsed(
                program_name(self.raw()),
                turns,
                offered,
                self.allows_unstable(),
            ));
        }
        Ok(harness)
    }
}

impl<W: Sink> Harness<StateParsed<W>> {
    /// The options.
    pub closed spec fn opts(&self) -> TestOptsView {
        self.state.opts@
    }

    /// The reporter.
    pub closed spec fn notifier(&self) -> AnyNotifier<W> {
        self.state.notifier
    }

    /// The options.
    pub fn options(&self) -> (opts: &TestOpts)
        ensures
            opts@ == self.opts(),
    {
        &self.state.opts
    }

    /// A harness with the options `opts`, whose reporter writes to `writer` and whose run
    /// starts now.
    pub fn with_opts(opts: TestOpts, writer: W) -> (harness: Self)
        ensures
            harness.opts() == opts@,
            harness.notifier().reporter() == reporter_for(opts@),
            harness.notifier().sink() == writer,
            harness.notifier().log() == Seq::<EventView>::empty(),
    {
        let chosen = notifier(&opts, writer);
        Harness { state: StateParsed { start: now(), opts, notifier: chosen } }
    }

    /// Tells the reporter of every case, and keeps the selected cases in the order in
    /// which they run.
    pub fn discover<C: Case>(self, cases: Vec<C>) -> (r: Result<
        Harness<StateDiscovered<C, W>>,
        WriteError,
    >)
        ensures
            self.notifier().reliable() ==> r is Ok,
            r matches Ok(harness) ==> {
                &&& harness.opts() == self.opts()
                &&& harness.notifier().reliable() == self.notifier().reliable()
                &&& harness.notifier().refused() == self.notifier().refused()
                &&& harness.notifier().hints() == self.notifier().hints()
                &&& extends(self.notifier().log(), harness.notifier().log())
                &&& timeless_log(added(self.notifier().log(), harness.notifier().log()))
                    == discover_events(names(cases@), self.opts())
                &&& harness.cases().to_multiset() == selection(cases@, self.opts()).to_multiset()
                &&& in_run_order(harness.cases(), self.opts())
                &&& forall|k: int|
                    0 <= k < harness.cases().len() ==> cases@.contains(#[trigger] harness.cases()[k])
            },
    {
        let StateParsed { start, opts, notifier } = self.state;
        let mut notifier = notifier;
        let kept = match discover_cases(&start, &opts, cases, &mut notifier) {
            Ok(kept) => kept,
            Err(error) => {
                return Err(error);
            },
        };
        Ok(Harness { state: StateDiscovered { start, opts, notifier, cases: kept } })
    }
}

impl<C: Case, W: Sink> Harness<StateDiscovered<C, W>> {
    /// The options.
    pub closed spec fn opts(&self) -> TestOptsView {
        self.state.opts@
    }

    /// The reporter.
    pub closed spec fn notifier(&self) -> AnyNotifier<W> {
        self.state.notifier
    }

    /// The selected cases, in the order in which they run.
    pub closed spec fn cases(&self) -> Seq<C> {
        self.state.cases@
    }

    /// The options.
    pub fn options(&self) -> (opts: &TestOpts)
        ensures
            opts@ == self.opts(),
    {
        &self.state.opts
    }

    /// Takes the harness apart: the start of the run, the options, the reporter, and the
    /// selected cases in the order in which they run.
    pub fn into_parts(self) -> (parts: (std::time::Instant, TestOpts, AnyNotifier<W>, Vec<C>))
        ensures
            parts.1@ == self.opts(),
            parts.2 == self.notifier(),
            parts.3@ == self.cases(),
    {
        let StateDiscovered { start, opts, notifier, cases } = self.state;
        (start, opts, notifier, cases)
    }

    /// Runs the selected cases, unless the options only list them, and returns whether
    /// the run was a success. Every case is handed `value` in its context. The reporter
    /// is returned with all that it has taken.
    pub fn run_with_value(self, value: C::Input) -> (r: (Result<bool, HarnessError>, AnyNotifier<W>))
        requires
            self.opts().run_tests || self.opts().bench_benchmarks,
            forall|k: int| 0 <= k < self.cases().len() ==> (#[trigger] self.cases()[k]).runnable(),
        ensures
            self.opts().list ==> r.0 == Ok::<bool, HarnessError>(true) && r.1 == self.notifier(),
            !self.opts().list ==> {
                &&& r.0 matches Err(HarnessError::Write(_)) ==> !self.notifier().reliable()
                &&& r.1.refused() == self.notifier().refused() + if r.0 matches Err(
                    HarnessError::Write(_),
                ) {
                    1nat
                } else {
                    0nat
                }
                &&& r.0 matches Err(HarnessError::Refused(why)) ==> crate::run::refusal(self.opts())
                    == Some(why)
                &&& r.0 is Ok ==> crate::run::refusal(self.opts()) is None
                &&& r.0 matches Ok(success) ==> extends(self.notifier().log(), r.1.log()) && exists|
                    flags: Seq<bool>,
                    apart: Seq<crate::run::Outcome>,
                    alone: Seq<crate::run::Outcome>,
                    context: crate::context::TestContext<C::Input>,
                |
                    {
                        &&& flags.len() == self.cases().len()
                        &&& apart.len() == crate::schedule::concurrent_lane(
                            flags,
                            crate::run::thread_count(self.opts()),
                        ).len()
                        &&& alone.len() == crate::schedule::exclusive_lane(
                            flags,
                            crate::run::thread_count(self.opts()),
                        ).len()
                        &&& (timeless_log(added(self.notifier().log(), r.1.log())), success)
                            == crate::run::whole_run(self.cases(), self.opts(), flags, apart, alone)
                        &&& crate::run::genuine_run(
                            self.cases(),
                            self.opts(),
                            flags,
                            apart,
                            alone,
                            context,
                        )
                        &&& r.1.hints() == self.notifier().hints() + crate::run::run_hints(
                            self.notifier().log().len() + 1,
                            crate::run::serial_lane(
                                crate::run::names_at(
                                    self.cases(),
                                    crate::schedule::concurrent_lane(
                                        flags,
                                        crate::run::thread_count(self.opts()),
                                    ),
                                ),
                                apart,
                                self.opts().fail_fast,
                                true,
                            ).0.len(),
                            crate::schedule::concurrent_lane(
                                flags,
                                crate::run::thread_count(self.opts()),
                            ).len(),
                            crate::schedule::exclusive_lane(
                                flags,
                                crate::run::thread_count(self.opts()),
                            ).len(),
                        )
                        &&& context.value_of() == value
                    }
            },
    {
        let StateDiscovered { start, opts, notifier, cases } = self.state;
        let mut notifier = notifier;
        proof {
            assert(cases@ == self.cases());
            assert(opts@ == self.opts());
            assert(notifier == self.notifier());
            assert forall|k: int| 0 <= k < cases.len() implies (#[trigger] cases[k]).runnable() by {
                assert(self.cases()[k].runnable());
            }
        }
        if opts.list {
            (Ok(true), notifier)
        } else {
            let r = run_with_value(&start, &opts, cases, &mut notifier, value);
            (r, notifier)
        }
    }
}

impl<C: Case<Input = ()>, W: Sink> Harness<StateDiscovered<C, W>> {
    /// Runs the selected cases, which take no value, unless the options only list them,
    /// and returns whether the run was a success. The reporter is returned with all that
    /// it has taken.
    pub fn run(self) -> (r: (Result<bool, HarnessError>, AnyNotifier<W>))
        requires
            self.opts().run_tests || self.opts().bench_benchmarks,
            forall|k: int| 0 <= k < self.cases().len() ==> (#[trigger] self.cases()[k]).runnable(),
        ensures
            self.opts().list ==> r.0 == Ok::<bool, HarnessError>(true) && r.1 == self.notifier(),
            !self.opts().list ==> {
                &&& r.0 matches Err(HarnessError::Write(_)) ==> !self.notifier().reliable()
                &&& r.1.refused() == self.notifier().refused() + if r.0 matches Err(
                    HarnessError::Write(_),
                ) {
                    1nat
                } else {
                    0nat
                }
                &&& r.0 matches Err(HarnessError::Refused(why)) ==> crate::run::refusal(self.opts())
                    == Some(why)
                &&& r.0 is Ok ==> crate::run::refusal(self.opts()) is None
                &&& r.0 matches Ok(success) ==> extends(self.notifier().log(), r.1.log()) && exists|
                    flags: Seq<bool>,
                    apart: Seq<crate::run::Outcome>,
                    alone: Seq<crate::run::Outcome>,
                    context: crate::context::TestContext,
                |
                    {
                        &&& flags.len() == self.cases().len()
                        &&& apart.len() == crate::schedule::concurrent_lane(
                            flags,
                            crate::run::thread_count(self.opts()),
                        ).len()
                        &&& alone.len() == crate::schedule::exclusive_lane(
                            flags,
                            crate::run::thread_count(self.opts()),
                        ).len()
                        &&& (timeless_log(added(self.notifier().log(), r.1.log())), success)
                            == crate::run::whole_run(self.cases(), self.opts(), flags, apart, alone)
                        &&& crate::run::genuine_run(
                            self.cases(),
                            self.opts(),
                            flags,
                            apart,
                            alone,
                            context,
                        )
                        &&& r.1.hints() == self.notifier().hints() + crate::run::run_hints(
                            self.notifier().log().len() + 1,
                            crate::run::serial_lane(
                                crate::run::names_at(
                                    self.cases(),
                                    crate::schedule::concurrent_lane(
                                        flags,
                                        crate::run::thread_count(self.opts()),
                                    ),
                                ),
                                apart,
                                self.opts().fail_fast,
                                true,
                            ).0.len(),
                            crate::schedule::concurrent_lane(
                                flags,
                                crate::run::thread_count(self.opts()),
                            ).len(),
                            crate::schedule::exclusive_lane(
                                flags,
                                crate::run::thread_count(self.opts()),
                            ).len(),
                        )
                    }
            },
    {
        self.run_with_value(())
    }
}

} // verus!
