//! A harness in the manner of a library: trials are made of a name and a closure, and the
//! harness runs them.

use vstd::prelude::*;
use vstd::string::to_string_from_display_ensures;
use crate::case::Case;
use crate::case::Source;
use crate::case::TestKind;
use crate::context::TestContext;
use crate::event::MessageKind;
use crate::harness::Parallelism;
use crate::harness::ParseStop;
use crate::harness::StopView;
use crate::harness::Turn;
use crate::harness::parsed;
use crate::harness::program_name;
use crate::harness::turns_of;
use crate::notify::Notifier;
use crate::notify::Sink;
use crate::opts::TestOptsView;
use crate::run::HarnessError;

verus! {

/// What running a trial gives.
pub type RunResult = Result<(), RunError>;

/// Why a trial did not pass.
#[derive(Debug)]
pub struct RunError {
    inner: crate::error::RunError,
}

impl RunError {
    /// The error as the harness takes it.
    pub closed spec fn inner(&self) -> crate::error::RunError {
        self.inner
    }

    /// A failure caused by `cause`; its message is what `cause` displays.
    pub fn with_cause<E: core::fmt::Display>(cause: E) -> (error: Self)
        ensures
            error.inner().kind() == MessageKind::Error,
            error.inner().cause_text() matches Some(text) && to_string_from_display_ensures::<E>(
                &cause,
                text,
            ),
    {
        RunError { inner: crate::error::RunError::with_cause(cause) }
    }

    /// A failure with a message; the message is what `cause` displays.
    pub fn fail<D: core::fmt::Display>(cause: D) -> (error: Self)
        ensures
            error.inner().kind() == MessageKind::Error,
            error.inner().cause_text() matches Some(text) && to_string_from_display_ensures::<D>(
                &cause,
                text,
            ),
    {
        RunError { inner: crate::error::RunError::fail(cause) }
    }

    /// The error as the harness takes it.
    pub fn into_inner(self) -> (inner: crate::error::RunError)
        ensures
            inner == self.inner(),
    {
        self.inner
    }
}

/// A value that can be displayed, such as an error value, is a failure caused by it.
impl<E> From<E> for RunError where E: core::fmt::Display + Send + Sync + 'static {
    fn from(error: E) -> (out: Self)
        ensures
            out.inner().kind() == MessageKind::Error,
            out.inner().cause_text() matches Some(text) && to_string_from_display_ensures::<E>(
                &error,
                text,
            ),
    {
        Self::with_cause(error)
    }
}

/// What the conversion gives is stated by `from` itself: the text that a value displays
/// is no function of the value.
impl<E> vstd::std_specs::convert::FromSpecImpl<E> for RunError where E: core::fmt::Display + Send + Sync + 'static {
    open spec fn obeys_from_spec() -> bool {
        false
    }

    open spec fn from_spec(v: E) -> Self {
        arbitrary()
    }
}

/// The run as a trial sees it.
pub struct RunContext<'t> {
    inner: &'t TestContext,
}

impl<'t> RunContext<'t> {
    /// The context of the harness.
    pub closed spec fn inner(&self) -> &'t TestContext {
        self.inner
    }

    /// The context of a trial in the run that `inner` describes.
    pub closed spec fn of(inner: &'t TestContext) -> Self {
        RunContext { inner }
    }

    /// The context of a trial in the run that `inner` describes.
    pub fn new(inner: &'t TestContext) -> (context: Self)
        ensures
            context == Self::of(inner),
            context.inner() == inner,
    {
        RunContext { inner }
    }

    /// Asks for the trial to be ignored; the command line may overrule it.
    pub fn ignore(&self) -> (r: Result<(), RunError>)
        ensures
            self.inner().runs_ignored() ==> r is Ok,
            !self.inner().runs_ignored() ==> (r matches Err(e) && e.inner().kind()
                == MessageKind::Ignored && e.inner().cause_text() is None),
    {
        match self.inner.ignore() {
            Ok(_) => Ok(()),
            Err(e) => Err(RunError { inner: e }),
        }
    }

    /// Asks for the trial to be ignored, with the reason that `reason` displays; the
    /// command line may overrule it.
    pub fn ignore_for<D: core::fmt::Display>(&self, reason: D) -> (r: Result<(), RunError>)
        ensures
            self.inner().runs_ignored() ==> r is Ok,
            !self.inner().runs_ignored() ==> (r matches Err(e) && e.inner().kind()
                == MessageKind::Ignored && (e.inner().cause_text() matches Some(text)
                && to_string_from_display_ensures::<D>(&reason, text))),
    {
        match self.inner.ignore_for(reason) {
            Ok(_) => Ok(()),
            Err(e) => Err(RunError { inner: e }),
        }
    }
}

/// A test case to be run.
pub struct Trial<F> {
    name: String,
    runner: F,
}

impl<F> Trial<F> where
    F: for <'t>Fn(RunContext<'t>) -> Result<(), RunError>,
    F: Send + Sync + 'static,
 {
    /// The name of the trial.
    pub closed spec fn name(&self) -> Seq<char> {
        self.name@
    }

    /// The body of the trial.
    pub closed spec fn runner(&self) -> F {
        self.runner
    }

    /// The trial named `name` whose body is `runner`. As a case of the harness it can be
    /// run where `runner` can be called with every context.
    pub fn test(name: &str, runner: F) -> (trial: Self)
        ensures
            trial.name() == name@,
            trial.runner() == runner,
            (TrialCase { inner: trial }).runnable() == (forall|context: RunContext<'_>|
                call_requires(runner, (context,))),
    {
        let trial = Trial { name: name.to_owned(), runner };
        proof {
            assert(trial.runner() == runner);
            let case = TrialCase { inner: trial };
            assert(case.inner.runner() == runner);
            if forall|context: RunContext<'_>| call_requires(runner, (context,)) {
                assert(case.runnable());
            }
            if case.runnable() {
                assert(forall|context: RunContext<'_>| call_requires(runner, (context,)));
            }
        }
        trial
    }
}

/// A trial as a case of the harness.
pub struct TrialCase<F> {
    pub inner: Trial<F>,
}

impl<F> Case for TrialCase<F> where
    F: for <'t>Fn(RunContext<'t>) -> Result<(), RunError>,
    F: Send + Sync + 'static,
 {
    type Input = ();

    open spec fn spec_name(&self) -> Seq<char> {
        self.inner.name()
    }

    open spec fn kind_of(&self) -> TestKind {
        TestKind::Unknown
    }

    open spec fn source_of(&self) -> Option<Source> {
        None
    }

    open spec fn runnable(&self) -> bool {
        forall|context: RunContext<'_>| call_requires(self.inner.runner(), (context,))
    }

    open spec fn exclusive_in(&self, state: &TestContext) -> bool {
        false
    }

    open spec fn may_give(&self, state: &TestContext, result: Result<(), crate::error::RunError>) -> bool {
        exists|given: Result<(), RunError>|
            call_ensures(self.inner.runner(), (RunContext::of(state),), given) && result == (
            match given {
                Ok(_) => Ok::<(), crate::error::RunError>(()),
                Err(e) => Err(e.inner()),
            })
    }

    fn name(&self) -> (name: &str) {
        self.inner.name.as_str()
    }

    fn kind(&self) -> (kind: TestKind) {
        TestKind::Unknown
    }

    fn source(&self) -> (source: Option<&Source>) {
        None
    }

    fn exclusive(&self, _context: &TestContext) -> (yes: bool) {
        false
    }

    fn run(&self, context: &TestContext) -> (result: Result<(), crate::error::RunError>) {
        let trial_context = RunContext { inner: context };
        proof {
            assert(call_requires(self.inner.runner(), (trial_context,)));
        }
        let given = (self.inner.runner)(trial_context);
        proof {
            assert(trial_context == RunContext::of(context));
            assert(call_ensures(self.inner.runner(), (RunContext::of(context),), given));
        }
        match given {
            Ok(_) => Ok(()),
            Err(e) => Err(e.inner),
        }
    }
}

/// Why the harness gave no result.
#[derive(Debug)]
pub enum Stop {
    /// The command line gave no options.
    Parse(ParseStop),
    /// The run ended without a result.
    Run(HarnessError),
}

/// The trials as cases of the harness, in the same order.
pub open spec fn as_cases<F>(trials: Seq<Trial<F>>) -> Seq<TrialCase<F>> {
    trials.map_values(|trial: Trial<F>| TrialCase { inner: trial })
}

/// Whether `success` is the result of a run of the trials that the options select: of
/// the selected trials in the order in which they run, for some way in which the trials
/// can end.
pub open spec fn ran_to<F>(trials: Seq<Trial<F>>, opts: TestOptsView, success: bool) -> bool where
    F: for <'t>Fn(RunContext<'t>) -> Result<(), RunError>,
    F: Send + Sync + 'static,
 {
    exists|
        kept: Seq<TrialCase<F>>,
        flags: Seq<bool>,
        apart: Seq<crate::run::Outcome>,
        alone: Seq<crate::run::Outcome>,
        context: TestContext,
    |
        {
            &&& kept.to_multiset() == crate::harness::selection(as_cases(trials), opts).to_multiset()
            &&& crate::harness::in_run_order(kept, opts)
            &&& flags.len() == kept.len()
            &&& apart.len() == crate::schedule::concurrent_lane(
                flags,
                crate::run::thread_count(opts),
            ).len()
            &&& alone.len() == crate::schedule::exclusive_lane(
                flags,
                crate::run::thread_count(opts),
            ).len()
            &&& #[trigger] crate::run::whole_run(kept, opts, flags, apart, alone).1 == success
            &&& #[trigger] crate::run::genuine_run(kept, opts, flags, apart, alone, context)
        }
}

/// Whether `r` is what the harness gives for `trials`, where the command line gives
/// `parsed` and the sink of the report is `reliable` or not. A command line without
/// options is the end. With options, the trials are told to the reporter; where the
/// options only list the trials, that is a success; else the selected trials run,
/// unless the options ask for what is not supported. Only a sink that is not reliable
/// can make the report fail.
pub open spec fn ran_as<F>(
    trials: Seq<Trial<F>>,
    parsed: Result<TestOptsView, StopView>,
    reliable: bool,
    r: Result<bool, Stop>,
) -> bool where F: for <'t>Fn(RunContext<'t>) -> Result<(), RunError>, F: Send + Sync + 'static {
    match parsed {
        Err(stop) => r matches Err(Stop::Parse(given)) && stop == (match given {
            ParseStop::Help(bin) => StopView::Help(bin@),
            ParseStop::Invalid(error) => StopView::Invalid(error@),
        }),
        Ok(opts) => match r {
            Err(Stop::Parse(_)) => false,
            Err(Stop::Run(HarnessError::Write(_))) => !reliable,
            Err(Stop::Run(HarnessError::Refused(why))) => !opts.list && crate::run::refusal(opts)
                == Some(why),
            Ok(success) => if opts.list {
                success
            } else {
                crate::run::refusal(opts) is None && ran_to(trials, opts, success)
            },
        },
    }
}

/// The harness: a command line and the trials to run.
pub struct Harness<F> {
    raw: Vec<String>,
    cases: Vec<Trial<F>>,
}

impl<F> Harness<F> where
    F: for <'t>Fn(RunContext<'t>) -> Result<(), RunError>,
    F: Send + Sync + 'static,
 {
    /// The command line.
    pub closed spec fn raw(&self) -> Seq<String> {
        self.raw@
    }

    /// The trials, in the order in which they were given.
    pub closed spec fn trials(&self) -> Seq<Trial<F>> {
        self.cases@
    }

    /// A harness for the command line `args`, without trials.
    pub fn with_args(args: Vec<String>) -> (harness: Self)
        ensures
            harness.raw() == args@,
            harness.trials() == Seq::<Trial<F>>::empty(),
    {
        Harness { raw: args, cases: Vec::new() }
    }

    /// Gives the harness further trials.
    pub fn discover(self, cases: Vec<Trial<F>>) -> (harness: Self)
        ensures
            harness.raw() == self.raw(),
            harness.trials() == self.trials() + cases@,
    {
        let mut this = self;
        let mut cases = cases;
        this.cases.append(&mut cases);
        this
    }

    /// Parses the command line, selects the trials and runs them, reporting to `writer`.
    /// Returns whether the run was a success.
    pub fn run<W: Sink>(self, writer: W, offered: Parallelism) -> (r: Result<bool, Stop>)
        requires
            forall|k: int|
                0 <= k < self.trials().len() ==> (TrialCase {
                    inner: #[trigger] self.trials()[k],
                }).runnable(),
        ensures
            r matches Err(Stop::Run(HarnessError::Write(_))) ==> !writer.reliable(),
            exists|turns: Seq<Turn>|
                turns_of(self.raw(), turns, true) && ran_as(
                    self.trials(),
                    #[trigger] parsed(program_name(self.raw()), turns, offered, true),
                    writer.reliable(),
                    r,
                ),
    {
        let harness = crate::harness::Harness::new().with_args(self.raw);
        let parsing = harness.parse(writer, offered);
        let ghost turns = choose|turns: Seq<Turn>|
            turns_of(self.raw(), turns, true) && (match parsing {
                Ok(harness) => Ok(harness.opts()),
                Err(ParseStop::Help(bin)) => Err(StopView::Help(bin@)),
                Err(ParseStop::Invalid(error)) => Err(StopView::Invalid(error@)),
            }) == #[trigger] parsed(program_name(self.raw()), turns, offered, true);
        let ghost given = parsed(program_name(self.raw()), turns, offered, true);
        let harness = match parsing {
            Ok(harness) => harness,
            Err(stop) => {
                proof {
                    assert(ran_as(self.trials(), given, writer.reliable(), Err(Stop::Parse(stop))));
                }
                return Err(Stop::Parse(stop));
            },
        };
        let ghost opts = harness.opts();
        let mut trials = self.cases;
        let mut cases: Vec<TrialCase<F>> = Vec::new();
        let ghost all = trials@;
        proof {
            assert(all == self.trials());
            assert(trials@ =~= all.skip(0));
            assert(cases@ =~= as_cases(all.take(0)));
        }
        while trials.len() > 0
            invariant
                trials.len() <= all.len(),
                trials@ == all.skip(all.len() - trials.len()),
                cases@ == as_cases(all.take(all.len() - trials.len())),
                forall|k: int| 0 <= k < all.len() ==> (TrialCase { inner: #[trigger] all[k] }).runnable(),
                forall|k: int| 0 <= k < cases.len() ==> (#[trigger] cases[k]).runnable(),
            decreases trials.len(),
        {
            let ghost done = all.len() - trials.len();
            let trial = trials.remove(0);
            proof {
                assert(trial == all[done]);
                assert(trials@ =~= all.skip(all.len() - trials.len()));
                assert(as_cases(all.take(done + 1)) =~= as_cases(all.take(done)).push(
                    TrialCase { inner: trial },
                ));
            }
            cases.push(TrialCase { inner: trial });
        }
        proof {
            assert(all.take(all.len() as int) =~= all);
        }
        let harness = match harness.discover(cases) {
            Ok(harness) => harness,
            Err(error) => {
                proof {
                    assert(!writer.reliable());
                    assert(ran_as(
                        self.trials(),
                        given,
                        writer.reliable(),
                        Err(Stop::Run(HarnessError::Write(error))),
                    ));
                }
                return Err(Stop::Run(HarnessError::Write(error)));
            },
        };
        proof {
            assert forall|k: int| 0 <= k < harness.cases().len() implies (
            #[trigger] harness.cases()[k]).runnable() by {
                let case = harness.cases()[k];
                assert(cases@.contains(case));
                let at = choose|at: int| 0 <= at < cases.len() && cases@[at] == case;
                assert(cases[at].runnable());
            }
        }
        let ghost kept = harness.cases();
        let ghost before = harness.notifier();
        let (result, after) = harness.run();
        proof {
            match result {
                Ok(success) => {
                    if !opts.list {
                        let (flags, apart, alone, context) = choose|
                            flags: Seq<bool>,
                            apart: Seq<crate::run::Outcome>,
                            alone: Seq<crate::run::Outcome>,
                            context: TestContext,
                        |
                            {
                                &&& flags.len() == kept.len()
                                &&& apart.len() == crate::schedule::concurrent_lane(
                                    flags,
                                    crate::run::thread_count(opts),
                                ).len()
                                &&& alone.len() == crate::schedule::exclusive_lane(
                                    flags,
                                    crate::run::thread_count(opts),
                                ).len()
                                &&& (
                                    crate::notify::timeless_log(
                                        crate::notify::added(before.log(), after.log()),
                                    ),
                                    success,
                                ) == crate::run::whole_run(kept, opts, flags, apart, alone)
                                &&& crate::run::genuine_run(kept, opts, flags, apart, alone, context)
                            };
                        assert(crate::run::whole_run(kept, opts, flags, apart, alone).1 == success);
                        assert(ran_to(self.trials(), opts, success));
                    }
                },
                Err(_) => {},
            }
        }
        let r = match result {
            Ok(success) => Ok(success),
            Err(error) => Err(Stop::Run(error)),
        };
        proof {
            assert(ran_as(self.trials(), given, writer.reliable(), r));
        }
        r
    }
}

} // verus!
