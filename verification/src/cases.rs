//! Cases made of a name and a function.

use vstd::prelude::*;
use crate::case::Case;
use crate::case::Source;
use crate::case::TestKind;
use crate::context::TestContext;
use crate::error::RunResult;

verus! {

/// A case that is declared with all that the harness asks of it.
#[derive(Copy, Clone)]
pub struct TestDef<F> {
    pub name: &'static str,
    pub kind: TestKind,
    pub exclusive: bool,
    pub function: F,
}

/// What a declared case is to the harness: it bears its name, can be run where its
/// function can be called with every context, gives what its function gives, and is
/// exclusive where it is declared so.
pub proof fn lemma_declared_case<F: Fn(&TestContext) -> RunResult + Send + Sync + 'static>(
    case: TestDef<F>,
)
    ensures
        case.spec_name() == case.name@,
        case.runnable() == (forall|context: &TestContext|
            call_requires(case.function, (context,))),
        forall|context: &TestContext, result: RunResult| #[trigger]
            case.may_give(context, result) == call_ensures(case.function, (context,), result),
        forall|context: &TestContext| #[trigger] case.exclusive_in(context) == case.exclusive,
        case.kind_of() == case.kind,
        case.source_of() is None,
{
}

impl<F> Case for TestDef<F> where F: Fn(&TestContext) -> RunResult, F: Send + Sync + 'static {
    type Input = ();

    open spec fn spec_name(&self) -> Seq<char> {
        self.name@
    }

    open spec fn kind_of(&self) -> TestKind {
        self.kind
    }

    open spec fn source_of(&self) -> Option<Source> {
        None
    }

    open spec fn runnable(&self) -> bool {
        forall|context: &TestContext| call_requires(self.function, (context,))
    }

    open spec fn exclusive_in(&self, state: &TestContext) -> bool {
        self.exclusive
    }

    open spec fn may_give(&self, state: &TestContext, result: RunResult) -> bool {
        call_ensures(self.function, (state,), result)
    }

    fn name(&self) -> (name: &str) {
        self.name
    }

    fn kind(&self) -> (kind: TestKind) {
        self.kind
    }

    fn source(&self) -> (source: Option<&Source>) {
        None
    }

    fn exclusive(&self, _context: &TestContext) -> (yes: bool) {
        self.exclusive
    }

    fn run(&self, context: &TestContext) -> (result: RunResult) {
        (self.function)(context)
    }
}

/// A case made of a name and a closure.
pub struct FnCase<F> {
    name: String,
    runner: F,
}

impl<F> FnCase<F> where F: Fn(&TestContext) -> RunResult, F: Send + Sync + 'static {
    /// The body of the case.
    pub closed spec fn runner(&self) -> F {
        self.runner
    }

    /// The case named `name` whose body is `runner`: it can be run where `runner` can be
    /// called with every context, gives what `runner` gives, and is never exclusive.
    pub fn test(name: &str, runner: F) -> (case: Self)
        ensures
            case.spec_name() == name@,
            case.runner() == runner,
            case.runnable() == (forall|context: &TestContext| call_requires(runner, (context,))),
            forall|context: &TestContext, result: RunResult| #[trigger]
                case.may_give(context, result) == call_ensures(runner, (context,), result),
            forall|context: &TestContext| !#[trigger] case.exclusive_in(context),
            case.kind_of() == TestKind::Unknown,
            case.source_of() is None,
    {
        FnCase { name: name.to_owned(), runner }
    }
}

impl<F> Case for FnCase<F> where F: Fn(&TestContext) -> RunResult, F: Send + Sync + 'static {
    type Input = ();

    closed spec fn spec_name(&self) -> Seq<char> {
        self.name@
    }

    open spec fn kind_of(&self) -> TestKind {
        TestKind::Unknown
    }

    open spec fn source_of(&self) -> Option<Source> {
        None
    }

    open spec fn runnable(&self) -> bool {
        forall|context: &TestContext| call_requires(self.runner(), (context,))
    }

    open spec fn exclusive_in(&self, state: &TestContext) -> bool {
        false
    }

    open spec fn may_give(&self, state: &TestContext, result: RunResult) -> bool {
        call_ensures(self.runner(), (state,), result)
    }

    fn name(&self) -> (name: &str) {
        self.name.as_str()
    }

    fn kind(&self) -> (kind: TestKind) {
        TestKind::Unknown
    }

    fn source(&self) -> (source: Option<&Source>) {
        None
    }

    fn exclusive(&self, _context: &TestContext) -> (yes: bool) {
        false
    }

    fn run(&self, context: &TestContext) -> (result: RunResult) {
        (self.runner)(context)
    }
}

/// A case whose body runs inside a function of the caller's, such as a barrier that turns
/// an abnormal end of the body into a failure. In all else it is the case `inner`.
pub struct GuardedCase<C, G> {
    inner: C,
    guard: G,
}

impl<C: Case, G> GuardedCase<C, G> where G: Fn(&C, &TestContext<C::Input>) -> RunResult, G: Send + Sync + 'static {
    /// The case that is run.
    pub closed spec fn inner(&self) -> C {
        self.inner
    }

    /// The function that runs it.
    pub closed spec fn guard(&self) -> G {
        self.guard
    }

    /// The case `inner`, run by `guard`: it can be run where `guard` can be called with it
    /// in every context, and gives what `guard` gives for it.
    pub fn new(inner: C, guard: G) -> (case: Self)
        ensures
            case.inner() == inner,
            case.guard() == guard,
            case.spec_name() == inner.spec_name(),
            case.runnable() == (forall|context: &TestContext<C::Input>|
                call_requires(guard, (&inner, context))),
            forall|context: &TestContext<C::Input>, result: RunResult| #[trigger]
                case.may_give(context, result) == call_ensures(guard, (&inner, context), result),
            forall|context: &TestContext<C::Input>| #[trigger]
                case.exclusive_in(context) == inner.exclusive_in(context),
            case.kind_of() == inner.kind_of(),
            case.source_of() == inner.source_of(),
    {
        GuardedCase { inner, guard }
    }
}

impl<C: Case, G> Case for GuardedCase<C, G> where G: Fn(&C, &TestContext<C::Input>) -> RunResult, G: Send + Sync + 'static {
    type Input = C::Input;

    open spec fn spec_name(&self) -> Seq<char> {
        self.inner().spec_name()
    }

    open spec fn kind_of(&self) -> TestKind {
        self.inner().kind_of()
    }

    open spec fn source_of(&self) -> Option<Source> {
        self.inner().source_of()
    }

    open spec fn runnable(&self) -> bool {
        forall|context: &TestContext<C::Input>| call_requires(self.guard(), (&self.inner(), context))
    }

    open spec fn exclusive_in(&self, state: &TestContext<C::Input>) -> bool {
        self.inner().exclusive_in(state)
    }

    open spec fn may_give(&self, state: &TestContext<C::Input>, result: RunResult) -> bool {
        call_ensures(self.guard(), (&self.inner(), state), result)
    }

    fn name(&self) -> (name: &str) {
        self.inner.name()
    }

    fn kind(&self) -> (kind: TestKind) {
        self.inner.kind()
    }

    fn source(&self) -> (source: Option<&Source>) {
        self.inner.source()
    }

    fn exclusive(&self, context: &TestContext<C::Input>) -> (yes: bool) {
        self.inner.exclusive(context)
    }

    fn run(&self, context: &TestContext<C::Input>) -> (result: RunResult) {
        (self.guard)(&self.inner, context)
    }
}

/// A case made of a name and a closure that reads the value which the harness hands to
/// every case.
pub struct ValueCase<T, F> {
    name: String,
    runner: F,
    input: core::marker::PhantomData<T>,
}

impl<T, F> ValueCase<T, F> where
    T: Send + Sync + 'static,
    F: Fn(&TestContext<T>) -> RunResult,
    F: Send + Sync + 'static,
 {
    /// The body of the case.
    pub closed spec fn runner(&self) -> F {
        self.runner
    }

    /// The case named `name` whose body is `runner`: it can be run where `runner` can be
    /// called with every context, gives what `runner` gives, and is never exclusive.
    pub fn test(name: &str, runner: F) -> (case: Self)
        ensures
            case.spec_name() == name@,
            case.runner() == runner,
            case.runnable() == (forall|context: &TestContext<T>|
                call_requires(runner, (context,))),
            forall|context: &TestContext<T>, result: RunResult| #[trigger]
                case.may_give(context, result) == call_ensures(runner, (context,), result),
            forall|context: &TestContext<T>| !#[trigger] case.exclusive_in(context),
            case.kind_of() == TestKind::Unknown,
            case.source_of() is None,
    {
        ValueCase { name: name.to_owned(), runner, input: core::marker::PhantomData }
    }
}

impl<T, F> Case for ValueCase<T, F> where
    T: Send + Sync + 'static,
    F: Fn(&TestContext<T>) -> RunResult,
    F: Send + Sync + 'static,
 {
    type Input = T;

    closed spec fn spec_name(&self) -> Seq<char> {
        self.name@
    }

    open spec fn kind_of(&self) -> TestKind {
        TestKind::Unknown
    }

    open spec fn source_of(&self) -> Option<Source> {
        None
    }

    open spec fn runnable(&self) -> bool {
        forall|context: &TestContext<T>| call_requires(self.runner(), (context,))
    }

    open spec fn exclusive_in(&self, state: &TestContext<T>) -> bool {
        false
    }

    open spec fn may_give(&self, state: &TestContext<T>, result: RunResult) -> bool {
        call_ensures(self.runner(), (state,), result)
    }

    fn name(&self) -> (name: &str) {
        self.name.as_str()
    }

    fn kind(&self) -> (kind: TestKind) {
        TestKind::Unknown
    }

    fn source(&self) -> (source: Option<&Source>) {
        None
    }

    fn exclusive(&self, _context: &TestContext<T>) -> (yes: bool) {
        false
    }

    fn run(&self, context: &TestContext<T>) -> (result: RunResult) {
        (self.runner)(context)
    }
}

} // verus!
