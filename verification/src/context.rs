//! What a case is told about the run it is part of.

use vstd::prelude::*;
use vstd::string::to_string_from_display_ensures;
use crate::error::RunError;
use crate::event::Elapsed;
use crate::event::MessageKind;
use crate::event::RunMode;

verus! {

/// `std::time::Instant`: a reading of the monotonic clock, carried through as it is.
#[verifier::external_type_specification]
#[verifier::external_body]
pub struct ExInstant(std::time::Instant);

/// `Instant::now`: the current reading of the monotonic clock.
#[verifier::external_body]
pub(crate) fn now() -> (start: std::time::Instant) {
    std::time::Instant::now()
}

/// `Instant::elapsed`: the time since `start`, in whole nanoseconds where they fit in 64
/// bits.
#[verifier::external_body]
fn nanos_since(start: &std::time::Instant) -> (nanos: Option<u64>) {
    u64::try_from(start.elapsed().as_nanos()).ok()
}

/// The time since `start`; a time too long for 64 bits of nanoseconds is given as the
/// longest that they hold.
pub(crate) fn since(start: &std::time::Instant) -> (elapsed: Elapsed) {
    match nanos_since(start) {
        Some(nanos) => Elapsed(nanos),
        None => Elapsed(u64::MAX),
    }
}

/// The run as a case sees it. `T` is the type of the value that the harness hands to
/// every case; a run without such a value hands over `()`.
pub struct TestContext<T = ()> {
    start: std::time::Instant,
    mode: RunMode,
    run_ignored: bool,
    test_name: String,
    value: T,
}

impl TestContext<()> {
    /// A context for a run that starts now.
    pub fn new(mode: RunMode, run_ignored: bool) -> (context: Self)
        ensures
            context.mode_of() == mode,
            context.runs_ignored() == run_ignored,
            context.name_of() == Seq::<char>::empty(),
    {
        TestContext { start: now(), mode, run_ignored, test_name: String::new(), value: () }
    }

    /// A context for a run that started at `start`.
    pub fn starting_at(start: &std::time::Instant, mode: RunMode, run_ignored: bool) -> (context:
        Self)
        ensures
            context.start_of() == *start,
            context.mode_of() == mode,
            context.runs_ignored() == run_ignored,
            context.name_of() == Seq::<char>::empty(),
    {
        TestContext { start: *start, mode, run_ignored, test_name: String::new(), value: () }
    }
}

impl<T> TestContext<T> {
    /// When the run began.
    pub closed spec fn start_of(&self) -> std::time::Instant {
        self.start
    }

    /// What the run executes.
    pub closed spec fn mode_of(&self) -> RunMode {
        self.mode
    }

    /// Whether the run includes the cases that ask to be ignored.
    pub closed spec fn runs_ignored(&self) -> bool {
        self.run_ignored
    }

    /// The name of the case that the context was made for.
    pub closed spec fn name_of(&self) -> Seq<char> {
        self.test_name@
    }

    /// The value that the harness hands to every case.
    pub closed spec fn value_of(&self) -> T {
        self.value
    }

    /// A context for a run that started at `start`, in which every case is handed
    /// `value`.
    pub fn with_value(start: &std::time::Instant, mode: RunMode, run_ignored: bool, value: T) -> (context:
        Self)
        ensures
            context.start_of() == *start,
            context.mode_of() == mode,
            context.runs_ignored() == run_ignored,
            context.name_of() == Seq::<char>::empty(),
            context.value_of() == value,
    {
        TestContext { start: *start, mode, run_ignored, test_name: String::new(), value }
    }

    /// The value that the harness hands to every case.
    pub fn value(&self) -> (value: &T)
        ensures
            *value == self.value_of(),
    {
        &self.value
    }

    /// Asks for the case to be ignored. Where the run includes ignored cases the request is
    /// turned down and the case goes on; otherwise the case returns the error at once.
    pub fn ignore(&self) -> (r: Result<(), RunError>)
        ensures
            self.runs_ignored() ==> r is Ok,
            !self.runs_ignored() ==> (r matches Err(e) && e.kind() == MessageKind::Ignored
                && e.cause_text() is None),
    {
        if self.run_ignored {
            Ok(())
        } else {
            Err(RunError::ignore())
        }
    }

    /// Asks for the case to be ignored, with the reason that `reason` displays.
    pub fn ignore_for<D: core::fmt::Display>(&self, reason: D) -> (r: Result<(), RunError>)
        ensures
            self.runs_ignored() ==> r is Ok,
            !self.runs_ignored() ==> (r matches Err(e) && e.kind() == MessageKind::Ignored && (
            e.cause_text() matches Some(text) && to_string_from_display_ensures::<D>(
                &reason,
                text,
            ))),
    {
        if self.run_ignored {
            Ok(())
        } else {
            Err(RunError::ignore_for(reason.to_string()))
        }
    }

    pub fn current_mode(&self) -> (mode: RunMode)
        ensures
            mode == self.mode_of(),
    {
        self.mode
    }

    /// Hands `event` to the reporter of the run.
    pub fn notify<N: crate::notify::Notifier>(&self, notifier: &mut N, event: crate::event::Event) -> (r:
        Result<(), crate::notify::WriteError>)
        ensures
            final(notifier).reliable() == old(notifier).reliable(),
            old(notifier).reliable() ==> r is Ok,
            final(notifier).refused() == old(notifier).refused() + if r is Err {
                1nat
            } else {
                0nat
            },
            final(notifier).hints() == old(notifier).hints(),
            r is Ok ==> final(notifier).log() == old(notifier).log().push(event@),
    {
        notifier.notify(event)
    }

    /// The time since the run began.
    pub fn elapsed_s(&self) -> (elapsed: Elapsed) {
        since(&self.start)
    }

    /// The name of the case that the context was made for; empty while cases run one at a
    /// time.
    pub fn test_name(&self) -> (name: &str)
        ensures
            name@ == self.name_of(),
    {
        self.test_name.as_str()
    }

    /// The context for the case named `name`, in the same run, with a copy of the value.
    pub fn for_case(&self, name: &str) -> (context: Self) where T: Clone
        ensures
            context.start_of() == self.start_of(),
            context.mode_of() == self.mode_of(),
            context.runs_ignored() == self.runs_ignored(),
            context.name_of() == name@,
            cloned(self.value_of(), context.value_of()),
    {
        TestContext {
            start: self.start,
            mode: self.mode,
            run_ignored: self.run_ignored,
            test_name: name.to_owned(),
            value: self.value.clone(),
        }
    }
}

} // verus!
