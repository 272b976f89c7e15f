//! The outcome of a case.

use vstd::prelude::*;
use vstd::string::to_string_from_display_ensures;
use crate::event::MessageKind;
use crate::event::text_view;

verus! {

/// What running a case gives: success, or the reason the case did not pass.
pub type RunResult = Result<(), RunError>;

/// Why a case did not pass: it failed, or it asked to be ignored.
#[derive(Debug)]
pub struct RunError {
    status: MessageKind,
    cause: Option<String>,
}

impl RunError {
    /// The severity under which the case is reported.
    pub closed spec fn kind(&self) -> MessageKind {
        self.status
    }

    /// The text of the cause, where one was given.
    pub closed spec fn cause_text(&self) -> Option<String> {
        self.cause
    }

    /// The text of the cause as plain values.
    pub open spec fn message(&self) -> Option<Seq<char>> {
        text_view(self.cause_text())
    }

    /// A failure whose message is the given text.
    pub fn failure(message: String) -> (error: Self)
        ensures
            error.kind() == MessageKind::Error,
            error.cause_text() == Some(message),
    {
        RunError { status: MessageKind::Error, cause: Some(message) }
    }

    /// A failure caused by `cause`; its message is what `cause` displays.
    pub fn with_cause<E: core::fmt::Display>(cause: E) -> (error: Self)
        ensures
            error.kind() == MessageKind::Error,
            error.cause_text() matches Some(text) && to_string_from_display_ensures::<E>(
                &cause,
                text,
            ),
    {
        Self::failure(cause.to_string())
    }

    /// A failure with a message; the message is what `cause` displays.
    pub fn fail<D: core::fmt::Display>(cause: D) -> (error: Self)
        ensures
            error.kind() == MessageKind::Error,
            error.cause_text() matches Some(text) && to_string_from_display_ensures::<D>(
                &cause,
                text,
            ),
    {
        Self::with_cause(cause)
    }

    /// A request to ignore the case, without a reason.
    pub fn ignore() -> (error: Self)
        ensures
            error.kind() == MessageKind::Ignored,
            error.cause_text() is None,
    {
        RunError { status: MessageKind::Ignored, cause: None }
    }

    /// A request to ignore the case for the given reason.
    pub fn ignore_for(reason: String) -> (error: Self)
        ensures
            error.kind() == MessageKind::Ignored,
            error.cause_text() == Some(reason),
    {
        RunError { status: MessageKind::Ignored, cause: Some(reason) }
    }

    pub fn status(&self) -> (status: MessageKind)
        ensures
            status == self.kind(),
    {
        self.status
    }

    pub fn cause(&self) -> (cause: Option<&String>)
        ensures
            match cause {
                Some(text) => self.cause_text() == Some(*text),
                None => self.cause_text() is None,
            },
    {
        self.cause.as_ref()
    }
}

/// A value that can be displayed, such as an error value, is a failure caused by it.
impl<E> From<E> for RunError where E: core::fmt::Display + Send + Sync + 'static {
    fn from(error: E) -> (out: Self)
        ensures
            out.kind() == MessageKind::Error,
            out.cause_text() matches Some(text) && to_string_from_display_ensures::<E>(
                &error,
                text,
            ),
    {
        Self::with_cause(error)
    }
}

/// What the conversion gives is stated by `from` itself: the text that a value displays
/// is no function of the value.
impl<E> vstd::std_specs::convert::FromSpecImpl<E> for RunError where E: core::fmt::Display + Send + Sync + 'static {
    open spec fn obeys_from_spec() -> bool {
        false
    }

    open spec fn from_spec(v: E) -> Self {
        arbitrary()
    }
}

/// What a test function may return.
pub trait IntoRunResult {
    spec fn as_run_result(self) -> RunResult where Self: Sized;

    fn into_run_result(self) -> (result: RunResult) where Self: Sized
        ensures
            result == self.as_run_result(),
    ;
}

impl IntoRunResult for () {
    open spec fn as_run_result(self) -> RunResult {
        Ok(())
    }

    fn into_run_result(self) -> (result: RunResult) {
        Ok(())
    }
}

impl IntoRunResult for RunResult {
    open spec fn as_run_result(self) -> RunResult {
        self
    }

    fn into_run_result(self) -> (result: RunResult) {
        self
    }
}

} // verus!
