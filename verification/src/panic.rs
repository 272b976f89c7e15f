//! Checks on cases that are meant to end abnormally.

use vstd::prelude::*;
use crate::text::contains;
use crate::text::contains_text;
use crate::text::to_chars;

verus! {

/// The message for a case that was meant to end abnormally and did not.
pub const DID_NOT_PANIC: &'static str = "test did not panic as expected";

/// Why a case that was meant to end abnormally did not meet the expectation.
#[derive(Debug)]
pub struct AssertPanicError(String);

impl AssertPanicError {
    /// The message as plain values.
    pub closed spec fn text(&self) -> Seq<char> {
        self.0@
    }

    /// The message.
    pub fn message(&self) -> (text: &str)
        ensures
            text@ == self.text(),
    {
        self.0.as_str()
    }

    /// The error for a case that returned.
    pub fn did_not_panic() -> (error: Self)
        ensures
            error.text() == DID_NOT_PANIC@,
    {
        AssertPanicError(DID_NOT_PANIC.to_owned())
    }
}

/// A text as the `Debug` of a string shows it: between double quotes, with its special
/// characters escaped.
pub uninterp spec fn debug_quoted(text: Seq<char>) -> Seq<char>;

/// The `Debug` of `str`.
#[verifier::external_body]
fn debug_text(text: &str) -> (quoted: String)
    ensures
        quoted@ == debug_quoted(text@),
{
    format!("{:?}", text)
}

/// The message for a panic whose message lacks the expected text. `shown` and `wanted`
/// are the two texts as they are shown.
pub open spec fn wrong_message_text(shown: Seq<char>, wanted: Seq<char>) -> Seq<char> {
    "panic did not contain expected string\n      panic message: "@ + shown
        + "\n expected substring: "@ + wanted
}

/// The message for a payload that is no text. `payload_type` shows the type of the
/// payload, and `wanted` is the expected text as it is shown.
pub open spec fn no_message_text(payload_type: Seq<char>, wanted: Seq<char>) -> Seq<char> {
    "expected panic with string value,\n found non-string value: `"@ + payload_type
        + "`\n     expected substring: "@ + wanted
}

/// The message for a panic whose message lacks the expected text.
pub open spec fn wrong_message(panic_str: Seq<char>, expected: Seq<char>) -> Seq<char> {
    wrong_message_text(debug_quoted(panic_str), debug_quoted(expected))
}

/// The message for a payload that is no text. `payload_type` shows the type of the
/// payload.
pub open spec fn no_message(payload_type: Seq<char>, expected: Seq<char>) -> Seq<char> {
    no_message_text(payload_type, debug_quoted(expected))
}

/// The error for a panic whose message lacks the expected text. `shown` and `wanted` are
/// the two texts as they are shown.
pub fn wrong_panic_message(shown: &str, wanted: &str) -> (error: AssertPanicError)
    ensures
        error.text() == wrong_message_text(shown@, wanted@),
{
    let mut error_msg = String::new();
    error_msg.append("panic did not contain expected string\n      panic message: ");
    error_msg.append(shown);
    error_msg.append("\n expected substring: ");
    error_msg.append(wanted);
    proof {
        assert(error_msg@ =~= wrong_message_text(shown@, wanted@));
    }
    AssertPanicError(error_msg)
}

/// The error for a payload that is no text. `payload_type` shows the type of the payload,
/// and `wanted` is the expected text as it is shown.
pub fn no_panic_message(payload_type: &str, wanted: &str) -> (error: AssertPanicError)
    ensures
        error.text() == no_message_text(payload_type@, wanted@),
{
    let mut error_msg = String::new();
    error_msg.append("expected panic with string value,\n found non-string value: `");
    error_msg.append(payload_type);
    error_msg.append("`\n     expected substring: ");
    error_msg.append(wanted);
    proof {
        assert(error_msg@ =~= no_message_text(payload_type@, wanted@));
    }
    AssertPanicError(error_msg)
}

/// Checks the message with which a case ended against the text that it was meant to
/// hold. `payload` is the message, where the case gave a text as it ended; `payload_type`
/// shows the type of what it gave.
pub fn check_panic_message(payload: Option<&str>, payload_type: &str, expected: &str) -> (r: Result<
    (),
    AssertPanicError,
>)
    ensures
        match payload {
            Some(panic_str) => if contains_text(panic_str@, expected@) {
                r is Ok
            } else {
                r matches Err(e) && e.text() == wrong_message(panic_str@, expected@)
            },
            None => r matches Err(e) && e.text() == no_message(payload_type@, expected@),
        },
{
    match payload {
        Some(panic_str) => {
            if contains(&to_chars(panic_str), &to_chars(expected)) {
                Ok(())
            } else {
                let shown = debug_text(panic_str);
                let wanted = debug_text(expected);
                Err(wrong_panic_message(shown.as_str(), wanted.as_str()))
            }
        },
        None => {
            let wanted = debug_text(expected);
            Err(no_panic_message(payload_type, wanted.as_str()))
        },
    }
}

} // verus!
