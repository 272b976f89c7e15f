//! The command line: arguments as the lexer gives them, and the errors of parsing them.

use vstd::prelude::*;
use vstd::string::to_string_from_display_ensures;

verus! {

/// `lexarg_parser::Parser`: the lexer of a command line, with its position in it.
#[verifier::external_type_specification]
#[verifier::external_body]
pub struct ExParser<'a>(lexarg_parser::Parser<'a>);

/// A command line argument: an option or a positional argument.
#[derive(Clone, Debug)]
pub enum Arg {
    /// A short option, `Short("q")` for `-q`.
    Short(String),
    /// A long option, `Long("verbose")` for `--verbose`.
    Long(String),
    /// A positional argument.
    Value(String),
    /// The mark `--`, after which every argument is positional.
    Escape(String),
    /// Something that does not work where it stands.
    Unexpected(String),
}

/// An argument as plain values.
pub enum ArgView {
    Short(Seq<char>),
    Long(Seq<char>),
    Value(Seq<char>),
    Escape(Seq<char>),
    Unexpected(Seq<char>),
}

impl View for Arg {
    type V = ArgView;

    open spec fn view(&self) -> ArgView {
        match self {
            Arg::Short(text) => ArgView::Short(text@),
            Arg::Long(text) => ArgView::Long(text@),
            Arg::Value(text) => ArgView::Value(text@),
            Arg::Escape(text) => ArgView::Escape(text@),
            Arg::Unexpected(text) => ArgView::Unexpected(text@),
        }
    }
}

/// An optional argument as plain values.
pub open spec fn arg_view(arg: Option<Arg>) -> Option<ArgView> {
    match arg {
        Some(arg) => Some(arg@),
        None => None,
    }
}

impl Arg {
    /// A copy of the argument.
    pub fn copy(&self) -> (arg: Arg)
        ensures
            arg@ == self@,
    {
        match self {
            Arg::Short(text) => Arg::Short(text.clone()),
            Arg::Long(text) => Arg::Long(text.clone()),
            Arg::Value(text) => Arg::Value(text.clone()),
            Arg::Escape(text) => Arg::Escape(text.clone()),
            Arg::Unexpected(text) => Arg::Unexpected(text.clone()),
        }
    }
}

/// An argument as the user wrote it.
pub open spec fn arg_text(arg: ArgView) -> Seq<char> {
    match arg {
        ArgView::Short(short) => "-"@ + short,
        ArgView::Long(long) => "--"@ + long,
        ArgView::Escape(value) => value,
        ArgView::Value(value) => value,
        ArgView::Unexpected(value) => value,
    }
}

/// An error of parsing as the user reads it: the message, then the argument that was
/// found, then the argument in which it was found.
pub open spec fn error_text(
    msg: Seq<char>,
    unexpected: Option<ArgView>,
    within: Option<ArgView>,
) -> Seq<char> {
    msg + (match unexpected {
        Some(arg) => ", found `"@ + arg_text(arg) + "`"@,
        None => Seq::empty(),
    }) + (match within {
        Some(arg) => " when parsing `"@ + arg_text(arg) + "`"@,
        None => Seq::empty(),
    })
}

/// The `Display` of `lexarg_error::LexError`: the message; then, where the error names
/// them, the failing argument as `, found` and the enclosing one as ` when parsing`, each
/// between backquotes and written as on the command line.
#[verifier::external_body]
fn display_lex_error<'a>(msg: &str, unexpected: Option<&'a Arg>, within: Option<&'a Arg>) -> (text:
    String)
    ensures
        text@ == error_text(
            msg@,
            match unexpected {
                Some(arg) => Some(arg@),
                None => None,
            },
            match within {
                Some(arg) => Some(arg@),
                None => None,
            },
        ),
{
    let outside = |arg: &'a Arg| -> lexarg_parser::Arg<'a> { match arg {
            Arg::Short(text) => lexarg_parser::Arg::Short(text),
            Arg::Long(text) => lexarg_parser::Arg::Long(text),
            Arg::Escape(text) => lexarg_parser::Arg::Escape(text),
            Arg::Value(text) => lexarg_parser::Arg::Value(text.as_ref()),
            Arg::Unexpected(text) => lexarg_parser::Arg::Unexpected(text.as_ref()),
        } };
    let mut error = lexarg_error::LexError::msg(msg);
    if let Some(arg) = unexpected { error = error.unexpected(outside(arg)); }
    if let Some(arg) = within { error = error.within(outside(arg)); }
    error.to_string()
}

/// A bound on the arguments that a parser can still give: what is left of the command line
/// from the position of the parser on.
pub uninterp spec fn pending(parser: lexarg_parser::Parser<'_>) -> nat;

/// The parser at the start of the command line whose items are `raw`.
pub uninterp spec fn lexer_at_start(raw: Seq<Seq<char>>) -> lexarg_parser::Parser<'static>;

/// What the parser gives as the next item as it stands, and the parser behind it.
pub uninterp spec fn raw_turn(parser: lexarg_parser::Parser<'_>) -> (
    Result<Option<Seq<char>>, ()>,
    lexarg_parser::Parser<'static>,
);

/// What the parser gives as the next argument, and the parser behind it.
pub uninterp spec fn arg_turn(parser: lexarg_parser::Parser<'_>) -> (
    Option<ArgView>,
    lexarg_parser::Parser<'static>,
);

/// What the parser gives as the value of the option that it has just given, and the parser
/// behind it.
pub uninterp spec fn value_turn(parser: lexarg_parser::Parser<'_>) -> (
    Option<Seq<char>>,
    lexarg_parser::Parser<'static>,
);

/// `Parser::new`: a parser at the start of `raw`, whose first item is the name of the
/// program. The parser is a function of the items.
#[verifier::external_body]
pub(crate) fn new_parser<'a>(raw: &'a Vec<String>) -> (parser: lexarg_parser::Parser<'a>)
    ensures
        parser == lexer_at_start(raw@.map_values(|item: String| item@)),
{
    lexarg_parser::Parser::new(raw)
}

/// `Parser::next_raw`: the next item as it stands, unless the value of an option is
/// pending. What is given and where the parser stands afterwards are functions of where
/// it stood. The parser does not go back.
#[verifier::external_body]
pub(crate) fn next_raw(parser: &mut lexarg_parser::Parser<'_>) -> (raw: Result<Option<String>, ()>)
    ensures
        (match raw {
            Ok(item) => Ok(crate::event::text_view(item)),
            Err(_) => Err(()),
        }) == raw_turn(*old(parser)).0,
        *final(parser) == raw_turn(*old(parser)).1,
        pending(*final(parser)) <= pending(*old(parser)),
{
    parser.next_raw().map(|raw| raw.map(|raw| raw.to_string_lossy().into_owned()))
}

/// `Parser::next_arg`: the next option or positional argument, and none when the command
/// line is exhausted. What is given and where the parser stands afterwards are functions
/// of where it stood. Every argument given uses up some of the command line.
#[verifier::external_body]
pub(crate) fn next_arg(parser: &mut lexarg_parser::Parser<'_>) -> (arg: Option<Arg>)
    ensures
        arg_view(arg) == arg_turn(*old(parser)).0,
        *final(parser) == arg_turn(*old(parser)).1,
        arg is Some ==> pending(*final(parser)) < pending(*old(parser)),
        arg is None ==> pending(*final(parser)) <= pending(*old(parser)),
{
    parser.next_arg().map(|arg| match arg {
        lexarg_parser::Arg::Short(text) => Arg::Short(text.to_owned()),
        lexarg_parser::Arg::Long(text) => Arg::Long(text.to_owned()),
        lexarg_parser::Arg::Escape(text) => Arg::Escape(text.to_owned()),
        lexarg_parser::Arg::Value(text) => Arg::Value(text.to_string_lossy().into_owned()),
        lexarg_parser::Arg::Unexpected(text) => Arg::Unexpected(text.to_string_lossy().into_owned()),
    })
}

/// `Parser::next_flag_value`: the value of the option that was just seen, if it has one.
/// What is given and where the parser stands afterwards are functions of where it stood.
/// The parser does not go back.
#[verifier::external_body]
pub(crate) fn next_flag_value(parser: &mut lexarg_parser::Parser<'_>) -> (value: Option<String>)
    ensures
        crate::event::text_view(value) == value_turn(*old(parser)).0,
        *final(parser) == value_turn(*old(parser)).1,
        pending(*final(parser)) <= pending(*old(parser)),
{
    parser.next_flag_value().map(|value| value.to_string_lossy().into_owned())
}

/// What went wrong in parsing the command line, and where.
#[derive(Debug)]
pub struct LexError {
    pub msg: String,
    pub within: Option<Arg>,
    pub unexpected: Option<Arg>,
}

/// An error of parsing as plain values.
pub struct LexErrorView {
    pub msg: Seq<char>,
    pub within: Option<ArgView>,
    pub unexpected: Option<ArgView>,
}

impl View for LexError {
    type V = LexErrorView;

    open spec fn view(&self) -> LexErrorView {
        LexErrorView {
            msg: self.msg@,
            within: arg_view(self.within),
            unexpected: arg_view(self.unexpected),
        }
    }
}

impl LexError {
    /// An error with the message `message` and nothing else.
    pub fn msg(message: &str) -> (error: Self)
        ensures
            error@ == (LexErrorView { msg: message@, within: None, unexpected: None }),
    {
        LexError { msg: message.to_owned(), within: None, unexpected: None }
    }

    /// The error, found within `within`.
    pub fn within(self, within: Arg) -> (error: Self)
        ensures
            error@ == (LexErrorView { within: Some(within@), ..self@ }),
    {
        LexError { msg: self.msg, within: Some(within), unexpected: self.unexpected }
    }

    /// The error, with `unexpected` as the argument that failed.
    pub fn unexpected(self, unexpected: Arg) -> (error: Self)
        ensures
            error@ == (LexErrorView { unexpected: Some(unexpected@), ..self@ }),
    {
        LexError { msg: self.msg, within: self.within, unexpected: Some(unexpected) }
    }

    /// The error as the user reads it.
    pub fn to_text(&self) -> (text: String)
        ensures
            text@ == error_text(self@.msg, self@.unexpected, self@.within),
    {
        display_lex_error(self.msg.as_str(), self.unexpected.as_ref(), self.within.as_ref())
    }
}

/// An error of the command line, reduced to its message.
pub struct Error {
    msg: String,
}

impl Error {
    /// The message.
    pub closed spec fn text(&self) -> String {
        self.msg
    }

    /// An error with the message that `message` displays.
    pub fn msg<M: core::fmt::Display>(message: M) -> (error: Self)
        ensures
            to_string_from_display_ensures::<M>(&message, error.text()),
    {
        Error { msg: message.to_string() }
    }

    /// The error that a parsing error becomes: its message is the whole text of the
    /// parsing error.
    pub fn from_lex(error: &LexError) -> (out: Self)
        ensures
            out.text()@ == error_text(error@.msg, error@.unexpected, error@.within),
    {
        Error { msg: error.to_text() }
    }

    /// The message.
    pub fn message(&self) -> (text: &str)
        ensures
            text@ == self.text()@,
    {
        self.msg.as_str()
    }
}

} // verus!
