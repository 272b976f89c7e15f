//! The options of a run, as the command line gives them.

use vstd::prelude::*;
use crate::cli::Arg;
use crate::cli::ArgView;
use crate::cli::LexError;
use crate::cli::LexErrorView;
use crate::cli::next_flag_value;
use crate::text::to_chars;

verus! {

/// Whether the cases that ask to be ignored are run.
#[derive(Copy, Clone, Debug, PartialEq, Eq, Structural)]
pub enum RunIgnored {
    Yes,
    No,
    /// Run only ignored cases.
    Only,
}

impl Default for RunIgnored {
    fn default() -> (value: Self)
        ensures
            value == RunIgnored::No,
    {
        RunIgnored::No
    }
}

/// Whether the output is colored.
#[derive(Copy, Clone, Debug, PartialEq, Eq, Structural)]
pub enum ColorConfig {
    AutoColor,
    AlwaysColor,
    NeverColor,
}

impl Default for ColorConfig {
    fn default() -> (value: Self)
        ensures
            value == ColorConfig::AutoColor,
    {
        ColorConfig::AutoColor
    }
}

/// The format of the report.
#[derive(Copy, Clone, Debug, PartialEq, Eq, Structural)]
pub enum OutputFormat {
    /// One line for each case.
    Pretty,
    /// One character for each case.
    Terse,
    /// One line of JSON for each event.
    Json,
}

impl Default for OutputFormat {
    fn default() -> (value: Self)
        ensures
            value == OutputFormat::Pretty,
    {
        OutputFormat::Pretty
    }
}

/// The options of a run.
#[derive(Debug)]
#[non_exhaustive]
pub struct TestOpts {
    pub list: bool,
    pub filters: Vec<String>,
    pub filter_exact: bool,
    pub run_ignored: RunIgnored,
    pub run_tests: bool,
    pub bench_benchmarks: bool,
    pub no_capture: bool,
    pub show_output: bool,
    pub color: ColorConfig,
    pub format: OutputFormat,
    /// The number of cases that may run at once; it is not zero.
    pub test_threads: Option<usize>,
    pub skip: Vec<String>,
    /// Stop at the first failing case.
    pub fail_fast: bool,
    pub allowed_unstable: Vec<String>,
}

/// A list of texts as plain values.
pub open spec fn texts(list: Seq<String>) -> Seq<Seq<char>> {
    list.map_values(|s: String| s@)
}

/// The options as plain values.
pub struct TestOptsView {
    pub list: bool,
    pub filters: Seq<Seq<char>>,
    pub filter_exact: bool,
    pub run_ignored: RunIgnored,
    pub run_tests: bool,
    pub bench_benchmarks: bool,
    pub no_capture: bool,
    pub show_output: bool,
    pub color: ColorConfig,
    pub format: OutputFormat,
    pub test_threads: Option<usize>,
    pub skip: Seq<Seq<char>>,
    pub fail_fast: bool,
    pub allowed_unstable: Seq<Seq<char>>,
}

impl View for TestOpts {
    type V = TestOptsView;

    open spec fn view(&self) -> TestOptsView {
        TestOptsView {
            list: self.list,
            filters: texts(self.filters@),
            filter_exact: self.filter_exact,
            run_ignored: self.run_ignored,
            run_tests: self.run_tests,
            bench_benchmarks: self.bench_benchmarks,
            no_capture: self.no_capture,
            show_output: self.show_output,
            color: self.color,
            format: self.format,
            test_threads: self.test_threads,
            skip: texts(self.skip@),
            fail_fast: self.fail_fast,
            allowed_unstable: texts(self.allowed_unstable@),
        }
    }
}

/// The options of a command line without arguments.
pub open spec fn default_opts() -> TestOptsView {
    TestOptsView {
        list: false,
        filters: Seq::empty(),
        filter_exact: false,
        run_ignored: RunIgnored::No,
        run_tests: false,
        bench_benchmarks: false,
        no_capture: false,
        show_output: false,
        color: ColorConfig::AutoColor,
        format: OutputFormat::Pretty,
        test_threads: None,
        skip: Seq::empty(),
        fail_fast: false,
        allowed_unstable: Seq::empty(),
    }
}

impl Default for TestOpts {
    fn default() -> (opts: Self)
        ensures
            opts@ == default_opts(),
    {
        let opts = TestOpts {
            list: false,
            filters: Vec::new(),
            filter_exact: false,
            run_ignored: RunIgnored::No,
            run_tests: false,
            bench_benchmarks: false,
            no_capture: false,
            show_output: false,
            color: ColorConfig::AutoColor,
            format: OutputFormat::Pretty,
            test_threads: None,
            skip: Vec::new(),
            fail_fast: false,
            allowed_unstable: Vec::new(),
        };
        proof {
            assert(texts(opts.filters@) =~= Seq::empty());
            assert(texts(opts.skip@) =~= Seq::empty());
            assert(texts(opts.allowed_unstable@) =~= Seq::empty());
        }
        opts
    }
}

/// The help on the options.
pub const OPTIONS_HELP: &'static str = r#"
Options:
        --fail-fast     Don't start new tests after the first failure
        --skip FILTER   Skip tests whose names contain FILTER (this flag can
                        be used multiple times)
        --exact         Exactly match filters rather than by substring
        --ignored       Run only ignored tests
        --include-ignored 
                        Run ignored and not ignored tests
        --test          Run tests and not benchmarks
        --bench         Run benchmarks instead of tests
        --no-capture    don't capture stdout/stderr of each task, allow
                        printing directly
        --show-output   Show captured stdout of successful tests
        --list          List all tests and benchmarks
        --test-threads NUM
                        Number of threads used for running tests in parallel
        --format <pretty|terse|json>
                        Configure formatting of output:
                        - pretty: Print verbose output
                        - terse: Display one character per test
                        - json: Output a json document
    -q, --quiet         Display one character per test instead of one line.
                        Alias to --format=terse
        --color <auto|always|never>
                        Configure coloring of output:
                        - auto: detect terminal support (default)
                        - always: always colorize output
                        - never: never colorize output
    -Z FLAG             Enable nightly-only flags:
                        - unstable-options: Allow use of experimental features
"#;

/// The help on the filters, which follows the help on the options.
pub const AFTER_HELP: &'static str = r#"
The FILTER string is tested against the name of all tests, and only those
tests whose names contain the filter are run. Multiple filter strings may
be passed, which will run all tests matching any of the filters.

By default, all tests are run in parallel. This can be altered with the
--test-threads flag when running tests (set it to 1).
"#;

/// Whether a character is blank: a space, a tab, or the end of a line.
pub open spec fn is_blank(c: char) -> bool {
    c == ' ' || c == '\t' || c == '\n' || c == '\r'
}

/// The number of blank characters at the start of `text`.
pub open spec fn blank_head(text: Seq<char>) -> nat
    decreases text.len(),
{
    if text.len() == 0 || !is_blank(text[0]) {
        0
    } else {
        1 + blank_head(text.skip(1))
    }
}

/// The number of blank characters at the end of `text`.
pub open spec fn blank_tail(text: Seq<char>) -> nat
    decreases text.len(),
{
    if text.len() == 0 || !is_blank(text.last()) {
        0
    } else {
        1 + blank_tail(text.drop_last())
    }
}

/// `text` without the blank characters at its start and at its end.
pub open spec fn trimmed(text: Seq<char>) -> Seq<char> {
    let rest = text.skip(blank_head(text) as int);
    rest.take(rest.len() - blank_tail(rest))
}

/// The usage of the program named `bin`.
pub open spec fn usage_text(bin: Seq<char>) -> Seq<char> {
    "Usage: "@ + bin + " [OPTIONS] [FILTER]...\n\n"@ + trimmed(OPTIONS_HELP@) + "\n\n"@ + trimmed(
        AFTER_HELP@,
    )
}

fn blank(c: char) -> (yes: bool)
    ensures
        yes == is_blank(c),
{
    c == ' ' || c == '\t' || c == '\n' || c == '\r'
}

fn push_trimmed(out: &mut String, text: &str)
    ensures
        final(out)@ == old(out)@ + trimmed(text@),
{
    let chars = to_chars(text);
    let mut from: usize = 0;
    proof {
        assert(chars@.skip(0) =~= chars@);
    }
    while from < chars.len() && blank(chars[from])
        invariant
            from <= chars.len(),
            blank_head(chars@) == from + blank_head(chars@.skip(from as int)),
        decreases chars.len() - from,
    {
        proof {
            assert(chars@.skip(from as int)[0] == chars@[from as int]);
            assert(chars@.skip(from as int).skip(1) =~= chars@.skip(from + 1));
        }
        from += 1;
    }
    proof {
        if from < chars.len() {
            assert(chars@.skip(from as int)[0] == chars@[from as int]);
        }
    }
    let ghost rest = chars@.skip(from as int);
    let mut to: usize = chars.len();
    proof {
        assert(rest.take(rest.len() as int) =~= rest);
    }
    while to > from && blank(chars[to - 1])
        invariant
            from <= to <= chars.len(),
            rest == chars@.skip(from as int),
            blank_tail(rest) == (chars.len() - to) + blank_tail(rest.take(to - from)),
        decreases to,
    {
        proof {
            let part = rest.take(to - from);
            assert(part.last() == chars@[to - 1]);
            assert(part.drop_last() =~= rest.take(to - from - 1));
        }
        to -= 1;
    }
    proof {
        let part = rest.take(to - from);
        if to > from {
            assert(part.last() == chars@[to - 1]);
        }
        assert(blank_tail(part) == 0);
    }
    let mut i: usize = from;
    while i < to
        invariant
            from <= i <= to <= chars.len(),
            out@ == old(out)@ + chars@.subrange(from as int, i as int),
        decreases to - i,
    {
        out.push(chars[i]);
        proof {
            assert(chars@.subrange(from as int, i + 1) =~= chars@.subrange(
                from as int,
                i as int,
            ).push(chars@[i as int]));
        }
        i += 1;
    }
    proof {
        assert(chars@.subrange(from as int, to as int) =~= rest.take(to - from));
    }
}

/// The usage of the program named `bin`.
pub fn usage(bin: &str) -> (text: String)
    ensures
        text@ == usage_text(bin@),
{
    let mut text = String::new();
    text.append("Usage: ");
    text.append(bin);
    text.append(" [OPTIONS] [FILTER]...\n\n");
    push_trimmed(&mut text, OPTIONS_HELP);
    text.append("\n\n");
    push_trimmed(&mut text, AFTER_HELP);
    proof {
        assert(text@ =~= usage_text(bin@));
    }
    text
}

/// The name of the unstable feature that opens the options still under trial.
pub const UNSTABLE_OPTIONS: &'static str = "unstable-options";

/// Why a text is not a number of threads.
#[derive(Copy, Clone, Debug, PartialEq, Eq, Structural)]
pub enum NumberFault {
    Empty,
    InvalidDigit,
    PosOverflow,
    Zero,
}

impl NumberFault {
    pub open spec fn text(self) -> Seq<char> {
        match self {
            NumberFault::Empty => "cannot parse integer from empty string"@,
            NumberFault::InvalidDigit => "invalid digit found in string"@,
            NumberFault::PosOverflow => "number too large to fit in target type"@,
            NumberFault::Zero => "number would be zero for non-zero type"@,
        }
    }

    /// The message for the user.
    pub fn message(&self) -> (text: &'static str)
        ensures
            text@ == self.text(),
    {
        match self {
            NumberFault::Empty => "cannot parse integer from empty string",
            NumberFault::InvalidDigit => "invalid digit found in string",
            NumberFault::PosOverflow => "number too large to fit in target type",
            NumberFault::Zero => "number would be zero for non-zero type",
        }
    }
}

/// The value of a decimal digit, and none for another character.
pub open spec fn digit_value(c: char) -> Option<nat> {
    if c == '0' {
        Some(0)
    } else if c == '1' {
        Some(1)
    } else if c == '2' {
        Some(2)
    } else if c == '3' {
        Some(3)
    } else if c == '4' {
        Some(4)
    } else if c == '5' {
        Some(5)
    } else if c == '6' {
        Some(6)
    } else if c == '7' {
        Some(7)
    } else if c == '8' {
        Some(8)
    } else if c == '9' {
        Some(9)
    } else {
        None
    }
}

/// Reads `digits` from the left onto the number `so_far`; the first character that is no
/// digit, or the first digit with which the number no longer fits a machine word, ends
/// the reading.
pub open spec fn read_digits(digits: Seq<char>, so_far: nat) -> Result<nat, NumberFault>
    decreases digits.len(),
{
    if digits.len() == 0 {
        Ok(so_far)
    } else {
        match digit_value(digits[0]) {
            None => Err(NumberFault::InvalidDigit),
            Some(d) => if so_far * 10 + d > usize::MAX {
                Err(NumberFault::PosOverflow)
            } else {
                read_digits(digits.skip(1), so_far * 10 + d)
            },
        }
    }
}

/// The number of threads that `text` stands for: a decimal numeral, with a plus sign in
/// front or without, that is not zero.
pub open spec fn thread_number(text: Seq<char>) -> Result<usize, NumberFault> {
    if text.len() == 0 {
        Err(NumberFault::Empty)
    } else if text.len() == 1 && (text[0] == '+' || text[0] == '-') {
        Err(NumberFault::InvalidDigit)
    } else {
        match read_digits(
            if text[0] == '+' {
                text.skip(1)
            } else {
                text
            },
            0,
        ) {
            Err(fault) => Err(fault),
            Ok(n) => if n == 0 {
                Err(NumberFault::Zero)
            } else {
                Ok(n as usize)
            },
        }
    }
}

fn digit_of(c: char) -> (d: Option<u8>)
    ensures
        match d {
            Some(d) => digit_value(c) == Some(d as nat),
            None => digit_value(c) is None,
        },
{
    if c == '0' {
        Some(0)
    } else if c == '1' {
        Some(1)
    } else if c == '2' {
        Some(2)
    } else if c == '3' {
        Some(3)
    } else if c == '4' {
        Some(4)
    } else if c == '5' {
        Some(5)
    } else if c == '6' {
        Some(6)
    } else if c == '7' {
        Some(7)
    } else if c == '8' {
        Some(8)
    } else if c == '9' {
        Some(9)
    } else {
        None
    }
}

/// Reads a number of threads.
pub fn parse_threads(text: &str) -> (r: Result<usize, NumberFault>)
    ensures
        r == thread_number(text@),
{
    let chars = to_chars(text);
    if chars.len() == 0 {
        return Err(NumberFault::Empty);
    }
    if chars.len() == 1 && (chars[0] == '+' || chars[0] == '-') {
        return Err(NumberFault::InvalidDigit);
    }
    let from: usize = if chars[0] == '+' {
        1
    } else {
        0
    };
    let ghost digits = if chars@[0] == '+' {
        chars@.skip(1)
    } else {
        chars@
    };
    let mut so_far: usize = 0;
    let mut i: usize = from;
    proof {
        assert(chars@.skip(0) =~= chars@);
    }
    while i < chars.len()
        invariant
            from <= i <= chars.len(),
            chars@ == text@,
            chars.len() > 0,
            !(chars.len() == 1 && (chars@[0] == '+' || chars@[0] == '-')),
            from == if chars@[0] == '+' {
                1int
            } else {
                0int
            },
            digits == chars@.skip(from as int),
            read_digits(digits, 0) == read_digits(chars@.skip(i as int), so_far as nat),
        decreases chars.len() - i,
    {
        proof {
            assert(chars@.skip(0) =~= chars@);
            assert(chars@.skip(i as int)[0] == chars@[i as int]);
            assert(chars@.skip(i as int).skip(1) =~= chars@.skip(i + 1));
        }
        match digit_of(chars[i]) {
            None => {
                return Err(NumberFault::InvalidDigit);
            },
            Some(d) => {
                let next: u128 = (so_far as u128) * 10 + (d as u128);
                if next > usize::MAX as u128 {
                    return Err(NumberFault::PosOverflow);
                }
                so_far = next as usize;
            },
        }
        i += 1;
    }
    if so_far == 0 {
        Err(NumberFault::Zero)
    } else {
        Ok(so_far)
    }
}

/// What an argument means to the options.
#[derive(Copy, Clone, Debug, PartialEq, Eq, Structural)]
pub enum Opt {
    IncludeIgnored,
    Ignored,
    Test,
    Bench,
    List,
    NoCapture,
    TestThreads,
    Skip,
    Exact,
    FailFast,
    Color,
    Quiet,
    Format,
    ShowOutput,
    Unstable,
    Filter,
    /// An argument that the options do not know.
    Other,
}

/// What `arg` means to the options.
#[verifier::opaque]
pub open spec fn opt_of(arg: ArgView) -> Opt {
    match arg {
        ArgView::Long(name) => if name == "include-ignored"@ {
            Opt::IncludeIgnored
        } else if name == "ignored"@ {
            Opt::Ignored
        } else if name == "test"@ {
            Opt::Test
        } else if name == "bench"@ {
            Opt::Bench
        } else if name == "list"@ {
            Opt::List
        } else if name == "no-capture"@ {
            Opt::NoCapture
        } else if name == "test-threads"@ {
            Opt::TestThreads
        } else if name == "skip"@ {
            Opt::Skip
        } else if name == "exact"@ {
            Opt::Exact
        } else if name == "fail-fast"@ {
            Opt::FailFast
        } else if name == "color"@ {
            Opt::Color
        } else if name == "quiet"@ {
            Opt::Quiet
        } else if name == "format"@ {
            Opt::Format
        } else if name == "show-output"@ {
            Opt::ShowOutput
        } else {
            Opt::Other
        },
        ArgView::Short(name) => if name == "q"@ {
            Opt::Quiet
        } else if name == "Z"@ {
            Opt::Unstable
        } else {
            Opt::Other
        },
        ArgView::Value(_) => Opt::Filter,
        _ => Opt::Other,
    }
}

/// Whether an option takes a value.
pub open spec fn wants_value(opt: Opt) -> bool {
    opt == Opt::TestThreads || opt == Opt::Skip || opt == Opt::Color || opt == Opt::Format || opt
        == Opt::Unstable
}

/// The value that the options read from `parser` for `arg`: the value that the parser
/// gives, where `arg` is an option that takes one, and none otherwise.
pub open spec fn value_read(parser: lexarg_parser::Parser<'_>, arg: ArgView) -> Option<Seq<char>> {
    if wants_value(opt_of(arg)) {
        crate::cli::value_turn(parser).0
    } else {
        None
    }
}

/// The parser after the options have taken `arg`: behind the value, where `arg` is an
/// option that takes one, and where it was otherwise.
pub open spec fn parser_behind(parser: lexarg_parser::Parser<'_>, arg: ArgView) -> lexarg_parser::Parser<'static> {
    if wants_value(opt_of(arg)) {
        crate::cli::value_turn(parser).1
    } else {
        parser
    }
}

fn is(text: &String, word: &str) -> (same: bool)
    ensures
        same == (text@ == word@),
{
    *text == word.to_owned()
}

fn classify(arg: &Arg) -> (opt: Opt)
    ensures
        opt == opt_of(arg@),
{
    reveal(opt_of);
    match arg {
        Arg::Long(name) => if is(name, "include-ignored") {
            Opt::IncludeIgnored
        } else if is(name, "ignored") {
            Opt::Ignored
        } else if is(name, "test") {
            Opt::Test
        } else if is(name, "bench") {
            Opt::Bench
        } else if is(name, "list") {
            Opt::List
        } else if is(name, "no-capture") {
            Opt::NoCapture
        } else if is(name, "test-threads") {
            Opt::TestThreads
        } else if is(name, "skip") {
            Opt::Skip
        } else if is(name, "exact") {
            Opt::Exact
        } else if is(name, "fail-fast") {
            Opt::FailFast
        } else if is(name, "color") {
            Opt::Color
        } else if is(name, "quiet") {
            Opt::Quiet
        } else if is(name, "format") {
            Opt::Format
        } else if is(name, "show-output") {
            Opt::ShowOutput
        } else {
            Opt::Other
        },
        Arg::Short(name) => if is(name, "q") {
            Opt::Quiet
        } else if is(name, "Z") {
            Opt::Unstable
        } else {
            Opt::Other
        },
        Arg::Value(_) => Opt::Filter,
        _ => Opt::Other,
    }
}

fn needs_value(opt: Opt) -> (yes: bool)
    ensures
        yes == wants_value(opt),
{
    match opt {
        Opt::TestThreads => true,
        Opt::Skip => true,
        Opt::Color => true,
        Opt::Format => true,
        Opt::Unstable => true,
        _ => false,
    }
}

/// The state of parsing the options, as plain values.
pub struct BuilderView {
    pub opts: TestOptsView,
    pub quiet: bool,
    pub format: Option<OutputFormat>,
    pub include_ignored: bool,
    pub ignored: bool,
    pub nightly: bool,
}

/// The placeholder that stands for the value of an option in messages.
pub open spec fn placeholder(opt: Opt) -> Seq<char> {
    match opt {
        Opt::TestThreads => "NUM"@,
        Opt::Skip => "NAME"@,
        Opt::Color => "WHEN"@,
        Opt::Format => "FORMAT"@,
        _ => "FEATURE"@,
    }
}

/// The error for an option whose value is missing.
pub open spec fn missing_value(opt: Opt, arg: ArgView) -> LexErrorView {
    LexErrorView {
        msg: "missing required `"@ + placeholder(opt) + "`"@,
        within: Some(arg),
        unexpected: None,
    }
}

/// The color setting that a word names.
pub open spec fn color_named(word: Seq<char>) -> Option<ColorConfig> {
    if word == "auto"@ {
        Some(ColorConfig::AutoColor)
    } else if word == "always"@ {
        Some(ColorConfig::AlwaysColor)
    } else if word == "never"@ {
        Some(ColorConfig::NeverColor)
    } else {
        None
    }
}

/// The format that a word names.
pub open spec fn format_named(word: Seq<char>) -> Option<OutputFormat> {
    if word == "pretty"@ {
        Some(OutputFormat::Pretty)
    } else if word == "terse"@ {
        Some(OutputFormat::Terse)
    } else if word == "json"@ {
        Some(OutputFormat::Json)
    } else {
        None
    }
}

/// The error that `arg` with the value `value` gives, if it gives one.
pub open spec fn take_error(state: BuilderView, arg: ArgView, value: Option<Seq<char>>) -> Option<
    LexErrorView,
> {
    let opt = opt_of(arg);
    if !wants_value(opt) {
        None
    } else {
        match value {
            None => Some(missing_value(opt, arg)),
            Some(word) => word_error(opt, word, state.nightly, arg),
        }
    }
}

/// The options with the switch `opt` on.
pub open spec fn with_switch(opts: TestOptsView, opt: Opt) -> TestOptsView {
    match opt {
        Opt::Test => TestOptsView { run_tests: true, ..opts },
        Opt::Bench => TestOptsView { bench_benchmarks: true, ..opts },
        Opt::List => TestOptsView { list: true, ..opts },
        Opt::NoCapture => TestOptsView { no_capture: true, ..opts },
        Opt::Exact => TestOptsView { filter_exact: true, ..opts },
        Opt::FailFast => TestOptsView { fail_fast: true, ..opts },
        Opt::ShowOutput => TestOptsView { show_output: true, ..opts },
        _ => opts,
    }
}

/// The options with another text in one of their lists: a skip pattern, an unstable
/// feature, or a filter.
pub open spec fn with_text(opts: TestOptsView, opt: Opt, text: Seq<char>) -> TestOptsView {
    match opt {
        Opt::Skip => TestOptsView { skip: opts.skip.push(text), ..opts },
        Opt::Unstable => TestOptsView {
            allowed_unstable: opts.allowed_unstable.push(text),
            ..opts
        },
        Opt::Filter => TestOptsView { filters: opts.filters.push(text), ..opts },
        _ => opts,
    }
}

/// The state with one of its own switches on.
pub open spec fn own_switch(state: BuilderView, opt: Opt) -> BuilderView {
    match opt {
        Opt::IncludeIgnored => BuilderView { include_ignored: true, ..state },
        Opt::Ignored => BuilderView { ignored: true, ..state },
        Opt::Quiet => BuilderView { format: None, quiet: true, ..state },
        _ => state,
    }
}

/// The state after a positional argument, which is a filter.
pub open spec fn after_filter(state: BuilderView, arg: ArgView) -> BuilderView {
    match arg {
        ArgView::Value(filter) => BuilderView {
            opts: with_text(state.opts, Opt::Filter, filter),
            ..state
        },
        _ => state,
    }
}

/// Whether `opt` is a switch that the state keeps itself.
pub open spec fn is_own(opt: Opt) -> bool {
    opt == Opt::IncludeIgnored || opt == Opt::Ignored || opt == Opt::Quiet
}

/// The state after an option that takes no value.
pub open spec fn after_plain(state: BuilderView, arg: ArgView) -> BuilderView {
    let opt = opt_of(arg);
    if opt == Opt::Other {
        state
    } else if opt == Opt::Filter {
        after_filter(state, arg)
    } else if is_own(opt) {
        own_switch(state, opt)
    } else {
        BuilderView { opts: with_switch(state.opts, opt), ..state }
    }
}

/// The state after an option that takes a value, and got the good value `word`.
pub open spec fn after_valued(state: BuilderView, opt: Opt, word: Seq<char>) -> BuilderView {
    match opt {
        Opt::Format => BuilderView { quiet: false, format: format_named(word), ..state },
        _ => BuilderView { opts: with_valued(state.opts, opt, word), ..state },
    }
}

/// The state after `arg` with the value `value`. An argument that gives an error leaves
/// the state as it is, but for `--format`, which ends the effect of `--quiet` first.
pub open spec fn take_state(state: BuilderView, arg: ArgView, value: Option<Seq<char>>) -> BuilderView {
    let opt = opt_of(arg);
    if take_error(state, arg, value) is Some {
        if opt == Opt::Format {
            BuilderView { quiet: false, ..state }
        } else {
            state
        }
    } else if wants_value(opt) {
        match value {
            Some(word) => after_valued(state, opt, word),
            None => state,
        }
    } else {
        after_plain(state, arg)
    }
}

/// What taking `arg` gives: the error, or nothing for an argument that was taken, or the
/// argument itself where the options do not know it.
pub open spec fn take_result(state: BuilderView, arg: ArgView, value: Option<Seq<char>>) -> Result<
    Option<ArgView>,
    LexErrorView,
> {
    match take_error(state, arg, value) {
        Some(error) => Err(error),
        None => if opt_of(arg) == Opt::Other {
            Ok(Some(arg))
        } else {
            Ok(None)
        },
    }
}

/// The options that parsing ends with, or why the arguments do not go together.
pub open spec fn finished(state: BuilderView) -> Result<TestOptsView, LexErrorView> {
    let opts = state.opts;
    let unstable = exists|i: int|
        0 <= i < opts.allowed_unstable.len() && #[trigger] opts.allowed_unstable[i]
            == UNSTABLE_OPTIONS@;
    if state.format is Some && !unstable {
        Err(
            LexErrorView {
                msg: "`--format` requires `-Zunstable-options`"@,
                within: None,
                unexpected: None,
            },
        )
    } else if state.include_ignored && state.ignored {
        Err(
            LexErrorView {
                msg: "`--include-ignored` and `--ignored` are mutually exclusive"@,
                within: None,
                unexpected: None,
            },
        )
    } else {
        Ok(
            TestOptsView {
                format: match state.format {
                    Some(format) => format,
                    None => if state.quiet {
                        OutputFormat::Terse
                    } else {
                        opts.format
                    },
                },
                run_tests: opts.run_tests || !opts.bench_benchmarks,
                run_ignored: if state.include_ignored {
                    RunIgnored::Yes
                } else if state.ignored {
                    RunIgnored::Only
                } else {
                    RunIgnored::No
                },
                ..opts
            },
        )
    }
}

/// The state of parsing the options.
#[derive(Debug)]
pub struct TestOptsBuilder {
    opts: TestOpts,
    quiet: bool,
    format: Option<OutputFormat>,
    include_ignored: bool,
    ignored: bool,
    nightly: bool,
}

impl View for TestOptsBuilder {
    type V = BuilderView;

    closed spec fn view(&self) -> BuilderView {
        BuilderView {
            opts: self.opts@,
            quiet: self.quiet,
            format: self.format,
            include_ignored: self.include_ignored,
            ignored: self.ignored,
            nightly: self.nightly,
        }
    }
}

/// The result of a step of parsing, as plain values.
pub open spec fn step_view(r: Result<Option<Arg>, LexError>) -> Result<Option<ArgView>, LexErrorView> {
    match r {
        Ok(Some(arg)) => Ok(Some(arg@)),
        Ok(None) => Ok(None),
        Err(error) => Err(error@),
    }
}

/// The result of parsing, as plain values.
pub open spec fn opts_view(r: Result<TestOpts, LexError>) -> Result<TestOptsView, LexErrorView> {
    match r {
        Ok(opts) => Ok(opts@),
        Err(error) => Err(error@),
    }
}

/// An optional text as plain values.
pub open spec fn word_view(word: Option<String>) -> Option<Seq<char>> {
    match word {
        Some(word) => Some(word@),
        None => None,
    }
}

fn color_of(word: &String) -> (color: Option<ColorConfig>)
    ensures
        color == color_named(word@),
{
    if is(word, "auto") {
        Some(ColorConfig::AutoColor)
    } else if is(word, "always") {
        Some(ColorConfig::AlwaysColor)
    } else if is(word, "never") {
        Some(ColorConfig::NeverColor)
    } else {
        None
    }
}

fn format_of(word: &String) -> (format: Option<OutputFormat>)
    ensures
        format == format_named(word@),
{
    if is(word, "pretty") {
        Some(OutputFormat::Pretty)
    } else if is(word, "terse") {
        Some(OutputFormat::Terse)
    } else if is(word, "json") {
        Some(OutputFormat::Json)
    } else {
        None
    }
}

fn placeholder_of(opt: Opt) -> (word: &'static str)
    ensures
        word@ == placeholder(opt),
{
    match opt {
        Opt::TestThreads => "NUM",
        Opt::Skip => "NAME",
        Opt::Color => "WHEN",
        Opt::Format => "FORMAT",
        _ => "FEATURE",
    }
}

fn missing(opt: Opt, arg: Arg) -> (error: LexError)
    ensures
        error@ == missing_value(opt, arg@),
{
    let mut msg = String::new();
    msg.append("missing required `");
    msg.append(placeholder_of(opt));
    msg.append("`");
    proof {
        assert(msg@ =~= "missing required `"@ + placeholder(opt) + "`"@);
    }
    LexError::msg(msg.as_str()).within(arg)
}

fn is_other(opt: Opt) -> (yes: bool)
    ensures
        yes == (opt == Opt::Other),
{
    match opt {
        Opt::Other => true,
        _ => false,
    }
}

fn is_filter(opt: Opt) -> (yes: bool)
    ensures
        yes == (opt == Opt::Filter),
{
    match opt {
        Opt::Filter => true,
        _ => false,
    }
}

fn own(opt: Opt) -> (yes: bool)
    ensures
        yes == is_own(opt),
{
    match opt {
        Opt::IncludeIgnored => true,
        Opt::Ignored => true,
        Opt::Quiet => true,
        _ => false,
    }
}

fn set_switch(opts: &mut TestOpts, opt: Opt)
    ensures
        final(opts)@ == with_switch(old(opts)@, opt),
{
    match opt {
        Opt::Test => {
            opts.run_tests = true;
        },
        Opt::Bench => {
            opts.bench_benchmarks = true;
        },
        Opt::List => {
            opts.list = true;
        },
        Opt::NoCapture => {
            opts.no_capture = true;
        },
        Opt::Exact => {
            opts.filter_exact = true;
        },
        Opt::FailFast => {
            opts.fail_fast = true;
        },
        Opt::ShowOutput => {
            opts.show_output = true;
        },
        _ => {},
    }
}

fn push_text(opts: &mut TestOpts, opt: Opt, text: String)
    ensures
        final(opts)@ == with_text(old(opts)@, opt, text@),
{
    match opt {
        Opt::Skip => {
            proof {
                assert(texts(opts.skip@.push(text)) =~= texts(opts.skip@).push(text@));
            }
            opts.skip.push(text);
        },
        Opt::Unstable => {
            proof {
                assert(texts(opts.allowed_unstable@.push(text)) =~= texts(
                    opts.allowed_unstable@,
                ).push(text@));
            }
            opts.allowed_unstable.push(text);
        },
        Opt::Filter => {
            proof {
                assert(texts(opts.filters@.push(text)) =~= texts(opts.filters@).push(text@));
            }
            opts.filters.push(text);
        },
        _ => {},
    }
}

/// The options after an option with a good value, as far as the value goes into the
/// options themselves.
pub open spec fn with_valued(opts: TestOptsView, opt: Opt, word: Seq<char>) -> TestOptsView {
    match opt {
        Opt::TestThreads => TestOptsView {
            test_threads: match thread_number(word) {
                Ok(threads) => Some(threads),
                Err(_) => None,
            },
            ..opts
        },
        Opt::Color => TestOptsView {
            color: match color_named(word) {
                Some(color) => color,
                None => opts.color,
            },
            ..opts
        },
        _ => with_text(opts, opt, word),
    }
}

fn set_valued(opts: &mut TestOpts, opt: Opt, word: String)
    ensures
        final(opts)@ == with_valued(old(opts)@, opt, word@),
{
    match opt {
        Opt::TestThreads => {
            opts.test_threads = match parse_threads(word.as_str()) {
                Ok(threads) => Some(threads),
                Err(_) => None,
            };
        },
        Opt::Color => {
            match color_of(&word) {
                Some(color) => {
                    opts.color = color;
                },
                None => {},
            }
        },
        _ => {
            push_text(opts, opt, word);
        },
    }
}

/// The error that the value `word` of an option gives, if it gives one.
pub open spec fn word_error(opt: Opt, word: Seq<char>, nightly: bool, arg: ArgView) -> Option<
    LexErrorView,
> {
    match opt {
        Opt::TestThreads => match thread_number(word) {
            Err(fault) => Some(
                LexErrorView {
                    msg: fault.text(),
                    within: Some(arg),
                    unexpected: Some(ArgView::Value(word)),
                },
            ),
            Ok(_) => None,
        },
        Opt::Color => if color_named(word) is None {
            Some(
                LexErrorView {
                    msg: "expected one of `auto`, `always`, `never`"@,
                    within: Some(arg),
                    unexpected: None,
                },
            )
        } else {
            None
        },
        Opt::Format => if format_named(word) is None {
            Some(
                LexErrorView {
                    msg: "expected one of `pretty`, `terse`, `json`"@,
                    within: Some(arg),
                    unexpected: None,
                },
            )
        } else {
            None
        },
        Opt::Unstable => if !nightly {
            Some(
                LexErrorView {
                    msg: "expected nightly compiler"@,
                    within: None,
                    unexpected: Some(arg),
                },
            )
        } else {
            None
        },
        _ => None,
    }
}

fn value_error(opt: Opt, word: &String, nightly: bool, arg: Arg) -> (error: Option<LexError>)
    ensures
        match error {
            Some(error) => word_error(opt, word@, nightly, arg@) == Some(error@),
            None => word_error(opt, word@, nightly, arg@) is None,
        },
{
    match opt {
        Opt::TestThreads => match parse_threads(word.as_str()) {
            Ok(_) => None,
            Err(fault) => Some(
                LexError::msg(fault.message()).unexpected(Arg::Value(word.clone())).within(arg),
            ),
        },
        Opt::Color => match color_of(word) {
            Some(_) => None,
            None => Some(LexError::msg("expected one of `auto`, `always`, `never`").within(arg)),
        },
        Opt::Format => match format_of(word) {
            Some(_) => None,
            None => Some(LexError::msg("expected one of `pretty`, `terse`, `json`").within(arg)),
        },
        Opt::Unstable => if !nightly {
            Some(LexError::msg("expected nightly compiler").unexpected(arg))
        } else {
            None
        },
        _ => None,
    }
}

impl TestOptsBuilder {
    /// The state before the first argument. Unstable features are allowed.
    pub fn new() -> (builder: Self)
        ensures
            builder@ == (BuilderView {
                opts: default_opts(),
                quiet: false,
                format: None,
                include_ignored: false,
                ignored: false,
                nightly: true,
            }),
    {
        TestOptsBuilder {
            opts: TestOpts::default(),
            quiet: false,
            format: None,
            include_ignored: false,
            ignored: false,
            nightly: true,
        }
    }

    /// Tells whether the compiler at hand allows unstable features.
    pub fn nightly(self, yes: bool) -> (builder: Self)
        ensures
            builder@ == (BuilderView { nightly: yes, ..self@ }),
    {
        TestOptsBuilder {
            opts: self.opts,
            quiet: self.quiet,
            format: self.format,
            include_ignored: self.include_ignored,
            ignored: self.ignored,
            nightly: yes,
        }
    }

    /// Takes an option with its value.
    fn take_valued(&mut self, opt: Opt, arg: Arg, value: Option<String>) -> (r: Result<
        Option<Arg>,
        LexError,
    >)
        requires
            opt == opt_of(arg@),
            wants_value(opt),
        ensures
            final(self)@ == take_state(old(self)@, arg@, word_view(value)),
            step_view(r) == take_result(old(self)@, arg@, word_view(value)),
    {
        if let Opt::Format = opt {
            self.quiet = false;
        }
        let word = match value {
            Some(word) => word,
            None => {
                return Err(missing(opt, arg));
            },
        };
        match value_error(opt, &word, self.nightly, arg) {
            Some(error) => Err(error),
            None => {
                match opt {
                    Opt::Format => {
                        self.format = format_of(&word);
                    },
                    _ => {
                        set_valued(&mut self.opts, opt, word);
                    },
                }
                Ok(None)
            },
        }
    }

    fn set_own(&mut self, opt: Opt)
        ensures
            final(self)@ == own_switch(old(self)@, opt),
    {
        match opt {
            Opt::IncludeIgnored => {
                self.include_ignored = true;
            },
            Opt::Ignored => {
                self.ignored = true;
            },
            Opt::Quiet => {
                self.format = None;
                self.quiet = true;
            },
            _ => {},
        }
    }

    fn take_filter(&mut self, arg: Arg)
        ensures
            final(self)@ == after_filter(old(self)@, arg@),
    {
        match arg {
            Arg::Value(filter) => {
                push_text(&mut self.opts, Opt::Filter, filter);
            },
            _ => {},
        }
    }

    fn set_shared(&mut self, opt: Opt)
        ensures
            final(self)@ == (BuilderView { opts: with_switch(old(self)@.opts, opt), ..old(self)@ }),
    {
        set_switch(&mut self.opts, opt);
    }

    /// Takes an option that has no value, or a filter.
    fn take_plain(&mut self, opt: Opt, arg: Arg) -> (r: Result<Option<Arg>, LexError>)
        requires
            opt == opt_of(arg@),
            !wants_value(opt),
        ensures
            final(self)@ == take_state(old(self)@, arg@, None),
            step_view(r) == take_result(old(self)@, arg@, None),
    {
        if is_other(opt) {
            Ok(Some(arg))
        } else if is_filter(opt) {
            self.take_filter(arg);
            Ok(None)
        } else if own(opt) {
            self.set_own(opt);
            Ok(None)
        } else {
            self.set_shared(opt);
            Ok(None)
        }
    }

    /// Takes `arg` into the options. `value` is the value that the command line gives to
    /// `arg`; it is read only where `arg` is an option that takes one. An argument that
    /// the options do not know is handed back.
    pub fn take(&mut self, arg: Arg, value: Option<String>) -> (r: Result<Option<Arg>, LexError>)
        ensures
            final(self)@ == take_state(
                old(self)@,
                arg@,
                if wants_value(opt_of(arg@)) {
                    word_view(value)
                } else {
                    None
                },
            ),
            step_view(r) == take_result(
                old(self)@,
                arg@,
                if wants_value(opt_of(arg@)) {
                    word_view(value)
                } else {
                    None
                },
            ),
    {
        let opt = classify(&arg);
        if needs_value(opt) {
            self.take_valued(opt, arg, value)
        } else {
            self.take_plain(opt, arg)
        }
    }

    /// Checks whether `arg` means something to the options, and takes it if it does. The
    /// value of an option is read from `parser`; for an argument that takes no value the
    /// parser is left as it was.
    pub fn parse_next(&mut self, parser: &mut lexarg_parser::Parser<'_>, arg: Arg) -> (r: Result<
        Option<Arg>,
        LexError,
    >)
        ensures
            crate::cli::pending(*final(parser)) <= crate::cli::pending(*old(parser)),
            *final(parser) == parser_behind(*old(parser), arg@),
            final(self)@ == take_state(old(self)@, arg@, value_read(*old(parser), arg@)),
            step_view(r) == take_result(old(self)@, arg@, value_read(*old(parser), arg@)),
    {
        let opt = classify(&arg);
        if needs_value(opt) {
            let value = next_flag_value(parser);
            proof {
                assert(word_view(value) == crate::event::text_view(value));
            }
            self.take_valued(opt, arg, value)
        } else {
            self.take_plain(opt, arg)
        }
    }

    /// Ends the parsing: the options, or why the arguments do not go together.
    pub fn finish(self) -> (r: Result<TestOpts, LexError>)
        ensures
            opts_view(r) == finished(self@),
    {
        let mut this = self;
        let mut unstable = false;
        let mut i: usize = 0;
        while i < this.opts.allowed_unstable.len()
            invariant
                i <= this.opts.allowed_unstable.len(),
                this == self,
                unstable == exists|k: int|
                    0 <= k < i && #[trigger] texts(this.opts.allowed_unstable@)[k]
                        == UNSTABLE_OPTIONS@,
            decreases this.opts.allowed_unstable.len() - i,
        {
            proof {
                assert(texts(this.opts.allowed_unstable@)[i as int]
                    == this.opts.allowed_unstable@[i as int]@);
            }
            if is(&this.opts.allowed_unstable[i], UNSTABLE_OPTIONS) {
                unstable = true;
            }
            i += 1;
        }
        if this.format.is_some() && !unstable {
            return Err(LexError::msg("`--format` requires `-Zunstable-options`"));
        }
        if this.include_ignored && this.ignored {
            return Err(LexError::msg("`--include-ignored` and `--ignored` are mutually exclusive"));
        }
        match this.format {
            Some(format) => {
                this.opts.format = format;
            },
            None => {
                if this.quiet {
                    this.opts.format = OutputFormat::Terse;
                }
            },
        }
        this.opts.run_tests = this.opts.run_tests || !this.opts.bench_benchmarks;
        this.opts.run_ignored = if this.include_ignored {
            RunIgnored::Yes
        } else if this.ignored {
            RunIgnored::Only
        } else {
            RunIgnored::No
        };
        Ok(this.opts)
    }
}

} // verus!
