use libtest2::cli::Arg;
use libtest2::cli::Error;
use libtest2::cli::LexError;
use libtest2::harness::parse_args;
use libtest2::harness::resolve_threads;
use libtest2::harness::role;
use libtest2::harness::Parallelism;
use libtest2::harness::ParseStop;
use libtest2::harness::Role;
use libtest2::opts::parse_threads;
use libtest2::opts::usage;
use libtest2::opts::ColorConfig;
use libtest2::opts::NumberFault;
use libtest2::opts::OutputFormat;
use libtest2::opts::RunIgnored;
use libtest2::opts::TestOpts;
use libtest2::opts::TestOptsBuilder;
use libtest2::opts::AFTER_HELP;
use libtest2::opts::OPTIONS_HELP;
use libtest2::opts::UNSTABLE_OPTIONS;

fn parse(args: &[&str]) -> Result<TestOpts, ParseStop> {
    let mut line = vec!["bin".to_owned()];
    line.extend(args.iter().map(|arg| (*arg).to_owned()));
    parse_args(&line, Parallelism::Available(Some(3)), true)
}

fn invalid(args: &[&str]) -> String {
    match parse(args) {
        Err(ParseStop::Invalid(error)) => error.to_text(),
        Err(ParseStop::Help(_)) => panic!("help"),
        Ok(opts) => panic!("valid: {opts:?}"),
    }
}

fn long(name: &str) -> Arg {
    Arg::Long(name.to_owned())
}

fn word(text: &str) -> Option<String> {
    Some(text.to_owned())
}

#[test]
fn a_command_line_without_arguments_gives_the_defaults() {
    let opts = parse(&[]).unwrap();
    assert!(!opts.list);
    assert!(opts.filters.is_empty());
    assert!(!opts.filter_exact);
    assert_eq!(opts.run_ignored, RunIgnored::No);
    assert!(opts.run_tests);
    assert!(!opts.bench_benchmarks);
    assert!(!opts.no_capture);
    assert!(!opts.show_output);
    assert_eq!(opts.color, ColorConfig::AutoColor);
    assert_eq!(opts.format, OutputFormat::Pretty);
    assert_eq!(opts.test_threads, Some(3));
    assert!(opts.skip.is_empty());
    assert!(!opts.fail_fast);
    assert!(opts.allowed_unstable.is_empty());
    assert_eq!(RunIgnored::default(), RunIgnored::No);
    assert_eq!(ColorConfig::default(), ColorConfig::AutoColor);
    assert_eq!(OutputFormat::default(), OutputFormat::Pretty);
}

#[test]
fn every_option_is_taken() {
    let opts = parse(&[
        "--include-ignored",
        "--bench",
        "--list",
        "--no-capture",
        "--test-threads=7",
        "--skip",
        "slow",
        "--skip=slower",
        "--exact",
        "--fail-fast",
        "--color",
        "never",
        "--show-output",
        "-Zunstable-options",
        "-Z",
        "other",
        "--format",
        "json",
        "first",
        "second",
        "--",
        "--third",
    ])
    .unwrap();
    assert!(opts.list);
    assert_eq!(opts.filters, vec!["first", "second", "--third"]);
    assert!(opts.filter_exact);
    assert_eq!(opts.run_ignored, RunIgnored::Yes);
    assert!(!opts.run_tests);
    assert!(opts.bench_benchmarks);
    assert!(opts.no_capture);
    assert!(opts.show_output);
    assert_eq!(opts.color, ColorConfig::NeverColor);
    assert_eq!(opts.format, OutputFormat::Json);
    assert_eq!(opts.test_threads, Some(7));
    assert_eq!(opts.skip, vec!["slow", "slower"]);
    assert!(opts.fail_fast);
    assert_eq!(opts.allowed_unstable, vec![UNSTABLE_OPTIONS, "other"]);
}

#[test]
fn quiet_and_format_overrule_each_other() {
    assert_eq!(parse(&["--quiet"]).unwrap().format, OutputFormat::Terse);
    assert_eq!(parse(&["-q"]).unwrap().format, OutputFormat::Terse);
    assert_eq!(
        parse(&["-Zunstable-options", "-q", "--format=pretty"]).unwrap().format,
        OutputFormat::Pretty
    );
    assert_eq!(
        parse(&["-Zunstable-options", "--format=json", "-q"]).unwrap().format,
        OutputFormat::Terse
    );
    assert_eq!(
        parse(&["-Zunstable-options", "--format=terse"]).unwrap().format,
        OutputFormat::Terse
    );
}

#[test]
fn test_and_bench_are_both_kept() {
    let opts = parse(&["--test", "--bench"]).unwrap();
    assert!(opts.run_tests && opts.bench_benchmarks);
    let opts = parse(&["--test"]).unwrap();
    assert!(opts.run_tests && !opts.bench_benchmarks);
    assert_eq!(parse(&["--ignored"]).unwrap().run_ignored, RunIgnored::Only);
    assert_eq!(parse(&["--color=always"]).unwrap().color, ColorConfig::AlwaysColor);
    assert_eq!(parse(&["--color=auto"]).unwrap().color, ColorConfig::AutoColor);
}

#[test]
fn errors_of_the_command_line() {
    assert_eq!(invalid(&["--test-threads"]), "missing required `NUM` when parsing `--test-threads`");
    assert_eq!(
        invalid(&["--test-threads", "0"]),
        "number would be zero for non-zero type, found `0` when parsing `--test-threads`"
    );
    assert_eq!(
        invalid(&["--test-threads=x1"]),
        "invalid digit found in string, found `x1` when parsing `--test-threads`"
    );
    assert_eq!(
        invalid(&["--test-threads="]),
        "cannot parse integer from empty string, found `` when parsing `--test-threads`"
    );
    assert_eq!(
        invalid(&["--test-threads=99999999999999999999999999"]),
        "number too large to fit in target type, found `99999999999999999999999999` when parsing `--test-threads`"
    );
    assert_eq!(invalid(&["--skip"]), "missing required `NAME` when parsing `--skip`");
    assert_eq!(invalid(&["--color"]), "missing required `WHEN` when parsing `--color`");
    assert_eq!(
        invalid(&["--color", "blue"]),
        "expected one of `auto`, `always`, `never` when parsing `--color`"
    );
    assert_eq!(invalid(&["--format"]), "missing required `FORMAT` when parsing `--format`");
    assert_eq!(
        invalid(&["--format=xml"]),
        "expected one of `pretty`, `terse`, `json` when parsing `--format`"
    );
    assert_eq!(invalid(&["--format=json"]), "`--format` requires `-Zunstable-options`");
    assert_eq!(invalid(&["-Z"]), "missing required `FEATURE` when parsing `-Z`");
    assert_eq!(
        invalid(&["--include-ignored", "--ignored"]),
        "`--include-ignored` and `--ignored` are mutually exclusive"
    );
    assert_eq!(invalid(&["--unknown"]), "unexpected argument, found `--unknown`");
    assert_eq!(invalid(&["-x"]), "unexpected argument, found `-x`");
    assert_eq!(
        invalid(&["--list=yes"]),
        "unexpected value, found `yes` when parsing `--list`"
    );
}

#[test]
fn help_stops_the_parsing() {
    assert!(matches!(parse(&["--list", "--help", "--unknown"]), Err(ParseStop::Help(bin)) if bin == "bin"));
    assert!(matches!(parse(&["-h"]), Err(ParseStop::Help(_))));
    assert!(matches!(
        parse_args(&Vec::new(), Parallelism::Unsupported, true),
        Ok(opts) if opts.test_threads.is_none()
    ));
    let text = usage("bin");
    assert!(text.starts_with("Usage: bin [OPTIONS] [FILTER]...\n\nOptions:\n        --fail-fast"));
    assert!(text.ends_with("--test-threads flag when running tests (set it to 1)."));
    assert_eq!(
        text,
        format!("Usage: bin [OPTIONS] [FILTER]...\n\n{}\n\n{}", OPTIONS_HELP.trim(), AFTER_HELP.trim())
    );
}

#[test]
fn the_number_of_threads_comes_from_the_command_line_first() {
    let threads = |asked: Option<usize>, offered: Parallelism| {
        let mut opts = TestOpts::default();
        opts.test_threads = asked;
        resolve_threads(&mut opts, offered);
        opts.test_threads
    };
    assert_eq!(threads(Some(2), Parallelism::Available(Some(8))), Some(2));
    assert_eq!(threads(None, Parallelism::Available(Some(8))), Some(8));
    assert_eq!(threads(None, Parallelism::Available(None)), None);
    assert_eq!(threads(None, Parallelism::Available(Some(0))), None);
    assert_eq!(threads(Some(2), Parallelism::Unsupported), None);
    assert_eq!(threads(None, Parallelism::Unsupported), None);
    assert_eq!(parse(&["--test-threads", "5"]).unwrap().test_threads, Some(5));
}

#[test]
fn numbers_of_threads() {
    assert_eq!(parse_threads("1"), Ok(1));
    assert_eq!(parse_threads("+12"), Ok(12));
    assert_eq!(parse_threads("007"), Ok(7));
    assert_eq!(parse_threads(&usize::MAX.to_string()), Ok(usize::MAX));
    assert_eq!(parse_threads(""), Err(NumberFault::Empty));
    assert_eq!(parse_threads("+"), Err(NumberFault::InvalidDigit));
    assert_eq!(parse_threads("-"), Err(NumberFault::InvalidDigit));
    assert_eq!(parse_threads("-1"), Err(NumberFault::InvalidDigit));
    assert_eq!(parse_threads("1 "), Err(NumberFault::InvalidDigit));
    assert_eq!(parse_threads("++1"), Err(NumberFault::InvalidDigit));
    assert_eq!(parse_threads("0"), Err(NumberFault::Zero));
    assert_eq!(parse_threads("+000"), Err(NumberFault::Zero));
    assert_eq!(parse_threads(&format!("{}0", usize::MAX)), Err(NumberFault::PosOverflow));
    assert_eq!(parse_threads("99999999999999999999999999x"), Err(NumberFault::PosOverflow));
    assert_eq!(parse_threads("9x9999999999999999999999999"), Err(NumberFault::InvalidDigit));
    for text in ["1", "+12", "007", "", "+", "-1", "0", "99999999999999999999999999x", "1x"] {
        let expected = text
            .parse::<std::num::NonZeroUsize>()
            .map(|threads| threads.get())
            .map_err(|error| error.to_string());
        let actual = parse_threads(text).map_err(|fault| fault.message().to_owned());
        assert_eq!(actual, expected, "{text}");
    }
}

#[test]
fn the_builder_takes_arguments_one_by_one() {
    let mut builder = TestOptsBuilder::new();
    assert!(matches!(builder.take(long("list"), None), Ok(None)));
    assert!(matches!(builder.take(long("exact"), word("ignored")), Ok(None)));
    assert!(matches!(builder.take(Arg::Value("name".to_owned()), None), Ok(None)));
    assert!(matches!(builder.take(long("skip"), word("slow")), Ok(None)));
    assert!(matches!(builder.take(long("unknown"), None), Ok(Some(Arg::Long(name))) if name == "unknown"));
    assert!(matches!(builder.take(Arg::Short("x".to_owned()), None), Ok(Some(Arg::Short(_)))));
    assert!(matches!(builder.take(Arg::Escape("--".to_owned()), None), Ok(Some(Arg::Escape(_)))));
    assert!(matches!(
        builder.take(Arg::Unexpected("x".to_owned()), None),
        Ok(Some(Arg::Unexpected(_)))
    ));
    let error = builder.take(long("test-threads"), word("none")).unwrap_err();
    assert_eq!(error.msg, "invalid digit found in string");
    assert!(matches!(error.unexpected, Some(Arg::Value(ref text)) if text == "none"));
    assert!(matches!(error.within, Some(Arg::Long(ref text)) if text == "test-threads"));
    let opts = builder.finish().unwrap();
    assert!(opts.list && opts.filter_exact && opts.run_tests);
    assert_eq!(opts.filters, vec!["name"]);
    assert_eq!(opts.skip, vec!["slow"]);
    assert_eq!(opts.test_threads, None);
}

#[test]
fn unstable_features_need_a_nightly_compiler() {
    let mut builder = TestOptsBuilder::new().nightly(false);
    let error = builder.take(Arg::Short("Z".to_owned()), word(UNSTABLE_OPTIONS)).unwrap_err();
    assert_eq!(error.to_text(), "expected nightly compiler, found `-Z`");
    assert!(builder.finish().unwrap().allowed_unstable.is_empty());

    let mut builder = TestOptsBuilder::new().nightly(true);
    assert!(matches!(builder.take(Arg::Short("Z".to_owned()), word(UNSTABLE_OPTIONS)), Ok(None)));
    assert_eq!(builder.finish().unwrap().allowed_unstable, vec![UNSTABLE_OPTIONS]);
}

#[test]
fn a_stable_compiler_refuses_unstable_features() {
    let line = vec!["bin".to_owned(), "-Zunstable-options".to_owned()];
    match parse_args(&line, Parallelism::Unsupported, false) {
        Err(ParseStop::Invalid(error)) => {
            assert_eq!(error.to_text(), "expected nightly compiler, found `-Z`")
        }
        other => panic!("{other:?}"),
    }
    assert!(parse_args(&line, Parallelism::Unsupported, true).is_ok());
}

#[test]
fn the_builder_reads_values_from_the_parser() {
    let line = vec!["bin".to_owned(), "--skip".to_owned(), "a".to_owned(), "b".to_owned()];
    let mut parser = lexarg_parser::Parser::new(&line);
    let _ = parser.next_raw();
    let mut builder = TestOptsBuilder::new();
    while let Some(arg) = parser.next_arg() {
        let arg = match arg {
            lexarg_parser::Arg::Long(name) => Arg::Long(name.to_owned()),
            lexarg_parser::Arg::Value(value) => Arg::Value(value.to_str().unwrap().to_owned()),
            other => panic!("{other:?}"),
        };
        assert!(matches!(builder.parse_next(&mut parser, arg), Ok(None)));
    }
    let opts = builder.finish().unwrap();
    assert_eq!(opts.skip, vec!["a"]);
    assert_eq!(opts.filters, vec!["b"]);
}

#[test]
fn roles_of_arguments() {
    assert_eq!(role(&Arg::Short("h".to_owned())), Role::Help);
    assert_eq!(role(&long("help")), Role::Help);
    assert_eq!(role(&long("h")), Role::Plain);
    assert_eq!(role(&Arg::Short("help".to_owned())), Role::Plain);
    assert_eq!(role(&Arg::Value("help".to_owned())), Role::Plain);
    assert_eq!(role(&Arg::Escape("--".to_owned())), Role::Escape);
    assert_eq!(role(&Arg::Unexpected("x".to_owned())), Role::Unexpected);
}

#[test]
fn errors_are_shown_as_the_lexer_shows_them() {
    let error = LexError::msg("bad");
    assert_eq!(error.to_text(), "bad");
    let error = LexError::msg("bad").unexpected(Arg::Value("v".to_owned()));
    assert_eq!(error.to_text(), "bad, found `v`");
    let error = LexError::msg("bad").within(Arg::Short("s".to_owned()));
    assert_eq!(error.to_text(), "bad when parsing `-s`");
    let error = LexError::msg("bad")
        .within(Arg::Escape("--".to_owned()))
        .unexpected(Arg::Unexpected("u".to_owned()));
    assert_eq!(error.to_text(), "bad, found `u` when parsing `--`");
    let error = LexError::msg("bad").unexpected(long("l")).within(long("m").copy());
    assert_eq!(error.to_text(), "bad, found `--l` when parsing `--m`");
    assert_eq!(Error::from_lex(&error).message(), "bad, found `--l` when parsing `--m`");
    assert_eq!(Error::msg("plain").message(), "plain");
    assert_eq!(Error::msg(12).message(), "12");
}

#[test]
fn an_argument_that_is_not_known_is_handed_back_and_nothing_is_read() {
    let line = vec!["bin".to_owned(), "--nope".to_owned(), "next".to_owned()];
    let mut parser = lexarg_parser::Parser::new(&line);
    let _ = parser.next_raw();
    let mut builder = TestOptsBuilder::new();
    match parser.next_arg() {
        Some(lexarg_parser::Arg::Long(name)) => assert_eq!(name, "nope"),
        other => panic!("{other:?}"),
    }
    let back = builder.parse_next(&mut parser, Arg::Long("nope".to_owned()));
    assert!(matches!(back, Ok(Some(Arg::Long(name))) if name == "nope"));
    match parser.next_arg() {
        Some(lexarg_parser::Arg::Value(value)) => assert_eq!(value.to_str(), Some("next")),
        other => panic!("{other:?}"),
    }
    let opts = builder.finish().unwrap();
    assert!(opts.filters.is_empty());
    assert!(opts.skip.is_empty());
}
