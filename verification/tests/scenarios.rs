use libtest2::case::Case;
use libtest2::case::TestKind;
use libtest2::cases::FnCase;
use libtest2::cases::GuardedCase;
use libtest2::cases::TestDef;
use libtest2::cases::ValueCase;
use libtest2::context::TestContext;
use libtest2::error::IntoRunResult;
use libtest2::error::RunError;
use libtest2::error::RunResult;
use libtest2::event::MessageKind;
use libtest2::event::RunMode;
use libtest2::harness::discover_cases;
use libtest2::harness::sort_by_name;
use libtest2::harness::Harness;
use libtest2::notify::json::JsonNotifier;
use libtest2::notify::pretty::PrettyRunNotifier;
use libtest2::notify::AnyNotifier;
use libtest2::notify::FnSink;
use libtest2::notify::WriteError;
use libtest2::opts::TestOpts;
use libtest2::run::finish_case;
use libtest2::run::panic_failure;
use libtest2::run::run;
use libtest2::run::run_case;
use libtest2::run::run_cases;
use libtest2::run::run_with_value;
use libtest2::run::start_case;
use libtest2::run::HarnessError;
use libtest2::run::Refusal;
use libtest2::select::case_priority;
use libtest2::select::matches_filter;

type Body = Box<dyn Fn(&TestContext) -> RunResult + Send + Sync>;

fn case(name: &str, body: impl Fn(&TestContext) -> RunResult + Send + Sync + 'static) -> FnCase<Body> {
    FnCase::test(name, Box::new(body))
}

fn passing(name: &str) -> FnCase<Body> {
    case(name, |_| Ok(()))
}

fn failing(name: &str) -> FnCase<Body> {
    case(name, |_| Err(RunError::fail("broke")))
}

fn opts() -> TestOpts {
    let mut opts = TestOpts::default();
    opts.run_tests = true;
    opts.test_threads = Some(1);
    opts
}

fn plain(text: &str) -> String {
    anstream::adapter::strip_str(text).to_string()
}

/// The report without the duration of the run.
fn timeless(text: &str) -> String {
    match (text.find("; finished in "), text.rfind("s\n\n")) {
        (Some(from), Some(to)) => format!("{}; finished in <T>{}", &text[..from], &text[to..]),
        _ => text.to_owned(),
    }
}

fn run_pretty(opts: &TestOpts, cases: Vec<FnCase<Body>>) -> (Result<bool, HarnessError>, String) {
    let start = std::time::Instant::now();
    let mut notifier = PrettyRunNotifier::new(String::new());
    let kept = discover_cases(&start, opts, cases, &mut notifier).unwrap();
    let result = run(&start, opts, kept, &mut notifier);
    (result, timeless(&plain(notifier.writer())))
}

fn lines(notifier: &JsonNotifier<String>) -> Vec<serde_json::Value> {
    notifier
        .writer()
        .lines()
        .map(|line| {
            let mut value = serde_json::from_str::<serde_json::Value>(line).unwrap();
            value.as_object_mut().unwrap().remove("elapsed_s");
            value
        })
        .collect()
}

fn parsed(lines: &[&str]) -> Vec<serde_json::Value> {
    lines.iter().map(|line| serde_json::from_str::<serde_json::Value>(line).unwrap()).collect()
}

#[test]
fn three_passing_cases_on_one_thread() {
    let (result, printed) = run_pretty(&opts(), vec![passing("a"), passing("b"), passing("c")]);
    assert!(matches!(result, Ok(true)));
    assert_eq!(
        printed,
        "\nrunning 3 tests\ntest a ... ok\ntest b ... ok\ntest c ... ok\n\nok. 3 passed; 0 failed; 0 ignored; 0 filtered out; finished in <T>s\n\n"
    );
}

#[test]
fn a_filter_selects_by_substring() {
    let start = std::time::Instant::now();
    let mut opts = opts();
    opts.filters = vec!["b".to_owned()];
    let mut notifier = JsonNotifier::new(String::new());
    let cases = vec![passing("bx"), passing("a"), passing("xb"), passing("c")];
    let kept = discover_cases(&start, &opts, cases, &mut notifier).unwrap();
    assert_eq!(kept.iter().map(|case| case.name()).collect::<Vec<_>>(), vec!["bx", "xb"]);
    assert_eq!(
        lines(&notifier),
        parsed(&[
            r#"{"event":"discover_start"}"#,
            r#"{"event":"discover_case","name":"bx"}"#,
            r#"{"event":"discover_case","name":"a","selected":false}"#,
            r#"{"event":"discover_case","name":"xb"}"#,
            r#"{"event":"discover_case","name":"c","selected":false}"#,
            r#"{"event":"discover_complete"}"#,
        ])
    );

    let (result, printed) = run_pretty(
        &opts,
        vec![passing("bx"), passing("a"), passing("xb"), passing("c")],
    );
    assert!(matches!(result, Ok(true)));
    assert_eq!(
        printed,
        "\nrunning 2 tests\ntest bx ... ok\ntest xb ... ok\n\nok. 2 passed; 0 failed; 0 ignored; 2 filtered out; finished in <T>s\n\n"
    );
}

#[test]
fn a_case_that_asks_to_be_ignored_is_counted_as_ignored() {
    let slow = || {
        case("slow_one", |context| {
            context.ignore_for("slow")?;
            Err(RunError::fail("must not be reached"))
        })
    };
    let (result, printed) = run_pretty(&opts(), vec![slow(), passing("other")]);
    assert!(matches!(result, Ok(true)));
    assert_eq!(
        printed,
        "\nrunning 2 tests\ntest other    ... ok\ntest slow_one ... ignored\n\nok. 1 passed; 0 failed; 1 ignored; 0 filtered out; finished in <T>s\n\n"
    );

    let mut notifier = JsonNotifier::new(String::new());
    let context = TestContext::new(RunMode::Test, false);
    let passed = run_case(&slow(), &context, &mut notifier).unwrap();
    assert!(passed);
    assert_eq!(
        lines(&notifier),
        parsed(&[
            r#"{"event":"case_start","name":"slow_one"}"#,
            r#"{"event":"case_message","name":"slow_one","kind":"ignored","message":"slow"}"#,
            r#"{"event":"case_complete","name":"slow_one"}"#,
        ])
    );
}

#[test]
fn a_run_that_includes_ignored_cases_runs_them() {
    let mut opts = opts();
    opts.run_ignored = libtest2::opts::RunIgnored::Yes;
    let (result, printed) = run_pretty(
        &opts,
        vec![case("slow_one", |context| {
            context.ignore_for("slow")?;
            context.ignore()?;
            Err(RunError::fail("reached"))
        })],
    );
    assert!(matches!(result, Ok(false)));
    assert!(printed.contains("---- slow_one ----\nreached\n"), "{printed}");
}

#[test]
fn a_case_that_ends_abnormally_has_failed() {
    let error = panic_failure(Some("boom"));
    assert_eq!(error.status(), MessageKind::Error);
    assert_eq!(error.cause().map(|text| text.as_str()), Some("test panicked: boom"));
    let error = panic_failure(None);
    assert_eq!(error.cause().map(|text| text.as_str()), Some("test panicked"));

    let context = TestContext::new(RunMode::Test, false);
    let mut notifier = JsonNotifier::new(String::new());
    start_case("wild", &context, &mut notifier).unwrap();
    let passed =
        finish_case("wild", &Err(panic_failure(Some("boom"))), &context, &mut notifier).unwrap();
    assert!(!passed);
    assert_eq!(
        lines(&notifier),
        parsed(&[
            r#"{"event":"case_start","name":"wild"}"#,
            r#"{"event":"case_message","name":"wild","kind":"error","message":"test panicked: boom"}"#,
            r#"{"event":"case_complete","name":"wild"}"#,
        ])
    );
    assert_eq!(libtest2::harness::ERROR_EXIT_CODE, 101);
}

#[test]
fn fail_fast_starts_no_case_after_a_failure() {
    let mut opts = opts();
    opts.fail_fast = true;
    let (result, printed) = run_pretty(
        &opts,
        vec![passing("a"), failing("b"), passing("c"), failing("d")],
    );
    assert!(matches!(result, Ok(false)));
    assert_eq!(
        printed,
        "\nrunning 4 tests\ntest a ... ok\ntest b ... FAILED\n\nfailures:\n\n---- b ----\nbroke\n\n\nfailures:\n    b\n\nFAILED. 1 passed; 1 failed; 0 ignored; 0 filtered out; finished in <T>s\n\n"
    );

    opts.test_threads = Some(4);
    let (result, printed) = run_pretty(
        &opts,
        vec![passing("a"), failing("b"), passing("c"), failing("d")],
    );
    assert!(matches!(result, Ok(false)));
    assert!(printed.contains("test b ... FAILED\n"), "{printed}");
    assert!(!printed.contains("test c"), "{printed}");
    assert!(!printed.contains("test d"), "{printed}");
    assert!(printed.contains("1 passed; 1 failed; 0 ignored"), "{printed}");
}

#[test]
fn without_fail_fast_every_case_runs() {
    let (result, printed) = run_pretty(
        &opts(),
        vec![passing("a"), failing("b"), passing("c"), failing("d")],
    );
    assert!(matches!(result, Ok(false)));
    assert!(printed.contains("2 passed; 2 failed; 0 ignored"), "{printed}");
}

#[test]
fn exclusive_cases_run_behind_the_others() {
    fn yes(_: &TestContext) -> RunResult {
        Ok(())
    }
    let def = |name: &'static str, exclusive: bool| TestDef {
        name,
        kind: TestKind::IntegrationTest,
        exclusive,
        function: yes as fn(&TestContext) -> RunResult,
    };
    let start = std::time::Instant::now();
    let mut opts = opts();
    opts.test_threads = Some(2);
    let mut notifier = JsonNotifier::new(String::new());
    let cases = vec![def("a", true), def("b", false), def("c", true), def("d", false)];
    assert_eq!(cases[0].kind(), TestKind::IntegrationTest);
    assert!(cases[0].source().is_none());
    let context = TestContext::new(RunMode::Test, false);
    assert!(cases[0].exclusive(&context));
    assert!(!cases[1].exclusive(&context));
    let result = run(&start, &opts, cases, &mut notifier);
    assert!(matches!(result, Ok(true)));
    let names = lines(&notifier)
        .iter()
        .filter(|line| line["event"] == "case_start")
        .map(|line| line["name"].as_str().unwrap().to_owned())
        .collect::<Vec<_>>();
    assert_eq!(names, vec!["b", "d", "a", "c"]);
}

#[test]
fn one_thread_keeps_the_order_of_the_cases() {
    let mut notifier = JsonNotifier::new(String::new());
    let cases = vec![passing("z"), failing("y"), passing("x")];
    let context = TestContext::new(RunMode::Test, false);
    let still = run_cases(&cases, &vec![2, 0, 1], &context, &mut notifier, false, true).unwrap();
    assert!(!still);
    let names = lines(&notifier)
        .iter()
        .filter(|line| line["event"] == "case_complete")
        .map(|line| line["name"].as_str().unwrap().to_owned())
        .collect::<Vec<_>>();
    assert_eq!(names, vec!["x", "z", "y"]);
}

#[test]
fn a_run_is_refused_for_options_that_are_not_supported() {
    let start = std::time::Instant::now();
    let run_with = |opts: &TestOpts| {
        let mut notifier = JsonNotifier::new(String::new());
        let result = run(&start, opts, vec![passing("a")], &mut notifier);
        (result, lines(&notifier))
    };

    let mut no_capture = opts();
    no_capture.no_capture = true;
    let (result, written) = run_with(&no_capture);
    assert!(matches!(result, Err(HarnessError::Refused(Refusal::NoCapture))));
    assert_eq!(written, parsed(&[r#"{"event":"run_start"}"#]));
    assert_eq!(Refusal::NoCapture.message(), "`--no-capture` is not supported at this time");

    let mut show_output = opts();
    show_output.show_output = true;
    let (result, _) = run_with(&show_output);
    assert!(matches!(result, Err(HarnessError::Refused(Refusal::ShowOutput))));
    assert_eq!(Refusal::ShowOutput.message(), "`--show-output` is not supported at this time");

    let mut both = opts();
    both.bench_benchmarks = true;
    let (result, _) = run_with(&both);
    assert!(matches!(result, Err(HarnessError::Refused(Refusal::ModeConflict))));
    assert_eq!(Refusal::ModeConflict.message(), "`--test` and `-bench` are mutually exclusive");
}

#[test]
fn a_bench_run_tells_the_cases_its_mode() {
    let start = std::time::Instant::now();
    let mut opts = opts();
    opts.run_tests = false;
    opts.bench_benchmarks = true;
    let mut notifier = JsonNotifier::new(String::new());
    let cases = vec![case("mode", |context| match context.current_mode() {
        RunMode::Bench => Ok(()),
        RunMode::Test => Err(RunError::fail("test mode")),
    })];
    assert!(matches!(run(&start, &opts, cases, &mut notifier), Ok(true)));
}

#[test]
fn selected_cases_run_by_filter_then_by_name() {
    let start = std::time::Instant::now();
    let mut opts = opts();
    opts.filter_exact = true;
    opts.filters = vec!["later".to_owned(), "b".to_owned(), "a".to_owned(), "b".to_owned()];
    opts.skip = vec!["skipped".to_owned()];
    let cases = vec![
        passing("a"),
        passing("skipped"),
        passing("b"),
        passing("later"),
        passing("ab"),
    ];
    assert_eq!(case_priority(&cases[0], &opts), Some(2));
    assert_eq!(case_priority(&cases[1], &opts), None);
    assert_eq!(case_priority(&cases[2], &opts), Some(1));
    assert_eq!(case_priority(&cases[3], &opts), Some(0));
    assert_eq!(case_priority(&cases[4], &opts), None);
    assert!(matches_filter(&cases[4], "ab", &opts));
    assert!(!matches_filter(&cases[4], "a", &opts));
    let mut notifier = JsonNotifier::new(String::new());
    let kept = discover_cases(&start, &opts, cases, &mut notifier).unwrap();
    assert_eq!(kept.iter().map(|case| case.name()).collect::<Vec<_>>(), vec!["later", "b", "a"]);

    opts.filter_exact = false;
    opts.skip = vec!["kip".to_owned()];
    let cases = vec![passing("b2"), passing("a2"), passing("b1"), passing("skipped_b"), passing("c")];
    assert!(matches_filter(&cases[0], "b", &opts));
    assert!(matches_filter(&cases[0], "", &opts));
    assert!(!matches_filter(&cases[0], "b22", &opts));
    let kept = discover_cases(&start, &opts, cases, &mut notifier).unwrap();
    assert_eq!(kept.iter().map(|case| case.name()).collect::<Vec<_>>(), vec!["b1", "b2", "a2"]);
}

#[test]
fn without_filters_cases_run_by_name() {
    let start = std::time::Instant::now();
    let opts = opts();
    let mut notifier = JsonNotifier::new(String::new());
    let cases = vec![passing("b"), passing("ab"), passing("a"), passing("B"), passing("")];
    assert_eq!(case_priority(&cases[0], &opts), Some(0));
    let kept = discover_cases(&start, &opts, cases, &mut notifier).unwrap();
    assert_eq!(kept.iter().map(|case| case.name()).collect::<Vec<_>>(), vec!["", "B", "a", "ab", "b"]);

    let sorted = sort_by_name(vec![passing("b"), passing("é"), passing("a"), passing("z")]);
    assert_eq!(sorted.iter().map(|case| case.name()).collect::<Vec<_>>(), vec!["a", "b", "z", "é"]);
}

#[test]
fn a_run_that_only_lists_runs_no_case() {
    let mut opts = opts();
    opts.list = true;
    let harness = Harness::with_opts(opts, String::new());
    let harness = harness.discover(vec![failing("b"), failing("a")]).unwrap();
    let (result, notifier) = harness.run();
    assert!(matches!(result, Ok(true)));
    assert!(matches!(notifier, AnyNotifier::TerseList(_)));
    assert_eq!(notifier.writer().as_str(), "b: test\na: test\n\n2 tests\n\n");
}

#[test]
fn the_reporter_follows_the_format() {
    let reporter = |change: fn(&mut TestOpts)| {
        let mut opts = opts();
        change(&mut opts);
        Harness::with_opts(opts, String::new()).discover(Vec::<FnCase<Body>>::new()).unwrap().run().1
    };
    assert!(matches!(reporter(|_| {}), AnyNotifier::Pretty(_)));
    assert!(matches!(
        reporter(|opts| opts.format = libtest2::opts::OutputFormat::Terse),
        AnyNotifier::Terse(_)
    ));
    assert!(matches!(
        reporter(|opts| opts.format = libtest2::opts::OutputFormat::Json),
        AnyNotifier::Json(_)
    ));
    assert!(matches!(
        reporter(|opts| {
            opts.format = libtest2::opts::OutputFormat::Json;
            opts.list = true;
        }),
        AnyNotifier::Json(_)
    ));
    assert!(matches!(
        reporter(|opts| {
            opts.format = libtest2::opts::OutputFormat::Terse;
            opts.list = true;
        }),
        AnyNotifier::TerseList(_)
    ));
}

#[test]
fn results_of_test_functions() {
    assert!(().into_run_result().is_ok());
    let failed: RunResult = Err(RunError::fail("no"));
    assert!(failed.into_run_result().is_err());
}

#[test]
fn a_guarded_case_is_run_by_its_guard() {
    fn yes(_: &TestContext) -> RunResult {
        Ok(())
    }
    fn refuse(case: &TestDef<fn(&TestContext) -> RunResult>, context: &TestContext) -> RunResult {
        case.run(context)?;
        Err(RunError::fail("stopped at the barrier"))
    }
    let inner = TestDef {
        name: "inner",
        kind: TestKind::DocTest,
        exclusive: true,
        function: yes as fn(&TestContext) -> RunResult,
    };
    let guard = refuse as fn(&TestDef<fn(&TestContext) -> RunResult>, &TestContext) -> RunResult;
    let case = GuardedCase::new(inner, guard);
    let context = TestContext::new(RunMode::Test, false);
    assert_eq!(case.name(), "inner");
    assert_eq!(case.kind(), TestKind::DocTest);
    assert!(case.source().is_none());
    assert!(case.exclusive(&context));
    let error = case.run(&context).unwrap_err();
    assert_eq!(error.cause().map(|text| text.as_str()), Some("stopped at the barrier"));
}

#[test]
fn every_case_is_exclusive_so_the_cases_run_in_their_order() {
    fn yes(_: &TestContext) -> RunResult {
        Ok(())
    }
    let def = |name: &'static str| TestDef {
        name,
        kind: TestKind::UnitTest,
        exclusive: true,
        function: yes as fn(&TestContext) -> RunResult,
    };
    let start = std::time::Instant::now();
    let mut opts = opts();
    opts.test_threads = Some(3);
    let mut notifier = JsonNotifier::new(String::new());
    let result = run(&start, &opts, vec![def("c"), def("a"), def("b")], &mut notifier);
    assert!(matches!(result, Ok(true)));
    let events = lines(&notifier)
        .iter()
        .filter(|line| line["event"] == "case_start" || line["event"] == "case_complete")
        .map(|line| format!("{} {}", line["event"].as_str().unwrap(), line["name"].as_str().unwrap()))
        .collect::<Vec<_>>();
    assert_eq!(
        events,
        vec![
            "case_start c",
            "case_complete c",
            "case_start a",
            "case_complete a",
            "case_start b",
            "case_complete b",
        ]
    );
}

#[test]
fn no_exclusive_case_starts_after_a_failure_under_fail_fast() {
    fn yes(_: &TestContext) -> RunResult {
        Ok(())
    }
    fn no(_: &TestContext) -> RunResult {
        Err(RunError::fail("broke"))
    }
    let def = |name: &'static str, exclusive: bool, function: fn(&TestContext) -> RunResult| TestDef {
        name,
        kind: TestKind::UnitTest,
        exclusive,
        function,
    };
    let start = std::time::Instant::now();
    let mut opts = opts();
    opts.test_threads = Some(2);
    opts.fail_fast = true;
    let mut notifier = JsonNotifier::new(String::new());
    let cases = vec![def("alone", true, yes), def("bad", false, no), def("late", false, yes)];
    let result = run(&start, &opts, cases, &mut notifier);
    assert!(matches!(result, Ok(false)));
    let names = lines(&notifier)
        .iter()
        .filter(|line| line["event"] == "case_start")
        .map(|line| line["name"].as_str().unwrap().to_owned())
        .collect::<Vec<_>>();
    assert_eq!(names, vec!["bad"]);
}

#[test]
fn a_write_that_fails_in_the_middle_of_a_run_ends_the_run_with_its_error() {
    let written = std::sync::Arc::new(std::sync::Mutex::new(Vec::<String>::new()));
    let log = written.clone();
    let sink = FnSink::new(
        move |text: &str| -> Result<(), WriteError> {
            if text.contains("case_complete") {
                return Err(WriteError { message: "disk full".to_owned() });
            }
            log.lock().unwrap().push(text.to_owned());
            Ok(())
        },
        || -> Result<(), WriteError> { Ok(()) },
    );
    let start = std::time::Instant::now();
    let mut notifier = JsonNotifier::new(sink);
    let result = run(&start, &opts(), vec![passing("a"), passing("b")], &mut notifier);
    assert!(matches!(result, Err(HarnessError::Write(error)) if error.message == "disk full"));
    let written = written.lock().unwrap();
    assert_eq!(written.len(), 2);
    assert!(written[0].contains("run_start"));
    assert!(written[1].contains("case_start") && written[1].contains("\"a\""));
}

#[test]
fn every_case_is_handed_the_value_of_the_run() {
    type Reader = Box<dyn Fn(&TestContext<u32>) -> RunResult + Send + Sync>;
    let reader = |name: &str, wanted: u32| -> ValueCase<u32, Reader> {
        ValueCase::test(
            name,
            Box::new(move |context: &TestContext<u32>| {
                if *context.value() == wanted {
                    Ok(())
                } else {
                    Err(RunError::fail(format!("handed {}", context.value())))
                }
            }),
        )
    };
    let start = std::time::Instant::now();
    let mut notifier = PrettyRunNotifier::new(String::new());
    let cases = vec![reader("right", 7), reader("wrong", 8)];
    let context = TestContext::with_value(&start, RunMode::Test, false, 7u32);
    assert_eq!(*context.value(), 7);
    assert_eq!(*context.for_case("right").value(), 7);
    assert!(!cases[0].exclusive(&context));
    assert_eq!(cases[0].name(), "right");
    let result = run_with_value(&start, &opts(), cases, &mut notifier, 7u32);
    assert!(matches!(result, Ok(false)));
    assert_eq!(
        timeless(&plain(notifier.writer())),
        "\nrunning 0 tests\ntest right ... ok\ntest wrong ... FAILED\n\nfailures:\n\n---- wrong ----\nhanded 7\n\n\nfailures:\n    wrong\n\nFAILED. 1 passed; 1 failed; 0 ignored; 0 filtered out; finished in <T>s\n\n"
    );
}

#[test]
fn a_harness_hands_its_value_to_the_cases() {
    type Reader = Box<dyn Fn(&TestContext<String>) -> RunResult + Send + Sync>;
    let case: ValueCase<String, Reader> = ValueCase::test(
        "reads",
        Box::new(|context: &TestContext<String>| {
            if context.value() == "fixture" {
                Ok(())
            } else {
                Err(RunError::fail("no fixture"))
            }
        }),
    );
    let line = vec!["bin".to_owned(), "--test-threads".to_owned(), "1".to_owned()];
    let harness = Harness::new().with_args(line);
    let harness = harness.parse(String::new(), libtest2::harness::Parallelism::Unsupported).unwrap();
    let harness = harness.discover(vec![case]).unwrap();
    let (result, notifier) = harness.run_with_value("fixture".to_owned());
    assert!(matches!(result, Ok(true)));
    assert!(plain(notifier.writer()).contains("test reads ... ok"));
}

#[test]
fn the_options_decide_whether_the_reporter_paints() {
    let run_with = |color: &str| -> String {
        let line = vec![
            "bin".to_owned(),
            "--test-threads".to_owned(),
            "1".to_owned(),
            "--color".to_owned(),
            color.to_owned(),
        ];
        let harness = Harness::new().with_args(line);
        let harness =
            harness.parse(String::new(), libtest2::harness::Parallelism::Unsupported).unwrap();
        let harness = harness.discover(vec![passing("a")]).unwrap();
        let (result, notifier) = harness.run();
        assert!(matches!(result, Ok(true)));
        timeless(notifier.writer())
    };
    assert_eq!(
        run_with("never"),
        "\nrunning 1 test\ntest a ... ok\n\nok. 1 passed; 0 failed; 0 ignored; 0 filtered out; finished in <T>s\n\n"
    );
    assert_eq!(
        run_with("always"),
        "\nrunning 1 test\ntest a ... \u{1b}[32mok\u{1b}[0m\n\n\u{1b}[32mok\u{1b}[0m. 1 passed; 0 failed; 0 ignored; 0 filtered out; finished in <T>s\n\n"
    );
    assert_eq!(run_with("auto"), run_with("always"));
}
