use libtest2::event::CaseComplete;
use libtest2::event::CaseMessage;
use libtest2::event::CaseStart;
use libtest2::event::DiscoverCase;
use libtest2::event::Elapsed;
use libtest2::event::Event;
use libtest2::event::MessageKind;
use libtest2::event::RunComplete;
use libtest2::event::RunMode;
use libtest2::event::RunStart;
use libtest2::notify::json::JsonNotifier;
use libtest2::notify::pretty::PrettyRunNotifier;
use libtest2::notify::summary::find_run_status;
use libtest2::notify::summary::finished_report;
use libtest2::notify::summary::CaseStatus;
use libtest2::notify::summary::Summary;
use libtest2::notify::terse::TerseListNotifier;
use libtest2::notify::terse::TerseRunNotifier;
use libtest2::notify::Notifier;

fn discovered(name: &str, selected: bool) -> Event {
    Event::DiscoverCase(DiscoverCase {
        name: name.to_owned(),
        mode: RunMode::Test,
        selected,
        elapsed_s: None,
    })
}

fn started(name: &str) -> Event {
    Event::CaseStart(CaseStart { name: name.to_owned(), elapsed_s: None })
}

fn message(name: &str, kind: MessageKind, text: Option<&str>) -> Event {
    Event::CaseMessage(CaseMessage {
        name: name.to_owned(),
        kind,
        message: text.map(|text| text.to_owned()),
        elapsed_s: None,
    })
}

fn completed(name: &str) -> Event {
    Event::CaseComplete(CaseComplete { name: name.to_owned(), elapsed_s: None })
}

fn run_complete(nanos: u64) -> Event {
    Event::RunComplete(RunComplete { elapsed_s: Some(Elapsed(nanos)) })
}

fn plain(text: &str) -> String {
    anstream::adapter::strip_str(text).to_string()
}

fn report(events: &Vec<Event>) -> String {
    let mut summary = Summary::new();
    summary.replay(events);
    plain(&summary.complete_report())
}

fn stream() -> Vec<Event> {
    vec![
        discovered("zeta", true),
        discovered("alpha", true),
        discovered("skipped", false),
        discovered("mid", true),
        Event::RunStart(RunStart { elapsed_s: None }),
        started("zeta"),
        message("zeta", MessageKind::Error, Some("zeta broke")),
        completed("zeta"),
        started("alpha"),
        message("alpha", MessageKind::Error, Some("alpha broke")),
        completed("alpha"),
        started("mid"),
        message("mid", MessageKind::Ignored, Some("slow")),
        completed("mid"),
        started("last"),
        completed("last"),
        run_complete(1_500_000_000),
    ]
}

#[test]
fn the_report_lists_failures_in_discovery_order_and_counts_every_case() {
    assert_eq!(
        report(&stream()),
        "\nfailures:\n\n---- zeta ----\nzeta broke\n\n---- alpha ----\nalpha broke\n\n\nfailures:\n    zeta\n    alpha\n\nFAILED. 1 passed; 2 failed; 1 ignored; 1 filtered out; finished in 1.500s\n\n"
    );
}

#[test]
fn failures_are_listed_as_discovered_whatever_the_order_of_the_run() {
    let events = vec![
        discovered("zeta", true),
        discovered("alpha", true),
        started("alpha"),
        message("alpha", MessageKind::Error, Some("a")),
        completed("alpha"),
        started("zeta"),
        message("zeta", MessageKind::Error, Some("z")),
        completed("zeta"),
    ];
    assert_eq!(
        report(&events),
        "\nfailures:\n\n---- zeta ----\nz\n\n---- alpha ----\na\n\n\nfailures:\n    zeta\n    alpha\n\nFAILED. 0 passed; 2 failed; 0 ignored; 0 filtered out\n\n"
    );
}

#[test]
fn a_case_that_was_only_discovered_is_not_counted() {
    let events = vec![
        discovered("a", true),
        discovered("b", true),
        discovered("c", false),
        started("a"),
        completed("a"),
    ];
    assert_eq!(report(&events), "\nok. 1 passed; 0 failed; 0 ignored; 1 filtered out\n\n");
    let mut summary = Summary::new();
    summary.replay(&events);
    assert_eq!(summary.get_kind("b"), None);
}

#[test]
fn the_result_line_begins_with_the_status() {
    let events = vec![
        discovered("a", true),
        discovered("b", true),
        discovered("c", true),
        started("a"),
        completed("a"),
        started("b"),
        completed("b"),
        started("c"),
        completed("c"),
        run_complete(2_000_000),
    ];
    assert_eq!(
        report(&events),
        "\nok. 3 passed; 0 failed; 0 ignored; 0 filtered out; finished in 0.002s\n\n"
    );
}

#[test]
fn replaying_a_recorded_stream_twice_gives_the_same_report() {
    let events = stream();
    let first = report(&events);
    let second = report(&events);
    assert_eq!(first, second);

    let mut one_by_one = Summary::new();
    for event in events.iter() {
        one_by_one.notify(event.clone()).unwrap();
    }
    assert_eq!(plain(&one_by_one.complete_report()), first);
}

#[test]
fn a_run_without_failures_has_no_list_of_failures() {
    let events = vec![
        discovered("a", true),
        started("a"),
        completed("a"),
        run_complete(0),
    ];
    assert_eq!(
        report(&events),
        "\nok. 1 passed; 0 failed; 0 ignored; 0 filtered out; finished in 0.000s\n\n"
    );
}

#[test]
fn a_run_that_never_completed_has_no_duration() {
    let events = vec![started("a"), completed("a")];
    assert_eq!(
        report(&events),
        "\nok. 1 passed; 0 failed; 0 ignored; 0 filtered out\n\n"
    );
}

#[test]
fn a_case_that_never_completed_has_failed() {
    let events = vec![started("a"), message("a", MessageKind::Ignored, Some("later"))];
    assert_eq!(
        report(&events),
        "\nfailures:\n\n---- a ----\ntest never completed\n\n\nfailures:\n    a\n\nFAILED. 0 passed; 1 failed; 0 ignored; 0 filtered out\n\n"
    );
}

#[test]
fn a_case_that_never_started_has_failed() {
    let events = vec![completed("a")];
    assert_eq!(
        report(&events),
        "\nfailures:\n\n---- a ----\ntest found that never started\n\n\nfailures:\n    a\n\nFAILED. 0 passed; 1 failed; 0 ignored; 0 filtered out\n\n"
    );
}

#[test]
fn a_failure_without_a_message_is_listed_by_name_only() {
    let events = vec![started("a"), message("a", MessageKind::Error, None), completed("a")];
    assert_eq!(
        report(&events),
        "\nfailures:\n\n\nfailures:\n    a\n\nFAILED. 0 passed; 1 failed; 0 ignored; 0 filtered out\n\n"
    );
}

#[test]
fn the_last_error_message_is_the_one_reported() {
    let events = vec![
        started("a"),
        message("a", MessageKind::Error, Some("first")),
        message("a", MessageKind::Error, Some("second")),
        completed("a"),
    ];
    assert!(report(&events).contains("---- a ----\nsecond\n"));
}

#[test]
fn ignored_outranks_error() {
    let mut summary = Summary::new();
    summary.replay(&vec![
        started("both"),
        message("both", MessageKind::Error, Some("broke")),
        message("both", MessageKind::Ignored, Some("slow")),
        completed("both"),
        started("failed"),
        message("failed", MessageKind::Error, None),
        completed("failed"),
        started("passed"),
        completed("passed"),
    ]);
    assert_eq!(summary.get_kind("both"), Some(MessageKind::Ignored));
    assert_eq!(summary.get_kind("failed"), Some(MessageKind::Error));
    assert_eq!(summary.get_kind("passed"), None);
    assert_eq!(summary.get_kind("unknown"), None);
    assert_eq!(
        plain(&summary.complete_report()),
        "\nfailures:\n\n\nfailures:\n    failed\n\nFAILED. 1 passed; 1 failed; 1 ignored; 0 filtered out\n\n"
    );
}

#[test]
fn the_status_of_a_case_comes_from_its_messages() {
    let case_message = |kind| CaseMessage {
        name: "a".to_owned(),
        kind,
        message: None,
        elapsed_s: None,
    };
    let status = |messages| CaseStatus {
        name: "a".to_owned(),
        messages,
        started: true,
        completed: true,
    };
    assert_eq!(find_run_status(&status(vec![])), None);
    assert_eq!(
        find_run_status(&status(vec![case_message(MessageKind::Error)])),
        Some(MessageKind::Error)
    );
    assert_eq!(
        find_run_status(&status(vec![
            case_message(MessageKind::Ignored),
            case_message(MessageKind::Error)
        ])),
        Some(MessageKind::Ignored)
    );
}

#[test]
fn the_start_of_a_run_tells_the_number_of_cases() {
    let mut out = String::new();
    let mut summary = Summary::new();
    summary.write_start(&mut out).unwrap();
    assert_eq!(out, "\nrunning 0 tests\n");

    let mut out = String::new();
    summary.notify(discovered("a", true)).unwrap();
    summary.notify(discovered("b", false)).unwrap();
    summary.write_start(&mut out).unwrap();
    assert_eq!(out, "\nrunning 1 test\n");

    let mut out = String::new();
    for _ in 0..11 {
        summary.notify(discovered("c", true)).unwrap();
    }
    summary.write_start(&mut out).unwrap();
    assert_eq!(out, "\nrunning 12 tests\n");
}

#[test]
fn the_report_is_written_to_the_sink() {
    let mut out = "before".to_owned();
    let mut summary = Summary::new();
    summary.replay(&vec![started("a"), completed("a")]);
    summary.write_complete(&mut out).unwrap();
    assert_eq!(
        plain(&out),
        "before\nok. 1 passed; 0 failed; 0 ignored; 0 filtered out\n\n"
    );
}

#[test]
fn the_verbose_reporter_writes_one_line_for_each_case() {
    let mut notifier = PrettyRunNotifier::new(String::new());
    for event in [
        discovered("long_name", true),
        discovered("much_longer_name_that_is_filtered", false),
        discovered("a", true),
        Event::RunStart(RunStart { elapsed_s: None }),
        started("a"),
    ] {
        notifier.notify(event).unwrap();
    }
    assert_eq!(plain(notifier.writer()), "\nrunning 2 tests\ntest a         ... ");
    for event in [
        completed("a"),
        started("long_name"),
        message("long_name", MessageKind::Error, Some("no")),
        completed("long_name"),
    ] {
        notifier.notify(event).unwrap();
    }
    assert_eq!(
        plain(notifier.writer()),
        "\nrunning 2 tests\ntest a         ... ok\ntest long_name ... FAILED\n"
    );
}

#[test]
fn the_verbose_reporter_writes_whole_lines_while_cases_run_in_parallel() {
    let mut notifier = PrettyRunNotifier::new(String::new());
    notifier.notify(discovered("ab", true)).unwrap();
    notifier.threaded(true);
    notifier.notify(started("ab")).unwrap();
    assert_eq!(plain(notifier.writer()), "");
    notifier.notify(message("ab", MessageKind::Ignored, None)).unwrap();
    notifier.notify(completed("ab")).unwrap();
    assert_eq!(plain(notifier.writer()), "test ab ... ignored\n");
    notifier.threaded(false);
    notifier.notify(started("b")).unwrap();
    assert_eq!(plain(notifier.writer()), "test ab ... ignored\ntest b  ... ");
}

#[test]
fn status_words_are_painted() {
    let mut notifier = PrettyRunNotifier::new(String::new()).colored(true);
    notifier.threaded(true);
    for event in [
        started("a"),
        completed("a"),
        started("b"),
        message("b", MessageKind::Error, None),
        completed("b"),
        started("c"),
        message("c", MessageKind::Ignored, None),
        completed("c"),
    ] {
        notifier.notify(event).unwrap();
    }
    assert_eq!(
        notifier.writer().as_str(),
        "test a ... \u{1b}[32mok\u{1b}[0m\ntest b ... \u{1b}[31mFAILED\u{1b}[0m\ntest c ... \u{1b}[33mignored\u{1b}[0m\n"
    );
}

#[test]
fn the_quiet_reporter_writes_one_character_for_each_case() {
    let mut notifier = TerseRunNotifier::new(String::new());
    for event in [
        discovered("a", true),
        discovered("b", true),
        discovered("c", true),
        Event::RunStart(RunStart { elapsed_s: None }),
        started("a"),
        completed("a"),
        started("b"),
        message("b", MessageKind::Error, Some("no")),
        completed("b"),
        started("c"),
        message("c", MessageKind::Ignored, None),
        completed("c"),
        run_complete(2_000_000),
    ] {
        notifier.notify(event).unwrap();
    }
    assert_eq!(
        plain(notifier.writer()),
        "\nrunning 3 tests\n.Fi\nfailures:\n\n---- b ----\nno\n\n\nfailures:\n    b\n\nFAILED. 1 passed; 1 failed; 1 ignored; 0 filtered out; finished in 0.002s\n\n"
    );
}

#[test]
fn the_lister_writes_the_selected_cases_and_their_number() {
    let mut notifier = TerseListNotifier::new(String::new());
    for event in [
        discovered("b", true),
        discovered("a", false),
        Event::DiscoverCase(DiscoverCase {
            name: "c".to_owned(),
            mode: RunMode::Bench,
            selected: true,
            elapsed_s: None,
        }),
        started("b"),
        Event::DiscoverComplete(libtest2::event::DiscoverComplete { elapsed_s: None }),
    ] {
        notifier.notify(event).unwrap();
    }
    assert_eq!(notifier.writer().as_str(), "b: test\nc: bench\n\n2 tests\n\n");
}

#[test]
fn the_machine_readable_reporter_writes_one_line_for_each_event() {
    let mut notifier = JsonNotifier::new(String::new());
    notifier.notify(started("a")).unwrap();
    notifier.notify(message("a", MessageKind::Error, Some("no\nway"))).unwrap();
    notifier.notify(completed("a")).unwrap();
    assert_eq!(
        notifier.writer().as_str(),
        "{\"event\":\"case_start\",\"name\":\"a\"}\n{\"event\":\"case_message\",\"name\":\"a\",\"kind\":\"error\",\"message\":\"no\\nway\"}\n{\"event\":\"case_complete\",\"name\":\"a\"}\n"
    );
}

#[test]
fn the_duration_closes_the_result_line() {
    assert_eq!(finished_report(None), "");
    assert_eq!(finished_report(Some("1.500".to_owned())), "; finished in 1.500s");
    assert_eq!(finished_report(Some(String::new())), "; finished in s");
}

fn three_passed() -> Vec<Event> {
    vec![
        discovered("a", true),
        discovered("b", true),
        discovered("c", true),
        Event::RunStart(RunStart { elapsed_s: None }),
        started("a"),
        completed("a"),
        started("b"),
        completed("b"),
        started("c"),
        completed("c"),
        run_complete(1_000_000),
    ]
}

#[test]
fn without_colors_the_reports_are_plain_text() {
    let mut summary = Summary::new();
    summary.replay(&three_passed());
    assert!(!summary.is_colored());
    assert_eq!(
        summary.complete_report(),
        "\nok. 3 passed; 0 failed; 0 ignored; 0 filtered out; finished in 0.001s\n\n"
    );

    let mut notifier = PrettyRunNotifier::new(String::new());
    for event in three_passed() {
        notifier.notify(event).unwrap();
    }
    assert_eq!(
        notifier.writer().as_str(),
        "\nrunning 3 tests\ntest a ... ok\ntest b ... ok\ntest c ... ok\n\nok. 3 passed; 0 failed; 0 ignored; 0 filtered out; finished in 0.001s\n\n"
    );

    let mut notifier = TerseRunNotifier::new(String::new());
    for event in three_passed() {
        notifier.notify(event).unwrap();
    }
    assert_eq!(
        notifier.writer().as_str(),
        "\nrunning 3 tests\n...\nok. 3 passed; 0 failed; 0 ignored; 0 filtered out; finished in 0.001s\n\n"
    );
}

#[test]
fn with_colors_the_status_words_are_painted() {
    let mut summary = Summary::new().colored(true);
    summary.replay(&three_passed());
    assert!(summary.is_colored());
    assert_eq!(
        summary.complete_report(),
        "\n\u{1b}[32mok\u{1b}[0m. 3 passed; 0 failed; 0 ignored; 0 filtered out; finished in 0.001s\n\n"
    );

    let mut notifier = TerseRunNotifier::new(String::new()).colored(true);
    for event in [started("a"), message("a", MessageKind::Error, None), completed("a")] {
        notifier.notify(event).unwrap();
    }
    assert_eq!(notifier.writer().as_str(), "\u{1b}[31mF\u{1b}[0m");
}
