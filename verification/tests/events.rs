use libtest2::event::CaseComplete;
use libtest2::event::CaseMessage;
use libtest2::event::CaseStart;
use libtest2::event::DiscoverCase;
use libtest2::event::DiscoverComplete;
use libtest2::event::DiscoverStart;
use libtest2::event::Elapsed;
use libtest2::event::Event;
use libtest2::event::MessageKind;
use libtest2::event::RunComplete;
use libtest2::event::RunMode;
use libtest2::event::RunStart;

/// Checks the line of `input` against `snapshot`, and that the line is one JSON object
/// with the members that `members` names, in any order.
fn t(input: Event, snapshot: &str, members: &[&str]) {
    let actual_encoded = input.to_jsonline();
    assert_eq!(actual_encoded, snapshot);
    let parsed = serde_json::from_str::<serde_json::Value>(&actual_encoded).unwrap();
    let object = parsed.as_object().unwrap();
    let mut found = object.keys().map(|key| key.as_str()).collect::<Vec<_>>();
    found.sort();
    let mut wanted = members.to_vec();
    wanted.sort();
    assert_eq!(found, wanted);
}

fn zero() -> Option<Elapsed> {
    Some(Elapsed(Default::default()))
}

#[test]
fn discover_start() {
    t(
        Event::DiscoverStart(DiscoverStart { elapsed_s: None }),
        r#"{"event":"discover_start"}"#,
        &["event"],
    );
    t(
        Event::DiscoverStart(DiscoverStart { elapsed_s: zero() }),
        r#"{"event":"discover_start","elapsed_s":"0"}"#,
        &["event", "elapsed_s"],
    );
}

#[test]
fn discover_case() {
    t(
        Event::DiscoverCase(DiscoverCase {
            name: "Hello\tworld!".to_owned(),
            mode: RunMode::Test,
            selected: true,
            elapsed_s: None,
        }),
        r#"{"event":"discover_case","name":"Hello\tworld!"}"#,
        &["event", "name"],
    );

    t(
        Event::DiscoverCase(DiscoverCase {
            name: "Hello\tworld!".to_owned(),
            mode: RunMode::Bench,
            selected: false,
            elapsed_s: zero(),
        }),
        r#"{"event":"discover_case","name":"Hello\tworld!","mode":"bench","selected":false,"elapsed_s":"0"}"#,
        &["event", "name", "mode", "selected", "elapsed_s"],
    );
}

#[test]
fn discover_complete() {
    t(
        Event::DiscoverComplete(DiscoverComplete { elapsed_s: None }),
        r#"{"event":"discover_complete"}"#,
        &["event"],
    );

    t(
        Event::DiscoverComplete(DiscoverComplete { elapsed_s: zero() }),
        r#"{"event":"discover_complete","elapsed_s":"0"}"#,
        &["event", "elapsed_s"],
    );
}

#[test]
fn suite_start() {
    t(Event::RunStart(RunStart { elapsed_s: None }), r#"{"event":"run_start"}"#, &["event"]);
    t(
        Event::RunStart(RunStart { elapsed_s: zero() }),
        r#"{"event":"run_start","elapsed_s":"0"}"#,
        &["event", "elapsed_s"],
    );
}

#[test]
fn case_start() {
    t(
        Event::CaseStart(CaseStart { name: "Hello\tworld!".to_owned(), elapsed_s: None }),
        r#"{"event":"case_start","name":"Hello\tworld!"}"#,
        &["event", "name"],
    );
    t(
        Event::CaseStart(CaseStart { name: "Hello\tworld!".to_owned(), elapsed_s: zero() }),
        r#"{"event":"case_start","name":"Hello\tworld!","elapsed_s":"0"}"#,
        &["event", "name", "elapsed_s"],
    );
}

#[test]
fn case_message() {
    t(
        Event::CaseMessage(CaseMessage {
            name: "Hello\tworld!".to_owned(),
            kind: MessageKind::Error,
            message: None,
            elapsed_s: None,
        }),
        r#"{"event":"case_message","name":"Hello\tworld!","kind":"error"}"#,
        &["event", "name", "kind"],
    );
    t(
        Event::CaseMessage(CaseMessage {
            name: "Hello\tworld!".to_owned(),
            kind: MessageKind::Ignored,
            message: Some("This\tfailed".to_owned()),
            elapsed_s: zero(),
        }),
        r#"{"event":"case_message","name":"Hello\tworld!","kind":"ignored","message":"This\tfailed","elapsed_s":"0"}"#,
        &["event", "name", "kind", "message", "elapsed_s"],
    );
}

#[test]
fn case_complete() {
    t(
        Event::CaseComplete(CaseComplete { name: "Hello\tworld!".to_owned(), elapsed_s: None }),
        r#"{"event":"case_complete","name":"Hello\tworld!"}"#,
        &["event", "name"],
    );

    t(
        Event::CaseComplete(CaseComplete { name: "Hello\tworld!".to_owned(), elapsed_s: zero() }),
        r#"{"event":"case_complete","name":"Hello\tworld!","elapsed_s":"0"}"#,
        &["event", "name", "elapsed_s"],
    );
}

#[test]
fn suite_complete() {
    t(
        Event::RunComplete(RunComplete { elapsed_s: None }),
        r#"{"event":"run_complete"}"#,
        &["event"],
    );

    t(
        Event::RunComplete(RunComplete { elapsed_s: zero() }),
        r#"{"event":"run_complete","elapsed_s":"0"}"#,
        &["event", "elapsed_s"],
    );
}

#[test]
fn each_event_goes_through_its_own_line() {
    assert_eq!(
        CaseStart { name: "a".to_owned(), elapsed_s: None }.to_jsonline(),
        r#"{"event":"case_start","name":"a"}"#
    );
    assert_eq!(RunStart { elapsed_s: None }.to_jsonline(), r#"{"event":"run_start"}"#);
    assert_eq!(RunComplete { elapsed_s: None }.to_jsonline(), r#"{"event":"run_complete"}"#);
    assert_eq!(
        DiscoverComplete { elapsed_s: None }.to_jsonline(),
        r#"{"event":"discover_complete"}"#
    );
}

#[test]
fn elapsed_is_written_in_seconds() {
    assert_eq!(Elapsed(0).to_seconds(), "0");
    assert_eq!(Elapsed(1_500_000_000).to_seconds(), "1.5");
    assert_eq!(Elapsed(250_000_000).to_seconds(), "0.25");
    assert_eq!(Elapsed(2_000_000_000).to_seconds(), "2");
    assert_eq!(Elapsed(0).to_rounded_seconds(), "0.000");
    assert_eq!(Elapsed(1_500_000_000).to_rounded_seconds(), "1.500");
    assert_eq!(Elapsed(1_234_567_890).to_rounded_seconds(), "1.235");
    assert_eq!(
        RunComplete { elapsed_s: Some(Elapsed(1_500_000_000)) }.to_jsonline(),
        r#"{"event":"run_complete","elapsed_s":"1.5"}"#
    );
}

#[test]
fn names_of_modes_and_kinds() {
    assert_eq!(RunMode::Test.as_str(), "test");
    assert_eq!(RunMode::Bench.as_str(), "bench");
    assert!(RunMode::Test.is_default());
    assert!(!RunMode::Bench.is_default());
    assert_eq!(RunMode::default(), RunMode::Test);
    assert_eq!(MessageKind::Error.as_str(), "error");
    assert_eq!(MessageKind::Ignored.as_str(), "ignored");
    assert!(MessageKind::Error < MessageKind::Ignored);
}

#[test]
fn control_characters_in_names_are_escaped() {
    assert_eq!(
        CaseStart { name: "a\u{1}b\"c\\d\u{1f}".to_owned(), elapsed_s: None }.to_jsonline(),
        r#"{"event":"case_start","name":"a\u0001b\"c\\d\u001f"}"#
    );
}
