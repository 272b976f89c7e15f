use libtest2::context::TestContext;
use libtest2::error::RunError;
use libtest2::event::MessageKind;
use libtest2::event::RunMode;
use libtest2::mimic::RunContext;

#[test]
fn failures_carry_what_their_cause_displays() {
    let error = RunError::fail("plain");
    assert_eq!(error.status(), MessageKind::Error);
    assert_eq!(error.cause().map(|text| text.as_str()), Some("plain"));
    let error = RunError::fail(format!("{}-{}", 1, 2));
    assert_eq!(error.cause().map(|text| text.as_str()), Some("1-2"));
    let error = RunError::with_cause(std::io::Error::new(std::io::ErrorKind::Other, "I failed"));
    assert_eq!(error.status(), MessageKind::Error);
    assert_eq!(error.cause().map(|text| text.as_str()), Some("I failed"));
    let error = RunError::failure("given".to_owned());
    assert_eq!(error.status(), MessageKind::Error);
    assert_eq!(error.cause().map(|text| text.as_str()), Some("given"));
}

#[test]
fn requests_to_ignore() {
    let error = RunError::ignore();
    assert_eq!(error.status(), MessageKind::Ignored);
    assert_eq!(error.cause(), None);
    let error = RunError::ignore_for("slow".to_owned());
    assert_eq!(error.status(), MessageKind::Ignored);
    assert_eq!(error.cause().map(|text| text.as_str()), Some("slow"));
}

#[test]
fn a_context_turns_requests_down_where_ignored_cases_run() {
    let context = TestContext::new(RunMode::Bench, true);
    assert!(context.ignore().is_ok());
    assert!(context.ignore_for("slow").is_ok());
    assert_eq!(context.current_mode(), RunMode::Bench);
    assert_eq!(context.test_name(), "");

    let context = TestContext::new(RunMode::Test, false);
    let error = context.ignore().unwrap_err();
    assert_eq!(error.status(), MessageKind::Ignored);
    assert_eq!(error.cause(), None);
    let error = context.ignore_for(format!("needs {}", "network")).unwrap_err();
    assert_eq!(error.status(), MessageKind::Ignored);
    assert_eq!(error.cause().map(|text| text.as_str()), Some("needs network"));
    assert_eq!(context.current_mode(), RunMode::Test);

    let named = context.for_case("module::case");
    assert_eq!(named.test_name(), "module::case");
    assert_eq!(named.current_mode(), RunMode::Test);
    assert!(named.ignore().is_err());
}

#[test]
fn the_time_of_a_context_does_not_go_back() {
    let start = std::time::Instant::now();
    let context = TestContext::starting_at(&start, RunMode::Test, false);
    let first = context.elapsed_s();
    let second = context.elapsed_s();
    assert!(first.0 <= second.0);
    assert!(second.0 <= u64::try_from(start.elapsed().as_nanos()).unwrap());
}

#[test]
fn trials_see_the_context_of_the_harness() {
    let context = TestContext::new(RunMode::Test, false);
    let trial_context = RunContext::new(&context);
    let error = trial_context.ignore().unwrap_err().into_inner();
    assert_eq!(error.status(), MessageKind::Ignored);
    assert_eq!(error.cause(), None);
    let error = trial_context.ignore_for("slow").unwrap_err().into_inner();
    assert_eq!(error.cause().map(|text| text.as_str()), Some("slow"));

    let context = TestContext::new(RunMode::Test, true);
    let trial_context = RunContext::new(&context);
    assert!(trial_context.ignore().is_ok());
    assert!(trial_context.ignore_for("slow").is_ok());

    let error = libtest2::mimic::RunError::fail("no").into_inner();
    assert_eq!(error.status(), MessageKind::Error);
    assert_eq!(error.cause().map(|text| text.as_str()), Some("no"));
    let error = libtest2::mimic::RunError::with_cause(std::fmt::Error).into_inner();
    assert_eq!(error.status(), MessageKind::Error);
    assert!(error.cause().is_some());
}

fn read_number(text: &str) -> Result<u32, RunError> {
    let number = text.parse::<u32>()?;
    Ok(number)
}

#[test]
fn an_error_value_becomes_a_failure_with_its_text() {
    assert_eq!(read_number("7").unwrap(), 7);
    let error = read_number("seven").unwrap_err();
    assert_eq!(error.status(), MessageKind::Error);
    assert_eq!(error.cause().map(|text| text.as_str()), Some("invalid digit found in string"));

    let error = RunError::from(std::fmt::Error);
    assert_eq!(error.status(), MessageKind::Error);
    assert_eq!(
        error.cause().map(|text| text.as_str()),
        Some("an error occurred when formatting an argument")
    );

    let error = libtest2::mimic::RunError::from(std::fmt::Error).into_inner();
    assert_eq!(error.status(), MessageKind::Error);
    assert_eq!(
        error.cause().map(|text| text.as_str()),
        Some("an error occurred when formatting an argument")
    );
}
