use libtest2::json_write::ToJsonKey;
use libtest2::json_write::ToJsonValue;

#[derive(Debug)]
#[allow(dead_code)]
struct Results<N: core::fmt::Debug> {
    value: N,
    string: String,
    parsed: String,
}

fn check_number<N: ToJsonValue + core::fmt::Debug>(value: N, expected: &str) {
    let key = "key".to_json_key();
    let string = value.to_json_value();
    let object = format!("{{ {key}: {string} }}");
    let parsed = format!("{:?}", object.parse::<serde_json::Value>());
    let results = Results { value, string, parsed };
    assert_eq!(format!("{:#?}\n", results), expected);
}

#[test]
fn positive() {
    check_number(
        42,
        r##"Results {
    value: 42,
    string: "42",
    parsed: "Ok(Object {\"key\": Number(42)})",
}
"##,
    );
}

#[test]
fn negative() {
    check_number(
        -42,
        r##"Results {
    value: -42,
    string: "-42",
    parsed: "Ok(Object {\"key\": Number(-42)})",
}
"##,
    );
}
