use libtest2::json_write::ToJsonKey;
use libtest2::json_write::ToJsonValue;

#[derive(Debug)]
#[allow(dead_code)]
struct Results<'i> {
    decoded: &'i str,
    key: String,
    string: String,
    parsed: String,
}

fn check_string(decoded: &str, expected: &str) {
    let key = decoded.to_json_key();
    let string = decoded.to_json_value();
    let object = format!("{{ {key}: {string} }}");
    let parsed = format!("{:?}", object.parse::<serde_json::Value>());
    let results = Results { decoded, key, string, parsed };
    assert_eq!(format!("{:#?}\n", results), expected);
}

#[test]
fn string_empty() {
    check_string(
        "",
        r##"Results {
    decoded: "",
    key: "\"\"",
    string: "\"\"",
    parsed: "Ok(Object {\"\": String(\"\")})",
}
"##,
    );
}

#[test]
fn alpha() {
    check_string(
        "helloworld",
        r##"Results {
    decoded: "helloworld",
    key: "\"helloworld\"",
    string: "\"helloworld\"",
    parsed: "Ok(Object {\"helloworld\": String(\"helloworld\")})",
}
"##,
    );
}

#[test]
fn ident() {
    check_string(
        "_hello-world_",
        r##"Results {
    decoded: "_hello-world_",
    key: "\"_hello-world_\"",
    string: "\"_hello-world_\"",
    parsed: "Ok(Object {\"_hello-world_\": String(\"_hello-world_\")})",
}
"##,
    );
}

#[test]
fn one_single_quote() {
    check_string(
        "'hello'world'",
        r##"Results {
    decoded: "'hello'world'",
    key: "\"'hello'world'\"",
    string: "\"'hello'world'\"",
    parsed: "Ok(Object {\"'hello'world'\": String(\"'hello'world'\")})",
}
"##,
    );
}

#[test]
fn two_single_quote() {
    check_string(
        "''hello''world''",
        r##"Results {
    decoded: "''hello''world''",
    key: "\"''hello''world''\"",
    string: "\"''hello''world''\"",
    parsed: "Ok(Object {\"''hello''world''\": String(\"''hello''world''\")})",
}
"##,
    );
}

#[test]
fn three_single_quote() {
    check_string(
        "'''hello'''world'''",
        r##"Results {
    decoded: "'''hello'''world'''",
    key: "\"'''hello'''world'''\"",
    string: "\"'''hello'''world'''\"",
    parsed: "Ok(Object {\"'''hello'''world'''\": String(\"'''hello'''world'''\")})",
}
"##,
    );
}

#[test]
fn one_double_quote() {
    check_string(
        r#""hello"world""#,
        r##"Results {
    decoded: "\"hello\"world\"",
    key: "\"\\\"hello\\\"world\\\"\"",
    string: "\"\\\"hello\\\"world\\\"\"",
    parsed: "Ok(Object {\"\\\"hello\\\"world\\\"\": String(\"\\\"hello\\\"world\\\"\")})",
}
"##,
    );
}

#[test]
fn two_double_quote() {
    check_string(
        r#"""hello""world"""#,
        r##"Results {
    decoded: "\"\"hello\"\"world\"\"",
    key: "\"\\\"\\\"hello\\\"\\\"world\\\"\\\"\"",
    string: "\"\\\"\\\"hello\\\"\\\"world\\\"\\\"\"",
    parsed: "Ok(Object {\"\\\"\\\"hello\\\"\\\"world\\\"\\\"\": String(\"\\\"\\\"hello\\\"\\\"world\\\"\\\"\")})",
}
"##,
    );
}

#[test]
fn three_double_quote() {
    check_string(
        r#""""hello"""world""""#,
        r##"Results {
    decoded: "\"\"\"hello\"\"\"world\"\"\"",
    key: "\"\\\"\\\"\\\"hello\\\"\\\"\\\"world\\\"\\\"\\\"\"",
    string: "\"\\\"\\\"\\\"hello\\\"\\\"\\\"world\\\"\\\"\\\"\"",
    parsed: "Ok(Object {\"\\\"\\\"\\\"hello\\\"\\\"\\\"world\\\"\\\"\\\"\": String(\"\\\"\\\"\\\"hello\\\"\\\"\\\"world\\\"\\\"\\\"\")})",
}
"##,
    );
}

#[test]
fn mixed_quote_1() {
    check_string(
        r#""'"#,
        r##"Results {
    decoded: "\"'",
    key: "\"\\\"'\"",
    string: "\"\\\"'\"",
    parsed: "Ok(Object {\"\\\"'\": String(\"\\\"'\")})",
}
"##,
    );
}

#[test]
fn mixed_quote_2() {
    check_string(
        r#"mixed quoted \"start\" 'end'' mixed quote"#,
        r##"Results {
    decoded: "mixed quoted \\\"start\\\" 'end'' mixed quote",
    key: "\"mixed quoted \\\\\\\"start\\\\\\\" 'end'' mixed quote\"",
    string: "\"mixed quoted \\\\\\\"start\\\\\\\" 'end'' mixed quote\"",
    parsed: "Ok(Object {\"mixed quoted \\\\\\\"start\\\\\\\" 'end'' mixed quote\": String(\"mixed quoted \\\\\\\"start\\\\\\\" 'end'' mixed quote\")})",
}
"##,
    );
}

#[test]
fn escape() {
    check_string(
        r#"\windows\system32\"#,
        r##"Results {
    decoded: "\\windows\\system32\\",
    key: "\"\\\\windows\\\\system32\\\\\"",
    string: "\"\\\\windows\\\\system32\\\\\"",
    parsed: "Ok(Object {\"\\\\windows\\\\system32\\\\\": String(\"\\\\windows\\\\system32\\\\\")})",
}
"##,
    );
}

#[test]
fn cr() {
    check_string(
        "\rhello\rworld\r",
        r##"Results {
    decoded: "\rhello\rworld\r",
    key: "\"\\rhello\\rworld\\r\"",
    string: "\"\\rhello\\rworld\\r\"",
    parsed: "Ok(Object {\"\\rhello\\rworld\\r\": String(\"\\rhello\\rworld\\r\")})",
}
"##,
    );
}

#[test]
fn lf() {
    check_string(
        "\nhello\nworld\n",
        r##"Results {
    decoded: "\nhello\nworld\n",
    key: "\"\\nhello\\nworld\\n\"",
    string: "\"\\nhello\\nworld\\n\"",
    parsed: "Ok(Object {\"\\nhello\\nworld\\n\": String(\"\\nhello\\nworld\\n\")})",
}
"##,
    );
}

#[test]
fn crlf() {
    check_string(
        "\r\nhello\r\nworld\r\n",
        r##"Results {
    decoded: "\r\nhello\r\nworld\r\n",
    key: "\"\\r\\nhello\\r\\nworld\\r\\n\"",
    string: "\"\\r\\nhello\\r\\nworld\\r\\n\"",
    parsed: "Ok(Object {\"\\r\\nhello\\r\\nworld\\r\\n\": String(\"\\r\\nhello\\r\\nworld\\r\\n\")})",
}
"##,
    );
}

#[test]
fn tab() {
    check_string(
        "\thello\tworld\t",
        r##"Results {
    decoded: "\thello\tworld\t",
    key: "\"\\thello\\tworld\\t\"",
    string: "\"\\thello\\tworld\\t\"",
    parsed: "Ok(Object {\"\\thello\\tworld\\t\": String(\"\\thello\\tworld\\t\")})",
}
"##,
    );
}
