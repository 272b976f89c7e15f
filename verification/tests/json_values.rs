use libtest2::json_write::value::format_escaped_str_contents;
use libtest2::json_write::value::write_char_escape;
use libtest2::json_write::value::write_json_null;
use libtest2::json_write::value::write_json_object;
use libtest2::json_write::value::write_json_str;
use libtest2::json_write::value::CharEscape;
use libtest2::json_write::JsonWrite;
use libtest2::json_write::JsonWriteItems;
use libtest2::json_write::ToJsonKey;
use libtest2::json_write::ToJsonValue;
use libtest2::json_write::WriteJsonKey;
use libtest2::json_write::WriteJsonValue;

#[test]
fn an_object_is_written_piece_by_piece() {
    let mut output = String::new();
    output.open_object().unwrap();
    output.newline().unwrap();

    output.space().unwrap();
    output.space().unwrap();
    output.key("key").unwrap();
    output.keyval_sep().unwrap();
    output.space().unwrap();
    output.value("value").unwrap();
    output.newline().unwrap();

    output.close_object().unwrap();
    output.newline().unwrap();

    assert_eq!(
        output,
        r#"{
  "key": "value"
}
"#
    );
}

#[test]
fn punctuation() {
    let mut output = String::new();
    output.open_array().unwrap();
    output.value(1u8).unwrap();
    output.val_sep().unwrap();
    output.value(-2i64).unwrap();
    output.close_array().unwrap();
    output.write_str("!").unwrap();
    assert_eq!(output, "[1,-2]!");
}

#[test]
fn numbers() {
    assert_eq!(0u8.to_json_value(), "0");
    assert_eq!(u8::MAX.to_json_value(), "255");
    assert_eq!(i8::MIN.to_json_value(), "-128");
    assert_eq!(u16::MAX.to_json_value(), "65535");
    assert_eq!(i16::MIN.to_json_value(), "-32768");
    assert_eq!(u32::MAX.to_json_value(), "4294967295");
    assert_eq!(i32::MIN.to_json_value(), "-2147483648");
    assert_eq!(u64::MAX.to_json_value(), "18446744073709551615");
    assert_eq!(i64::MIN.to_json_value(), "-9223372036854775808");
    assert_eq!(i64::MAX.to_json_value(), "9223372036854775807");
    assert_eq!(u128::MAX.to_json_value(), u128::MAX.to_string());
    assert_eq!(i128::MIN.to_json_value(), i128::MIN.to_string());
    assert_eq!((-1i128).to_json_value(), "-1");
}

#[test]
fn truth_values_and_nothing() {
    assert_eq!(true.to_json_value(), "true");
    assert_eq!(false.to_json_value(), "false");
    assert_eq!(None::<bool>.to_json_value(), "null");
    assert_eq!(Some(false).to_json_value(), "false");
    assert_eq!(Some("text").to_json_value(), "\"text\"");
    let mut output = String::new();
    write_json_null(&mut output).unwrap();
    assert_eq!(output, "null");
}

#[test]
fn characters_and_strings() {
    assert_eq!('a'.to_json_value(), "\"a\"");
    assert_eq!('"'.to_json_value(), "\"\\\"\"");
    assert_eq!('\n'.to_json_value(), "\"\\n\"");
    assert_eq!('é'.to_json_value(), "\"é\"");
    assert_eq!("text".to_owned().to_json_value(), "\"text\"");
    assert_eq!("text".to_owned().to_json_key(), "\"text\"");
    assert_eq!((&"te\\xt").to_json_key(), "\"te\\\\xt\"");
    let mut output = String::new();
    write_json_str("a\tb", &mut output).unwrap();
    format_escaped_str_contents(&mut output, "\u{7f}\u{80}\u{0}\u{1f} \u{8}\u{c}/").unwrap();
    assert_eq!(output, "\"a\\tb\"\u{7f}\u{80}\\u0000\\u001f \\b\\f/");
}

#[test]
fn every_control_character_is_escaped_as_a_json_parser_reads_it() {
    for code in 0u32..0x80 {
        let text = char::from_u32(code).unwrap().to_string();
        let encoded = text.to_json_value();
        let decoded = serde_json::from_str::<String>(&encoded).unwrap();
        assert_eq!(decoded, text, "{code}");
        assert_eq!(encoded, serde_json::to_string(&text).unwrap(), "{code}");
    }
}

#[test]
fn escapes() {
    let escape = |escape: CharEscape| {
        let mut output = String::new();
        write_char_escape(&mut output, escape).unwrap();
        output
    };
    assert_eq!(escape(CharEscape::Quote), "\\\"");
    assert_eq!(escape(CharEscape::ReverseSolidus), "\\\\");
    assert_eq!(escape(CharEscape::Backspace), "\\b");
    assert_eq!(escape(CharEscape::FormFeed), "\\f");
    assert_eq!(escape(CharEscape::LineFeed), "\\n");
    assert_eq!(escape(CharEscape::CarriageReturn), "\\r");
    assert_eq!(escape(CharEscape::Tab), "\\t");
    assert_eq!(escape(CharEscape::AsciiControl(0x1b)), "\\u001b");
    assert_eq!(escape(CharEscape::AsciiControl(0xaf)), "\\u00af");
}

#[test]
fn arrays() {
    assert_eq!(Vec::<u8>::new().to_json_value(), "[]");
    assert_eq!(vec![1u8].to_json_value(), "[1]");
    assert_eq!(vec![1i32, -2, 3].to_json_value(), "[1, -2, 3]");
    assert_eq!(vec![Some("a"), None].to_json_value(), "[\"a\", null]");
    assert_eq!(vec![vec![true], vec![]].to_json_value(), "[[true], []]");
}

#[test]
fn slices_and_arrays_of_fixed_size() {
    assert_eq!([1u8, 2, 3].to_json_value(), "[1, 2, 3]");
    assert_eq!([1u8, 2, 3][1..].to_json_value(), "[2, 3]");
    assert_eq!(([] as [bool; 0]).to_json_value(), "[]");
    assert_eq!(["a", "b"].as_slice().to_json_value(), "[\"a\", \"b\"]");
}

#[test]
fn borrowed_or_owned_strings() {
    let borrowed = std::borrow::Cow::Borrowed("a\"b");
    let owned: std::borrow::Cow<'_, str> = std::borrow::Cow::Owned("c\nd".to_owned());
    assert_eq!(borrowed.to_json_value(), "\"a\\\"b\"");
    assert_eq!(borrowed.to_json_key(), "\"a\\\"b\"");
    assert_eq!(owned.to_json_value(), "\"c\\nd\"");
    assert_eq!(owned.to_json_key(), "\"c\\nd\"");
}

#[test]
fn objects() {
    let object = |entries: &Vec<(&str, u8)>| {
        let mut output = String::new();
        write_json_object(entries, &mut output).unwrap();
        output
    };
    assert_eq!(object(&vec![]), "{}");
    assert_eq!(object(&vec![("a", 1)]), "{ \"a\": 1 }");
    assert_eq!(object(&vec![("b", 2), ("a\"", 1)]), "{ \"b\": 2, \"a\\\"\": 1 }");
    let parsed = serde_json::from_str::<serde_json::Value>(&object(&vec![("b", 2), ("a", 1)]));
    assert_eq!(parsed.unwrap()["a"], 1);
}

#[test]
fn values_write_themselves() {
    let mut output = String::new();
    7u16.write_json_value(&mut output).unwrap();
    "k".write_json_key(&mut output).unwrap();
    assert_eq!(output, "7\"k\"");
}
