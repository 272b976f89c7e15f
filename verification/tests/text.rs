use libtest2::text::contains;
use libtest2::text::push_decimal;
use libtest2::text::same_text;
use libtest2::text::text_le_exec;
use libtest2::text::to_chars;

fn chars(text: &str) -> Vec<char> {
    to_chars(text)
}

fn decimal(n: u128) -> String {
    let mut out = "n=".to_owned();
    push_decimal(&mut out, n);
    out
}

#[test]
fn characters_of_a_text() {
    assert_eq!(chars(""), Vec::<char>::new());
    assert_eq!(chars("aé\n"), vec!['a', 'é', '\n']);
}

#[test]
fn decimal_numerals() {
    assert_eq!(decimal(0), "n=0");
    assert_eq!(decimal(7), "n=7");
    assert_eq!(decimal(10), "n=10");
    assert_eq!(decimal(1234567890), "n=1234567890");
    assert_eq!(decimal(u128::MAX), format!("n={}", u128::MAX));
}

#[test]
fn substrings() {
    assert!(contains(&chars("hello"), &chars("")));
    assert!(contains(&chars(""), &chars("")));
    assert!(!contains(&chars(""), &chars("a")));
    assert!(contains(&chars("hello"), &chars("hello")));
    assert!(contains(&chars("hello"), &chars("he")));
    assert!(contains(&chars("hello"), &chars("lo")));
    assert!(contains(&chars("hello"), &chars("ll")));
    assert!(!contains(&chars("hello"), &chars("hello!")));
    assert!(!contains(&chars("hello"), &chars("lll")));
    assert!(contains(&chars("aab"), &chars("ab")));
    assert!(contains(&chars("module::tëst"), &chars("::të")));
}

#[test]
fn equal_texts() {
    assert!(same_text(&chars(""), &chars("")));
    assert!(same_text(&chars("ab"), &chars("ab")));
    assert!(!same_text(&chars("ab"), &chars("abc")));
    assert!(!same_text(&chars("ab"), &chars("ac")));
}

#[test]
fn the_order_of_texts_is_the_order_of_strings() {
    let texts = ["", "a", "A", "ab", "b", "aa", "é", "z", "a\u{10000}", "a\u{ffff}", "~"];
    for a in texts {
        for b in texts {
            assert_eq!(text_le_exec(&chars(a), &chars(b)), a <= b, "{a:?} {b:?}");
        }
    }
}
