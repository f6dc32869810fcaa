use dispenser::text::{
    chars_of, decimal_chars, find_char, has_prefix, has_suffix, parse_i64, range_contains,
    rfind_char, slice_of, str_eq,
};

fn c(s: &str) -> Vec<char> {
    s.chars().collect()
}

fn string_of(v: &Vec<char>) -> String {
    v.iter().collect()
}

#[test]
fn chars_and_back() {
    assert_eq!(chars_of("héllo"), vec!['h', 'é', 'l', 'l', 'o']);
    assert!(str_eq("abc", "abc"));
    assert!(!str_eq("abc", "abd"));
    assert!(!str_eq("abc", "ab"));
}

#[test]
fn searching() {
    assert_eq!(find_char(&c("a/b/c"), '/'), Some(1));
    assert_eq!(rfind_char(&c("a/b/c"), '/'), Some(3));
    assert_eq!(find_char(&c("abc"), '/'), None);
    assert_eq!(rfind_char(&c(""), '/'), None);
    assert!(range_contains(&c("a.b:c"), 0, 2, '.'));
    assert!(!range_contains(&c("a.b:c"), 2, 3, '.'));
    assert!(has_prefix(&c("https://x"), &c("http")));
    assert!(!has_prefix(&c("ht"), &c("http")));
    assert!(has_suffix(&c("512mb"), &c("mb")));
    assert!(!has_suffix(&c("b"), &c("mb")));
    assert_eq!(slice_of(&c("hello"), 1, 3), c("el"));
}

#[test]
fn decimal_notation() {
    assert_eq!(string_of(&decimal_chars(0)), "0");
    assert_eq!(string_of(&decimal_chars(7)), "7");
    assert_eq!(string_of(&decimal_chars(8080)), "8080");
    assert_eq!(string_of(&decimal_chars(65535)), "65535");
    assert_eq!(string_of(&decimal_chars(u64::MAX)), u64::MAX.to_string());
}

#[test]
fn parsing_signed_numbers_agrees_with_std() {
    for s in [
        "0", "7", "42", "-42", "+42", "007", "-0", "", "-", "+", "4 2", " 42", "42 ", "4x",
        "9223372036854775807", "9223372036854775808", "-9223372036854775808",
        "-9223372036854775809", "99999999999999999999999", "--1", "+-1", "１２",
    ] {
        assert_eq!(parse_i64(&c(s)), s.parse::<i64>().ok(), "input {:?}", s);
    }
}

#[test]
fn text_of_characters() {
    use_text_of();
}

fn use_text_of() {
    assert_eq!(dispenser::text::text_of(&vec!['a', 'ß', 'c']), "aßc");
    assert_eq!(dispenser::text::text_of(&Vec::new()), "");
    let mut out = vec!['x'];
    dispenser::text::push_str(&mut out, "yz");
    dispenser::text::push_all(&mut out, &vec!['!']);
    assert_eq!(dispenser::text::text_of(&out), "xyz!");
    let mut words = vec!["a".to_string()];
    dispenser::text::push_text(&mut words, "b");
    dispenser::text::push_chars(&mut words, &vec!['c', 'd']);
    assert_eq!(words, vec!["a".to_string(), "b".to_string(), "cd".to_string()]);
    let joined: String = dispenser::text::join(&words, ", ").into_iter().collect();
    assert_eq!(joined, "a, b, cd");
    assert!(dispenser::text::chars_eq(&vec!['a'], &vec!['a']));
}
