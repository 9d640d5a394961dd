use velocity::text::{
    chars_of, concat_texts, integer_text, join_texts, number_text, parse_integer, push_joined,
    text_of,
};

#[test]
fn characters_of_a_string() {
    assert_eq!(chars_of(""), Vec::<char>::new());
    assert_eq!(chars_of("aé∑"), vec!['a', 'é', '∑']);
}

#[test]
fn text_of_a_range() {
    let chars = vec!['h', 'e', 'l', 'l', 'o'];
    assert_eq!(text_of(&chars, 1, 4), "ell");
    assert_eq!(text_of(&chars, 2, 2), "");
    assert_eq!(text_of(&chars, 0, 5), "hello");
}

#[test]
fn joined_and_concatenated() {
    let parts = vec!["a".to_string(), "bc".to_string(), "".to_string(), "d".to_string()];
    assert_eq!(join_texts(&parts, ", "), "a, bc, , d");
    assert_eq!(concat_texts(&parts), "abcd");
    assert_eq!(join_texts(&Vec::new(), ", "), "");
    assert_eq!(join_texts(&vec!["only".to_string()], ", "), "only");
    assert_eq!(concat_texts(&Vec::new()), "");
    let mut out = "x".to_string();
    push_joined(&mut out, true, "-", "a");
    push_joined(&mut out, false, "-", "b");
    assert_eq!(out, "xa-b");
}

#[test]
fn decimal_text_of_integers() {
    assert_eq!(integer_text(0), "0");
    assert_eq!(integer_text(7), "7");
    assert_eq!(integer_text(10), "10");
    assert_eq!(integer_text(1234567890), "1234567890");
    assert_eq!(integer_text(-1), "-1");
    assert_eq!(integer_text(-120), "-120");
    assert_eq!(integer_text(i64::MAX), "9223372036854775807");
    assert_eq!(integer_text(i64::MIN), "-9223372036854775808");
    assert_eq!(number_text(0), "0");
    assert_eq!(number_text(4096), "4096");
}

#[test]
fn integers_are_read_from_runs_of_digits() {
    assert_eq!(parse_integer("0"), Some(0));
    assert_eq!(parse_integer("42"), Some(42));
    assert_eq!(parse_integer("007"), Some(7));
    assert_eq!(parse_integer("9223372036854775807"), Some(i64::MAX));
    assert_eq!(parse_integer("9223372036854775808"), None);
    assert_eq!(parse_integer("99999999999999999999999"), None);
    assert_eq!(parse_integer(""), None);
    assert_eq!(parse_integer("12a"), None);
    assert_eq!(parse_integer("-1"), None);
    assert_eq!(parse_integer("1 "), None);
}

#[test]
fn reading_the_text_of_an_integer_gives_it_back() {
    for n in [0i64, 1, 9, 10, 99, 100, 12345, i64::MAX] {
        assert_eq!(parse_integer(&integer_text(n)), Some(n));
    }
}
