use rust_worker::text::{
    chars_of, contains_char, join_strings, push_decimal, push_decimal_digits, text_equal, text_of,
    text_of_range, truncate_error_message,
};

#[test]
fn texts_are_sequences_of_characters() {
    assert_eq!(chars_of("héllo"), vec!['h', 'é', 'l', 'l', 'o']);
    assert_eq!(chars_of(""), Vec::<char>::new());
    assert_eq!(text_of(&vec!['a', 'ß', 'c']), "aßc");
    assert_eq!(text_of_range(&vec!['a', 'b', 'c', 'd'], 1, 3), "bc");
    assert_eq!(text_of_range(&vec!['a', 'b'], 2, 2), "");
    assert!(text_equal("abc", "abc"));
    assert!(!text_equal("abc", "abd"));
    assert!(!text_equal("abc", "ab"));
    assert!(text_equal("", ""));
    assert!(contains_char(&chars_of("a~b"), '~'));
    assert!(!contains_char(&chars_of("ab"), '~'));
}

#[test]
fn strings_are_joined_with_a_separator() {
    let parts = vec!["a".to_string(), "b".to_string(), "".to_string(), "c".to_string()];
    assert_eq!(join_strings(&parts, " | "), "a | b |  | c");
    assert_eq!(join_strings(&parts, ""), "abc");
    assert_eq!(join_strings(&vec!["only".to_string()], "/"), "only");
    assert_eq!(join_strings(&Vec::new(), "/"), "");
}

#[test]
fn numbers_are_written_in_decimal() {
    for number in [0i64, 1, 9, 10, 11, 99, 100, 12345, -1, -10, -12345, i64::MAX, i64::MIN] {
        let mut out = String::from(">");
        push_decimal(&mut out, number);
        assert_eq!(out, format!(">{}", number));
    }
    for number in [0u64, 7, 10, 1000, u64::MAX] {
        let mut out = String::new();
        push_decimal_digits(&mut out, number);
        assert_eq!(out, format!("{}", number));
    }
}

#[test]
fn long_messages_are_cut_and_marked() {
    assert_eq!(truncate_error_message("short", 10), "short");
    assert_eq!(truncate_error_message("exactly10!", 10), "exactly10!");
    assert_eq!(truncate_error_message("exactly10!+", 10), "exactly10!...(truncated)");
    assert_eq!(truncate_error_message("äöüß", 2), "äö...(truncated)");
    assert_eq!(truncate_error_message("abc", 0), "...(truncated)");
    assert_eq!(truncate_error_message("", 0), "");
    let long = "x".repeat(3000);
    let cut = truncate_error_message(&long, 2048);
    assert_eq!(cut.chars().count(), 2048 + 14);
    assert!(cut.ends_with("...(truncated)"));
}
