use action_parser::text::{
    contains_name, lowercase_name, parse_count, parse_filter, parse_flag, parse_names,
    sanitize_string, split_on_char,
};

#[test]
fn sanitize_strips_bom_and_line_endings() {
    assert_eq!(sanitize_string("\u{feff}\u{feff}abc\r\n"), "abc");
    assert_eq!(sanitize_string("abc\n\n"), "abc");
    assert_eq!(sanitize_string("abc\n\r"), "abc\n");
    assert_eq!(sanitize_string("a\u{feff}b"), "a\u{feff}b");
    assert_eq!(sanitize_string(""), "");
}

#[test]
fn split_keeps_empty_pieces() {
    assert_eq!(split_on_char("a,b,,c", ','), vec!["a", "b", "", "c"]);
    assert_eq!(split_on_char("", ','), vec![""]);
    assert_eq!(split_on_char("x y", ' '), vec!["x", "y"]);
}

#[test]
fn filter_is_lowercased_trimmed_and_non_empty() {
    assert_eq!(parse_filter("Alice, BOB ,,\r\n"), vec!["alice", "bob"]);
    assert!(parse_filter("\n").is_empty());
    assert_eq!(parse_filter("\u{3000}Carol\t,\u{a0}"), vec!["carol"]);
}

#[test]
fn names_are_selected_case_insensitively() {
    let filter = vec!["alice".to_string()];
    assert_eq!(parse_names("ALICE Bob\n", &filter), vec!["ALICE"]);
    assert_eq!(parse_names("ALICE Bob\n", &vec![]), vec!["ALICE", "Bob"]);
    assert_eq!(lowercase_name(&"ÉVA".to_string()), "éva");
    assert!(contains_name(&filter, &"alice".to_string()));
    assert!(!contains_name(&filter, &"Alice".to_string()));
}

#[test]
fn counts_parse_like_usize() {
    assert_eq!(parse_count("42"), Some(42));
    assert_eq!(parse_count("+7"), Some(7));
    assert_eq!(parse_count("0"), Some(0));
    assert_eq!(parse_count(""), None);
    assert_eq!(parse_count("+"), None);
    assert_eq!(parse_count("-1"), None);
    assert_eq!(parse_count("4 2"), None);
    assert_eq!(parse_count("99999999999999999999999"), None);
    assert_eq!(parse_count(&usize::MAX.to_string()), Some(usize::MAX));
}

#[test]
fn flags_are_exact() {
    assert_eq!(parse_flag(&"true".to_string()), Some(true));
    assert_eq!(parse_flag(&"false".to_string()), Some(false));
    assert_eq!(parse_flag(&"True".to_string()), None);
}
