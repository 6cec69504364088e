use sanctifier::rules::split_lines;
use sanctifier::strutil::{contains_substr, str_eq, usize_to_string};

#[test]
fn test_usize_to_string_renders_decimal() {
    assert_eq!(usize_to_string(0), "0");
    assert_eq!(usize_to_string(7), "7");
    assert_eq!(usize_to_string(10), "10");
    assert_eq!(usize_to_string(90210), "90210");
}

#[test]
fn test_str_eq_compares_contents() {
    assert!(str_eq("storage", "storage"));
    assert!(!str_eq("storage", "storagE"));
    assert!(!str_eq("storage", "storage "));
    assert!(str_eq("", ""));
}

#[test]
fn test_contains_substr() {
    assert!(contains_substr("env.storage().instance()", "storage"));
    assert!(contains_substr("persistent_state", "persistent"));
    assert!(contains_substr("abc", ""));
    assert!(!contains_substr("temp", "temporary"));
    assert!(!contains_substr("", "a"));
}

#[test]
fn test_split_lines_shapes() {
    let lines = split_lines("a\nbc\n");
    assert_eq!(lines, vec!["a", "bc"]);
    let lines = split_lines("a\nbc");
    assert_eq!(lines, vec!["a", "bc"]);
    let lines = split_lines("a\r\nbc\r\n");
    assert_eq!(lines, vec!["a", "bc"]);
    let lines = split_lines("");
    assert!(lines.is_empty());
    let lines = split_lines("\n");
    assert_eq!(lines, vec![""]);
    // A lone trailing carriage return is not a line ending.
    let lines = split_lines("a\r");
    assert_eq!(lines, vec!["a\r"]);
}
