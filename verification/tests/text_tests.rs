use poke_escape_server::text::{
    append_decimal, str_contains, str_ends_with, str_equal, str_equal_ci, str_starts_with,
    str_starts_with_ci, trim_line_end, usize_to_string,
};

#[test]
fn prefix_tests() {
    assert!(str_starts_with("POKE-ESCAPE_0.1.0\n", "POKE-ESCAPE_"));
    assert!(!str_starts_with("POKE", "POKE-ESCAPE_"));
    assert!(str_starts_with("anything", ""));
}

#[test]
fn case_insensitive_prefix() {
    assert!(str_starts_with_ci("QUIT now\n", "quit"));
    assert!(str_starts_with_ci("Quit\n", "quit"));
    assert!(!str_starts_with_ci("quip\n", "quit"));
}

#[test]
fn case_insensitive_equality() {
    assert!(str_equal_ci("JSON", "json"));
    assert!(str_equal_ci("Json", "jSoN"));
    assert!(!str_equal_ci("jsonx", "json"));
    assert!(str_equal("same", "same"));
    assert!(!str_equal("same", "sane"));
}

#[test]
fn substring_search() {
    assert!(str_contains("GET / HTTP/1.1\r\n", "HTTP/1.1"));
    assert!(!str_contains("GET / HTTP/1.0\r\n", "HTTP/1.1"));
    assert!(str_contains("abc", ""));
    assert!(!str_contains("ab", "abc"));
}

#[test]
fn line_end_trimming() {
    assert_eq!(trim_line_end("0.1.0\n"), "0.1.0");
    assert_eq!(trim_line_end("0.1.0\r\n"), "0.1.0");
    assert_eq!(trim_line_end("plain"), "plain");
    assert_eq!(trim_line_end("\n\n"), "");
}

#[test]
fn suffix_tests() {
    assert!(str_ends_with("forest.json", ".json"));
    assert!(!str_ends_with("forest.txt", ".json"));
    assert!(!str_ends_with("son", ".json"));
}

#[test]
fn decimal_formatting() {
    assert_eq!(usize_to_string(0), "0");
    assert_eq!(usize_to_string(7), "7");
    assert_eq!(usize_to_string(10), "10");
    assert_eq!(usize_to_string(65536), "65536");
    let mut s = String::from("n = ");
    append_decimal(&mut s, 203);
    assert_eq!(s, "n = 203");
}
