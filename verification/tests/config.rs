use sqtop::config::toml_escape;

#[test]
fn test_toml_escape_backslash() {
    assert_eq!(toml_escape("a\\b"), "a\\\\b");
}

#[test]
fn test_toml_escape_double_quote() {
    assert_eq!(toml_escape("a\"b"), "a\\\"b");
}

#[test]
fn test_toml_escape_combined() {
    assert_eq!(toml_escape("a\\\"b"), "a\\\\\\\"b");
}

#[test]
fn test_toml_escape_no_special_chars() {
    assert_eq!(toml_escape("hello world"), "hello world");
}
