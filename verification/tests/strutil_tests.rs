use rmcll::strutil::{is_space, join_path, replace_all, replace_char, u32_to_string};

#[test]
fn decimal_formatting_is_exact() {
    assert_eq!(u32_to_string(0), "0");
    assert_eq!(u32_to_string(7), "7");
    assert_eq!(u32_to_string(854), "854");
    assert_eq!(u32_to_string(480), "480");
    assert_eq!(u32_to_string(1000), "1000");
    assert_eq!(u32_to_string(u32::MAX), "4294967295");
}

#[test]
fn path_joining_inserts_one_separator() {
    assert_eq!(join_path("a", "b"), "a/b");
    assert_eq!(join_path("a/", "b"), "a/b");
    assert_eq!(join_path("", "b"), "/b");
}

#[test]
fn character_replacement() {
    assert_eq!(replace_char("com.example.app", '.', '/'), "com/example/app");
    assert_eq!(replace_char("nodots", '.', '/'), "nodots");
}

#[test]
fn pattern_replacement_fills_templates() {
    assert_eq!(replace_all("natives-${arch}", "${arch}", "64"), "natives-64");
    assert_eq!(replace_all("${arch}-${arch}", "${arch}", "32"), "32-32");
    assert_eq!(replace_all("plain", "${arch}", "64"), "plain");
}

#[test]
fn whitespace_classification() {
    assert!(is_space(' '));
    assert!(is_space('\t'));
    assert!(is_space('\n'));
    assert!(is_space('\u{00A0}'));
    assert!(is_space('\u{2028}'));
    assert!(!is_space('a'));
    assert!(!is_space('-'));
}
