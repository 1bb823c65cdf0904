use coursework::grep::contains_pattern;

#[test]
fn finds_patterns_anywhere_in_the_line() {
    assert!(contains_pattern("hello world\n", "o w"));
    assert!(contains_pattern("hello", "hello"));
    assert!(contains_pattern("abc", ""));
    assert!(!contains_pattern("abc", "abcd"));
    assert!(!contains_pattern("hello", "hx"));
    assert!(contains_pattern("naïve café", "é"));
}
