use playground::text::contains_bytes;
use playground::text::is_match_at;
use playground::text::push_all;
use playground::text::replace_all_bytes;

#[test]
fn match_at_positions() {
    let s = b"abcabc";
    assert!(is_match_at(s, b"abc", 0));
    assert!(is_match_at(s, b"abc", 3));
    assert!(!is_match_at(s, b"abc", 1));
    assert!(!is_match_at(s, b"abc", 4));
    assert!(is_match_at(s, b"", 6));
    assert!(!is_match_at(s, b"abc", 6));
}

#[test]
fn contains_finds_pattern() {
    assert!(contains_bytes(b"hello world", b"o w"));
    assert!(contains_bytes(b"hello world", b"hello"));
    assert!(contains_bytes(b"hello world", b"world"));
    assert!(!contains_bytes(b"hello world", b"worlds"));
    assert!(!contains_bytes(b"abc", b"abcd"));
    assert!(contains_bytes(b"abc", b""));
    assert!(contains_bytes(b"", b""));
    assert!(!contains_bytes(b"", b"a"));
}

#[test]
fn replace_all_simple() {
    let r = replace_all_bytes(b"one two one", b"one", b"1");
    assert_eq!(r, b"1 two 1".to_vec());
}

#[test]
fn replace_all_is_leftmost_and_non_overlapping() {
    let r = replace_all_bytes(b"aaa", b"aa", b"b");
    assert_eq!(r, b"ba".to_vec());
}

#[test]
fn replace_all_no_occurrence_leaves_input() {
    let r = replace_all_bytes(b"plain text", b"missing", b"x");
    assert_eq!(r, b"plain text".to_vec());
}

#[test]
fn replace_all_grows_output() {
    let r = replace_all_bytes(b"a.b.c", b".", b"--");
    assert_eq!(r, b"a--b--c".to_vec());
}

#[test]
fn push_all_appends() {
    let mut v = b"ab".to_vec();
    push_all(&mut v, b"cd");
    assert_eq!(v, b"abcd".to_vec());
}
