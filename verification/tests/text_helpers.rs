use giss::text::{
    contains_str, lines_of, rsplit_once, split_n, split_whitespace, trim, trim_end_matching,
};

#[test]
fn trim_strips_unicode_whitespace() {
    assert_eq!(trim("  \t abc def \u{3000}\n"), "abc def");
    assert_eq!(trim("   "), "");
}

#[test]
fn split_whitespace_gives_words() {
    assert_eq!(split_whitespace("  a  bb\tc \n"), vec!["a", "bb", "c"]);
    assert!(split_whitespace(" \t ").is_empty());
}

#[test]
fn lines_drop_line_endings() {
    assert_eq!(lines_of("a\r\nb\n\nc"), vec!["a", "b", "", "c"]);
    assert_eq!(lines_of("x\n"), vec!["x"]);
    assert_eq!(lines_of("y\r"), vec!["y\r"]);
    assert!(lines_of("").is_empty());
}

#[test]
fn split_n_keeps_rest() {
    assert_eq!(split_n("a|b|c|d|e", 4, '|'), vec!["a", "b", "c", "d|e"]);
    assert_eq!(split_n("repo", 2, ' '), vec!["repo"]);
    assert_eq!(split_n("repo dir/with space", 2, ' '), vec!["repo", "dir/with space"]);
}

#[test]
fn rsplit_once_at_last() {
    assert_eq!(
        rsplit_once("a/b/c", '/'),
        Some(("a/b".to_string(), "c".to_string()))
    );
    assert_eq!(rsplit_once("abc", '/'), None);
}

#[test]
fn trim_end_matching_repeats() {
    assert_eq!(trim_end_matching("repo.git.git", ".git"), "repo");
    assert_eq!(trim_end_matching("repo", ""), "repo");
}

#[test]
fn contains_str_finds_pieces() {
    assert!(contains_str("a/../b", ".."));
    assert!(!contains_str("a/./b", ".."));
    assert!(contains_str("x", ""));
}
