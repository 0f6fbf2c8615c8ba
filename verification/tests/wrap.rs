use portwatch::wrap_text;

#[test]
fn empty_text_gives_placeholder() {
    assert_eq!(wrap_text("", 10), vec!["-"]);
}

#[test]
fn whitespace_only_gives_placeholder() {
    assert_eq!(wrap_text("   \t  ", 10), vec!["-"]);
}

#[test]
fn short_text_stays_on_one_line() {
    assert_eq!(wrap_text("hello world", 20), vec!["hello world"]);
}

#[test]
fn words_wrap_at_width() {
    assert_eq!(wrap_text("hello world", 5), vec!["hello", "world"]);
    assert_eq!(wrap_text("ab cd", 5), vec!["ab cd"]);
    assert_eq!(wrap_text("ab cd", 4), vec!["ab", "cd"]);
}

#[test]
fn long_word_is_hard_split() {
    assert_eq!(wrap_text("abcdefghij", 4), vec!["abcd", "efgh", "ij"]);
    assert_eq!(wrap_text("abcdefgh", 4), vec!["abcd", "efgh"]);
}

#[test]
fn split_tail_shares_line_with_next_word() {
    // After hard-splitting, the tail keeps collecting words that fit.
    assert_eq!(wrap_text("abcdef x", 4), vec!["abcd", "ef x"]);
}

#[test]
fn repeated_spaces_collapse() {
    assert_eq!(wrap_text("a   b", 10), vec!["a b"]);
}

#[test]
fn every_line_fits_the_width() {
    let text = "the quick brown fox jumps over the lazy dog near a riverbank";
    for width in 1..15usize {
        for line in wrap_text(text, width) {
            assert!(line.chars().count() <= width.max(1));
            assert!(!line.is_empty());
        }
    }
}
