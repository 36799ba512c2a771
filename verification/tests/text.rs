use sound_player::text::{eq_ignore_ascii_case, is_whitespace, same_text, trim};

#[test]
fn trimming_removes_unicode_whitespace_at_both_ends() {
    assert_eq!(trim("  xin chào \n"), "xin chào");
    assert_eq!(trim("\u{3000}bạn\u{00A0}"), "bạn");
    assert_eq!(trim("   "), "");
    assert_eq!(trim("a b"), "a b");
}

#[test]
fn whitespace_is_the_unicode_property() {
    for c in [' ', '\t', '\n', '\u{85}', '\u{2003}', '\u{3000}'] {
        assert!(is_whitespace(c), "{c:?}");
        assert_eq!(is_whitespace(c), c.is_whitespace());
    }
    for c in ['a', '_', '\u{200B}', 'ế'] {
        assert!(!is_whitespace(c), "{c:?}");
        assert_eq!(is_whitespace(c), c.is_whitespace());
    }
}

#[test]
fn ascii_case_is_ignored_and_nothing_else() {
    assert!(eq_ignore_ascii_case("MP3", "mp3"));
    assert!(!eq_ignore_ascii_case("Ế", "ế"));
    assert!(!eq_ignore_ascii_case("mp3", "mp"));
    assert!(same_text("ế", "ế"));
    assert!(!same_text("a", "b"));
}
