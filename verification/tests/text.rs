use tootmirror::markup::tidy;
use tootmirror::text::{
    char_is_white_space, contains_char, from_chars, replace_all_chars, to_chars,
};

fn replaced(text: &str, from: &str, to: &str) -> String {
    from_chars(&replace_all_chars(&to_chars(text), &to_chars(from), &to_chars(to)))
}

fn trimmed(text: &str) -> String {
    tidy(text)
}

#[test]
fn chars_round_trip() {
    let chars = to_chars("añ→z");
    assert_eq!(chars, vec!['a', 'ñ', '→', 'z']);
    assert_eq!(from_chars(&chars), "añ→z");
    assert_eq!(from_chars(&Vec::new()), "");
}

#[test]
fn replace_all_resumes_after_each_occurrence() {
    assert_eq!(replaced("aaaa", "aa", "b"), "bb");
    assert_eq!(replaced("aaa", "aa", "b"), "ba");
    assert_eq!(replaced("x<br>y<br>", "<br>", "\n"), "x\ny\n");
    assert_eq!(replaced("abc", "abcd", "x"), "abc");
    assert_eq!(replaced("", "a", "x"), "");
}

#[test]
fn replace_all_does_not_look_at_what_it_wrote() {
    assert_eq!(replaced("aab", "ab", "b"), "ab");
    assert_eq!(replaced("&amp;amp;", "&amp;", "&"), "&amp;");
}

#[test]
fn replace_all_with_empty_pattern_changes_nothing() {
    assert_eq!(replaced("abc", "", "x"), "abc");
}

#[test]
fn replace_all_agrees_with_std() {
    for (text, from, to) in [
        ("https://a.example/", "https://", ""),
        ("<p>a</p><p>b</p>", "</p><p>", "\n\n"),
        ("ababab", "aba", "c"),
        ("ñañaña", "ña", "x"),
    ] {
        assert_eq!(replaced(text, from, to), text.replace(from, to));
    }
}

#[test]
fn trim_drops_white_space_at_both_ends_only() {
    assert_eq!(trimmed("  a b \n"), "a b");
    assert_eq!(trimmed("\u{a0}\u{3000}x\u{2028}"), "x");
    assert_eq!(trimmed(" \t\r\n"), "");
    assert_eq!(trimmed(""), "");
    assert_eq!(trimmed("x"), "x");
}

#[test]
fn white_space_agrees_with_std_on_every_char() {
    let mut c = 0u32;
    while c <= 0x10ffff {
        if let Some(ch) = char::from_u32(c) {
            assert_eq!(char_is_white_space(ch), ch.is_whitespace(), "U+{:04X}", c);
        }
        c += 1;
    }
}

#[test]
fn contains_char_finds_any_position() {
    assert!(contains_char(&to_chars("a@b"), '@'));
    assert!(contains_char(&to_chars("@"), '@'));
    assert!(!contains_char(&to_chars("ab"), '@'));
    assert!(!contains_char(&to_chars(""), '@'));
}
