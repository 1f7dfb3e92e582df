use now_playing::chars::{chars_of, contains, holds_at, same_chars, same_text, starts_with, string_of};

fn v(s: &str) -> Vec<char> {
    s.chars().collect()
}

#[test]
fn text_goes_to_characters_and_back() {
    assert_eq!(chars_of("a\u{4e2d}b"), vec!['a', '\u{4e2d}', 'b']);
    assert_eq!(chars_of(""), Vec::<char>::new());
    assert_eq!(string_of(&vec!['a', '\u{4e2d}', 'b']), "a\u{4e2d}b");
    assert_eq!(string_of(&Vec::new()), "");
}

#[test]
fn equal_texts_are_the_same() {
    assert!(same_text("abc", "abc"));
    assert!(same_text("", ""));
    assert!(!same_text("abc", "abd"));
    assert!(!same_text("abc", "ab"));
    assert!(!same_text("", "a"));
    assert!(same_chars(&v("xy"), &v("xy")));
    assert!(!same_chars(&v("xy"), &v("yx")));
}

#[test]
fn a_part_is_found_where_it_stands() {
    assert!(holds_at(&v("hello"), &v("ll"), 2));
    assert!(!holds_at(&v("hello"), &v("ll"), 1));
    assert!(holds_at(&v("hello"), &v(""), 5));
    assert!(!holds_at(&v("hello"), &v(""), 6));
    assert!(!holds_at(&v("hello"), &v("lo!"), 3));
    assert!(!holds_at(&v("hello"), &v("h"), usize::MAX));
}

#[test]
fn a_text_starts_with_its_prefixes() {
    assert!(starts_with(&v("hello"), &v("he")));
    assert!(starts_with(&v("hello"), &v("")));
    assert!(starts_with(&v("hello"), &v("hello")));
    assert!(!starts_with(&v("hello"), &v("el")));
    assert!(!starts_with(&v("he"), &v("hello")));
}

#[test]
fn a_part_is_found_anywhere() {
    assert!(contains(&v("hello"), &v("hel")));
    assert!(contains(&v("hello"), &v("ell")));
    assert!(contains(&v("hello"), &v("lo")));
    assert!(contains(&v("hello"), &v("")));
    assert!(contains(&v(""), &v("")));
    assert!(!contains(&v("hello"), &v("leh")));
    assert!(!contains(&v("hello"), &v("hello!")));
    assert!(!contains(&v(""), &v("a")));
    assert!(contains(&v("aab"), &v("ab")));
}
