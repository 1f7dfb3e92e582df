use now_playing::width::{char_columns, width};

#[test]
fn empty_text_has_no_width() {
    assert_eq!(width(""), 0);
}

#[test]
fn ascii_text_is_one_column_per_character() {
    assert_eq!(width("Song - Artist"), 13);
    assert_eq!(width(" "), 1);
}

#[test]
fn wide_characters_take_two_columns() {
    assert_eq!(char_columns('a'), 1);
    assert_eq!(char_columns('\u{4e2d}'), 2);
    assert_eq!(char_columns('\u{ff21}'), 2);
    assert_eq!(width("\u{4e2d}\u{6587}"), 4);
    assert_eq!(width("a\u{4e2d}b"), 4);
}

#[test]
fn every_other_character_takes_one_column() {
    // a control code, a Latin-1 letter, a combining accent, a private-use glyph
    assert_eq!(char_columns('\n'), 1);
    assert_eq!(char_columns('\u{e9}'), 1);
    assert_eq!(char_columns('\u{301}'), 1);
    assert_eq!(char_columns('\u{f001}'), 1);
    assert_eq!(width("e\u{301}"), 2);
}

#[test]
fn width_is_additive_over_concatenation() {
    let parts = ["", "abc", "\u{4e2d}\u{6587}", "a\u{4e2d}", " - ", "\r\n"];
    for a in parts {
        for b in parts {
            let joined = format!("{}{}", a, b);
            assert_eq!(width(&joined), width(a) + width(b));
        }
    }
}
