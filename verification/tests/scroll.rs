use now_playing::scroll::{rotate, ScrollBuffer};

fn buffer(text: &str, target: usize, paused: bool) -> ScrollBuffer {
    ScrollBuffer { text: text.to_string(), target, paused }
}

#[test]
fn rotation_moves_the_first_character_to_the_end() {
    assert_eq!(rotate("abc"), "bca");
    assert_eq!(rotate("a"), "a");
    assert_eq!(rotate(""), "");
}

#[test]
fn rotation_moves_a_whole_character_not_a_byte() {
    assert_eq!(rotate("\u{4e2d}ab"), "ab\u{4e2d}");
    assert_eq!(rotate("\u{e9}t\u{e9}"), "t\u{e9}\u{e9}");
}

#[test]
fn rotating_once_per_character_returns_the_text() {
    let texts = ["", "a", "abcdef", "\u{4e2d}a\u{6587}b", " - Title - Artist |"];
    for text in texts {
        let mut rotated = text.to_string();
        for _ in 0..text.chars().count() {
            rotated = rotate(&rotated);
        }
        assert_eq!(rotated, text);
    }
}

#[test]
fn rotation_keeps_the_characters() {
    let text = "a\u{4e2d}b\u{6587}a";
    let mut before: Vec<char> = text.chars().collect();
    let mut after: Vec<char> = rotate(text).chars().collect();
    before.sort();
    after.sort();
    assert_eq!(before, after);
}

#[test]
fn new_buffer_is_not_paused() {
    let b = ScrollBuffer::new("abc".to_string(), 7);
    assert_eq!(b.text, "abc");
    assert_eq!(b.target, 7);
    assert!(!b.paused);
}

#[test]
fn tick_rotates_a_buffer_that_is_too_wide() {
    let mut b = buffer("abcdef", 4, false);
    b.tick();
    assert_eq!(b.text, "bcdefa");
    b.tick();
    assert_eq!(b.text, "cdefab");
    assert_eq!(b.target, 4);
    assert!(!b.paused);
}

#[test]
fn tick_measures_columns_not_characters() {
    // three characters, five columns
    let mut b = buffer("\u{4e2d}\u{6587}a", 4, false);
    b.tick();
    assert_eq!(b.text, "\u{6587}a\u{4e2d}");
}

#[test]
fn tick_pads_a_buffer_that_is_too_narrow() {
    let mut b = buffer("ab", 5, false);
    b.tick();
    assert_eq!(b.text, "ab   ");
    b.tick();
    assert_eq!(b.text, "ab   ");
}

#[test]
fn tick_leaves_a_buffer_of_exact_width() {
    let mut b = buffer("abcd", 4, false);
    b.tick();
    assert_eq!(b.text, "abcd");
}

#[test]
fn tick_leaves_a_paused_buffer() {
    let mut wide = buffer("abcdef", 4, true);
    wide.tick();
    wide.tick();
    assert_eq!(wide.text, "abcdef");
    let mut narrow = buffer("ab", 4, true);
    narrow.tick();
    assert_eq!(narrow.text, "ab");
    assert!(narrow.paused);
}

#[test]
fn ticks_visit_every_rotation_and_repeat() {
    let mut b = buffer("abcd", 2, false);
    let mut seen = Vec::new();
    for _ in 0..4 {
        b.tick();
        seen.push(b.text.clone());
    }
    assert_eq!(seen, vec!["bcda", "cdab", "dabc", "abcd"]);
    b.tick();
    assert_eq!(b.text, "bcda");
}

#[test]
fn window_shows_the_first_columns() {
    assert_eq!(buffer("abcdef", 4, false).window(), "abcd");
    assert_eq!(buffer("ab", 4, true).window(), "ab  ");
    assert_eq!(buffer("abc\u{4e2d}", 4, false).window(), "abc ");
}
