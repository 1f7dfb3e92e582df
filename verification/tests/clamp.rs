use now_playing::clamp::clamp;
use now_playing::width::width;

#[test]
fn short_text_is_padded_on_the_right() {
    assert_eq!(clamp("ab", 5), "ab   ");
    assert_eq!(clamp("", 3), "   ");
}

#[test]
fn long_text_is_cut() {
    assert_eq!(clamp("abcdef", 3), "abc");
    assert_eq!(clamp("abcdef", 0), "");
}

#[test]
fn text_of_exact_width_is_unchanged() {
    assert_eq!(clamp("abc", 3), "abc");
    assert_eq!(clamp("\u{4e2d}a", 3), "\u{4e2d}a");
}

#[test]
fn wide_characters_count_double() {
    assert_eq!(clamp("\u{4e2d}\u{6587}\u{5b57}", 4), "\u{4e2d}\u{6587}");
    assert_eq!(clamp("\u{4e2d}", 5), "\u{4e2d}   ");
}

#[test]
fn wide_character_on_the_boundary_becomes_a_space() {
    assert_eq!(clamp("ab\u{4e2d}cd", 3), "ab ");
    assert_eq!(clamp("\u{4e2d}\u{6587}", 3), "\u{4e2d} ");
    assert_eq!(clamp("\u{4e2d}", 1), " ");
}

#[test]
fn nothing_behind_the_cut_is_taken() {
    // the narrow character behind the wide one would fit, but is not reached
    assert_eq!(clamp("a\u{4e2d}b", 2), "a ");
}

#[test]
fn clamped_text_has_the_target_width() {
    let texts = ["", "a", "abcdefghij", "\u{4e2d}\u{6587}\u{5b57}", "a\u{4e2d}b\u{6587}c", "e\u{301}x"];
    for text in texts {
        for target in 0..12 {
            assert_eq!(width(&clamp(text, target)), target);
        }
    }
}

#[test]
fn clamping_twice_is_clamping_once() {
    let texts = ["", "a", "abcdefghij", "\u{4e2d}\u{6587}\u{5b57}", "a\u{4e2d}b\u{6587}c"];
    for text in texts {
        for target in 0..12 {
            let once = clamp(text, target);
            assert_eq!(clamp(&once, target), once);
        }
    }
}
