use now_playing::status::{PlaybackStatus, TrackMetadata};

#[test]
fn the_three_words_are_parsed() {
    assert_eq!(PlaybackStatus::parse("Playing"), PlaybackStatus::Playing);
    assert_eq!(PlaybackStatus::parse("Paused"), PlaybackStatus::Paused);
    assert_eq!(PlaybackStatus::parse("Stopped"), PlaybackStatus::Stopped);
}

#[test]
fn anything_else_is_unknown() {
    assert_eq!(PlaybackStatus::parse(""), PlaybackStatus::Unknown);
    assert_eq!(PlaybackStatus::parse("playing"), PlaybackStatus::Unknown);
    assert_eq!(PlaybackStatus::parse("Playing "), PlaybackStatus::Unknown);
    assert_eq!(PlaybackStatus::parse("Buffering"), PlaybackStatus::Unknown);
}

#[test]
fn only_playing_scrolls() {
    assert!(!PlaybackStatus::Playing.is_suspended());
    assert!(PlaybackStatus::Paused.is_suspended());
    assert!(PlaybackStatus::Stopped.is_suspended());
    assert!(PlaybackStatus::Unknown.is_suspended());
}

#[test]
fn new_metadata_has_no_field() {
    let m = TrackMetadata::new();
    assert!(m.get("xesam:title").is_none());
    assert!(m.get("").is_none());
}

#[test]
fn a_field_that_was_set_is_found() {
    let mut m = TrackMetadata::new();
    m.insert("xesam:title".to_string(), "Song".to_string());
    m.insert("xesam:artist".to_string(), "Band".to_string());
    assert_eq!(m.get("xesam:title").unwrap(), "Song");
    assert_eq!(m.get("xesam:artist").unwrap(), "Band");
    assert!(m.get("xesam:album").is_none());
    assert!(m.get("xesam:titl").is_none());
}

#[test]
fn setting_a_field_again_replaces_its_value() {
    let mut m = TrackMetadata::new();
    m.insert("xesam:title".to_string(), "Song".to_string());
    m.insert("xesam:artist".to_string(), "Band".to_string());
    m.insert("xesam:title".to_string(), "Other".to_string());
    assert_eq!(m.get("xesam:title").unwrap(), "Other");
    assert_eq!(m.get("xesam:artist").unwrap(), "Band");
}

#[test]
fn an_empty_value_is_a_value() {
    let mut m = TrackMetadata::new();
    m.insert("xesam:title".to_string(), String::new());
    assert_eq!(m.get("xesam:title").unwrap(), "");
}
