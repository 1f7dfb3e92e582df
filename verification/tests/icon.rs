use now_playing::config::Config;
use now_playing::icon::{select_icon, IconRule};

fn rules(list: &[(&str, &str)]) -> Vec<IconRule> {
    list.iter()
        .map(|(pattern, icon)| IconRule { pattern: pattern.to_string(), icon: icon.to_string() })
        .collect()
}

#[test]
fn the_first_rule_that_applies_gives_the_icon() {
    let r = rules(&[("spotify", "A"), ("firefox", "B")]);
    assert_eq!(select_icon(&r, "D", "org.mpris.MediaPlayer2.spotify"), "A");
    assert_eq!(select_icon(&r, "D", "org.mpris.MediaPlayer2.firefox"), "B");
}

#[test]
fn a_name_with_both_patterns_gets_the_first_icon() {
    let r = rules(&[("spotify", "A"), ("firefox", "B")]);
    assert_eq!(select_icon(&r, "D", "firefox.spotify"), "A");
    assert_eq!(select_icon(&r, "D", "spotify.firefox"), "A");
    assert_eq!(select_icon(&r, "D", "org.mpris.MediaPlayer2.firefox-spotify-bridge"), "A");
}

#[test]
fn the_order_of_the_rules_decides() {
    let r = rules(&[("firefox", "B"), ("spotify", "A")]);
    assert_eq!(select_icon(&r, "D", "firefox.spotify"), "B");
    assert_eq!(select_icon(&r, "D", "spotify.firefox"), "B");
}

#[test]
fn a_name_without_a_pattern_gets_the_default() {
    let r = rules(&[("spotify", "A"), ("firefox", "B")]);
    assert_eq!(select_icon(&r, "D", "org.mpris.MediaPlayer2.vlc"), "D");
    assert_eq!(select_icon(&r, "D", ""), "D");
    assert_eq!(select_icon(&Vec::new(), "D", "org.mpris.MediaPlayer2.spotify"), "D");
}

#[test]
fn letter_case_of_the_name_does_not_matter() {
    let r = rules(&[("spotify", "A"), ("firefox", "B")]);
    assert_eq!(select_icon(&r, "D", "org.mpris.MediaPlayer2.Spotify"), "A");
    assert_eq!(select_icon(&r, "D", "ORG.MPRIS.MEDIAPLAYER2.SPOTIFY"), "A");
    assert_eq!(select_icon(&r, "D", "org.mpris.MediaPlayer2.FireFox"), "B");
}

#[test]
fn a_pattern_is_taken_as_it_is_written() {
    let r = rules(&[("Spotify", "A"), ("firefox", "B")]);
    assert_eq!(select_icon(&r, "D", "org.mpris.MediaPlayer2.Spotify"), "D");
    assert_eq!(select_icon(&r, "D", "org.mpris.MediaPlayer2.spotify"), "D");
    assert_eq!(select_icon(&r, "D", "Spotify.Firefox"), "B");
}

#[test]
fn firefox_instance_gets_the_firefox_icon() {
    let c = Config::standard();
    assert_eq!(
        select_icon(&c.icons, &c.default_icon, "org.mpris.MediaPlayer2.firefox.instance123"),
        "\u{f269}"
    );
    assert_eq!(
        select_icon(&c.icons, &c.default_icon, "org.mpris.MediaPlayer2.firefox"),
        "\u{f269}"
    );
}

#[test]
fn standard_icons() {
    let c = Config::standard();
    assert_eq!(select_icon(&c.icons, &c.default_icon, "org.mpris.MediaPlayer2.spotify"), "\u{f1bc}");
    assert_eq!(select_icon(&c.icons, &c.default_icon, "org.mpris.MediaPlayer2.vlc"), "\u{f001}");
    assert_eq!(select_icon(&c.icons, &c.default_icon, "org.mpris.MediaPlayer2.default"), "\u{f001}");
}
