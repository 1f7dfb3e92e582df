//! The constants of the widget, gathered in one value.

use vstd::prelude::*;
use vstd::string::*;
use crate::chars::texts;
use crate::icon::IconRule;

verus! {

/// The glyphs of the transport buttons.
pub struct ControlGlyphs {
    pub previous: String,
    pub play: String,
    pub pause: String,
    pub next: String,
}

/// What the presentation depends on besides the players.
pub struct Config {
    /// Columns that the scrolling text may occupy.
    pub display_width: usize,
    /// Index of the bar's font in which the text is set.
    pub font_index: u32,
    /// Milliseconds between two ticks.
    pub update_delay: u64,
    pub glyphs: ControlGlyphs,
    /// The icon list, in the order in which it is tried.
    pub icons: Vec<IconRule>,
    /// The icon of a player that no entry of the list applies to.
    pub default_icon: String,
    /// The metadata fields that are shown, in order.
    pub fields: Vec<String>,
    /// Stands, with a space on either side, between two fields.
    pub separator: char,
    /// Whether an empty line is shown while there is no player.
    pub hide_output: bool,
}

impl Config {
    /// The widget's own constants.
    pub fn standard() -> (c: Config)
        ensures
            c.display_width == 20,
            c.font_index == 1,
            c.update_delay == 300,
            c.separator == '-',
            !c.hide_output,
            texts(c.fields@) == seq!["xesam:title"@, "xesam:artist"@],
            c.icons.len() == 3,
            c.icons[0].pattern@ == "spotify"@,
            c.icons[0].icon@ == "\u{f1bc}"@,
            c.icons[1].pattern@ == "firefox"@,
            c.icons[1].icon@ == "\u{f269}"@,
            c.icons[2].pattern@ == "default"@,
            c.icons[2].icon@ == "\u{f001}"@,
            c.default_icon@ == "\u{f001}"@,
            c.glyphs.previous@ == "\u{f048}"@,
            c.glyphs.play@ == "\u{f04b}"@,
            c.glyphs.pause@ == "\u{f04c}"@,
            c.glyphs.next@ == "\u{f051}"@,
    {
        let mut icons: Vec<IconRule> = Vec::new();
        icons.push(
            IconRule { pattern: String::from_str("spotify"), icon: String::from_str("\u{f1bc}") },
        );
        icons.push(
            IconRule { pattern: String::from_str("firefox"), icon: String::from_str("\u{f269}") },
        );
        icons.push(
            IconRule { pattern: String::from_str("default"), icon: String::from_str("\u{f001}") },
        );
        let mut fields: Vec<String> = Vec::new();
        fields.push(String::from_str("xesam:title"));
        fields.push(String::from_str("xesam:artist"));
        assert(texts(fields@) =~= seq!["xesam:title"@, "xesam:artist"@]);
        Config {
            display_width: 20,
            font_index: 1,
            update_delay: 300,
            glyphs: ControlGlyphs {
                previous: String::from_str("\u{f048}"),
                play: String::from_str("\u{f04b}"),
                pause: String::from_str("\u{f04c}"),
                next: String::from_str("\u{f051}"),
            },
            icons,
            default_icon: String::from_str("\u{f001}"),
            fields,
            separator: '-',
            hide_output: false,
        }
    }
}

} // verus!
