//! The widget as a state machine: one step per tick, from what was read off
//! the bus to the line that the bar shows.

use vstd::prelude::*;
use crate::clamp::{clamped, lemma_clamped_pads};
use crate::config::Config;
use crate::chars::texts;
use crate::format::{
    build, idle, idle_presentation, joined_fields, lemma_body_width, marquee_text,
    player_presentation, DisplayState, Presentation,
};
use crate::line::{render, rendered};
use crate::registry::PlayerRegistry;
use crate::scroll::{
    lemma_reachable_start, lemma_ticked_by_paused, lemma_ticked_by_rotates,
    lemma_ticked_reachable, reachable, rotated, rotated_by, ticked, ticked_by, ScrollBuffer,
};
use crate::status::{PlaybackStatus, TrackMetadata};
use crate::width::{text_width, width};

verus! {

/// The text from which the marquee goes on when `fresh` is built: the
/// current rotation if the text is the one shown before, the fresh text
/// otherwise.
pub open spec fn resumed(source: Seq<char>, shown: Presentation, fresh: Presentation) -> Seq<char> {
    if fresh.body == source {
        shown.body
    } else {
        fresh.body
    }
}

/// The state after a tick on which `fresh` was built: everything is taken
/// from `fresh` but the body. If the fresh text is the one that was shown
/// before (`source`), the body goes on from its current rotation; if the
/// text has changed, it starts again unrotated. Either way it is advanced
/// by one tick.
pub open spec fn advanced(
    display_width: nat,
    source: Seq<char>,
    shown: Presentation,
    fresh: Presentation,
) -> Presentation {
    Presentation {
        prefix: fresh.prefix,
        body: ticked(resumed(source, shown, fresh), display_width, fresh.paused),
        suffix: fresh.suffix,
        paused: fresh.paused,
    }
}

/// What is shown after `n` ticks in a row on which the same `fresh`
/// presentation was built, starting from the text `source` and the state
/// `shown`.
pub open spec fn advanced_by(
    display_width: nat,
    source: Seq<char>,
    shown: Presentation,
    fresh: Presentation,
    n: nat,
) -> Presentation
    decreases n,
{
    if n == 0 {
        shown
    } else if n == 1 {
        advanced(display_width, source, shown, fresh)
    } else {
        advanced(
            display_width,
            fresh.body,
            advanced_by(display_width, source, shown, fresh, (n - 1) as nat),
            fresh,
        )
    }
}

/// While the players' answers do not change, the widget does to the text
/// what the marquee alone would do: `n` ticks of the widget are `n` ticks of
/// the buffer.
pub proof fn lemma_unchanged_input_ticks(
    display_width: nat,
    source: Seq<char>,
    shown: Presentation,
    fresh: Presentation,
    n: nat,
)
    requires
        n >= 1,
    ensures
        advanced_by(display_width, source, shown, fresh, n).body == ticked_by(
            resumed(source, shown, fresh),
            display_width,
            fresh.paused,
            n,
        ),
        advanced_by(display_width, source, shown, fresh, n).prefix == fresh.prefix,
        advanced_by(display_width, source, shown, fresh, n).suffix == fresh.suffix,
        advanced_by(display_width, source, shown, fresh, n).paused == fresh.paused,
    decreases n,
{
    let start = resumed(source, shown, fresh);
    if n == 1 {
        assert(ticked_by(start, display_width, fresh.paused, 0) == start);
    } else {
        lemma_unchanged_input_ticks(display_width, source, shown, fresh, (n - 1) as nat);
    }
}

/// A tick leads from a state whose body is a form of its text to another
/// such state.
pub proof fn lemma_advanced_reachable(
    display_width: nat,
    source: Seq<char>,
    shown: Presentation,
    fresh: Presentation,
)
    requires
        reachable(source, display_width, shown.body),
    ensures
        reachable(fresh.body, display_width, resumed(source, shown, fresh)),
        reachable(fresh.body, display_width, advanced(display_width, source, shown, fresh).body),
{
    let start = resumed(source, shown, fresh);
    if fresh.body != source {
        lemma_reachable_start(fresh.body, display_width);
    }
    lemma_ticked_reachable(fresh.body, display_width, start, fresh.paused);
}

/// So do `n` ticks on which the same presentation was built.
pub proof fn lemma_advanced_by_reachable(
    display_width: nat,
    source: Seq<char>,
    shown: Presentation,
    fresh: Presentation,
    n: nat,
)
    requires
        reachable(source, display_width, shown.body),
        n >= 1,
    ensures
        reachable(
            fresh.body,
            display_width,
            advanced_by(display_width, source, shown, fresh, n).body,
        ),
    decreases n,
{
    if n == 1 {
        lemma_advanced_reachable(display_width, source, shown, fresh);
    } else {
        lemma_advanced_by_reachable(display_width, source, shown, fresh, (n - 1) as nat);
        lemma_advanced_reachable(
            display_width,
            fresh.body,
            advanced_by(display_width, source, shown, fresh, (n - 1) as nat),
            fresh,
        );
    }
}

/// A text that fits stands still. If the joined fields of a player fit the
/// display, then after any number of ticks with that same answer the body
/// is the joined fields, as they are or padded to the display width: it is
/// not wrapped in the marquee's markers, it is never rotated, and the next
/// tick with the same answer leaves it as it is. While the player plays,
/// the body is the padded form.
pub proof fn lemma_static_stands_still(
    config: Config,
    name: Seq<char>,
    status: PlaybackStatus,
    metadata: Map<Seq<char>, Seq<char>>,
    source: Seq<char>,
    shown: Presentation,
    n: nat,
)
    requires
        reachable(source, config.display_width as nat, shown.body),
        text_width(joined_fields(metadata, texts(config.fields@), config.separator))
            <= config.display_width,
        n >= 1,
    ensures
        ({
            let width = config.display_width as nat;
            let joined = joined_fields(metadata, texts(config.fields@), config.separator);
            let fresh = player_presentation(config, name, status, metadata);
            let body = advanced_by(width, source, shown, fresh, n).body;
            &&& fresh.body == joined
            &&& body == joined || body == clamped(joined, width)
            &&& status == PlaybackStatus::Playing ==> body == clamped(joined, width)
            &&& advanced_by(width, source, shown, fresh, n + 1).body == body
        }),
{
    let width = config.display_width as nat;
    let joined = joined_fields(metadata, texts(config.fields@), config.separator);
    let fresh = player_presentation(config, name, status, metadata);
    let before = advanced_by(width, source, shown, fresh, (n - 1) as nat);
    let start = if n == 1 {
        resumed(source, shown, fresh)
    } else {
        before.body
    };
    lemma_clamped_pads(joined, width);
    if n == 1 {
        lemma_advanced_reachable(width, source, shown, fresh);
    } else {
        lemma_advanced_by_reachable(width, source, shown, fresh, (n - 1) as nat);
    }
    assert(reachable(joined, width, start));
    assert(advanced_by(width, source, shown, fresh, n).body == ticked(start, width, fresh.paused));
    lemma_ticked_reachable(joined, width, start, fresh.paused);
}

/// While the player does not play, the text is frozen: no tick with the
/// same answer moves it, whether it fits or not.
pub proof fn lemma_paused_is_frozen(
    config: Config,
    name: Seq<char>,
    status: PlaybackStatus,
    metadata: Map<Seq<char>, Seq<char>>,
    source: Seq<char>,
    shown: Presentation,
    n: nat,
)
    requires
        status != PlaybackStatus::Playing,
        n >= 1,
    ensures
        ({
            let width = config.display_width as nat;
            let fresh = player_presentation(config, name, status, metadata);
            &&& fresh.paused
            &&& advanced_by(width, source, shown, fresh, n).body == resumed(source, shown, fresh)
            &&& fresh.body == source ==> advanced_by(width, source, shown, fresh, n).body
                == shown.body
        }),
{
    let width = config.display_width as nat;
    let fresh = player_presentation(config, name, status, metadata);
    lemma_unchanged_input_ticks(width, source, shown, fresh, n);
    lemma_ticked_by_paused(resumed(source, shown, fresh), width, n);
}

/// While the player plays, a text that is too wide goes round. If the
/// joined fields of a playing player do not fit the display, the body is
/// the marquee made of them, and every tick with that same answer rotates
/// it by one character, from where the last tick left it.
pub proof fn lemma_playing_scrolls(
    config: Config,
    name: Seq<char>,
    metadata: Map<Seq<char>, Seq<char>>,
    source: Seq<char>,
    shown: Presentation,
    n: nat,
)
    requires
        reachable(source, config.display_width as nat, shown.body),
        text_width(joined_fields(metadata, texts(config.fields@), config.separator))
            > config.display_width,
        n >= 1,
    ensures
        ({
            let width = config.display_width as nat;
            let joined = joined_fields(metadata, texts(config.fields@), config.separator);
            let fresh = player_presentation(config, name, PlaybackStatus::Playing, metadata);
            &&& fresh.body == marquee_text(joined, config.separator)
            &&& !fresh.paused
            &&& fresh.body == source ==> advanced(width, source, shown, fresh).body == rotated(
                shown.body,
            )
            &&& advanced_by(width, source, shown, fresh, n).body == rotated_by(
                resumed(source, shown, fresh),
                n,
            )
            &&& advanced_by(width, source, shown, fresh, n + 1).body == rotated(
                advanced_by(width, source, shown, fresh, n).body,
            )
        }),
{
    let width = config.display_width as nat;
    let fresh = player_presentation(config, name, PlaybackStatus::Playing, metadata);
    let start = resumed(source, shown, fresh);
    lemma_body_width(metadata, texts(config.fields@), config.separator, width);
    lemma_advanced_reachable(width, source, shown, fresh);
    lemma_ticked_reachable(fresh.body, width, start, false);
    lemma_unchanged_input_ticks(width, source, shown, fresh, n);
    lemma_unchanged_input_ticks(width, source, shown, fresh, n + 1);
    lemma_ticked_by_rotates(start, width, n);
    lemma_ticked_by_rotates(start, width, n + 1);
}

/// The four states of the widget.
#[derive(Clone, Copy, Debug, PartialEq, Eq, Structural)]
pub enum Mode {
    /// No player is on the bus.
    Idle,
    /// The text fits and stands still.
    Static,
    /// The text is too wide and goes round.
    Scrolling,
    /// The text is too wide, and stands still while the player does not play.
    Paused,
}

/// The state that a presentation with the unrotated text `source` puts the
/// widget in.
pub open spec fn mode_of(has_player: bool, display_width: nat, source: Seq<char>, paused: bool)
    -> Mode {
    if !has_player {
        Mode::Idle
    } else if text_width(source) <= display_width {
        Mode::Static
    } else if paused {
        Mode::Paused
    } else {
        Mode::Scrolling
    }
}

/// What came of asking the current player for its status and metadata.
pub enum Reading {
    /// The player answered.
    Fetched { status: PlaybackStatus, metadata: TrackMetadata },
    /// The player could not be reached, or its answer was malformed.
    Failed,
}

/// The widget between two ticks.
pub struct Widget {
    pub config: Config,
    pub registry: PlayerRegistry,
    /// The unrotated text of the last presentation.
    pub source: String,
    /// What the last line showed; its body is the text as currently rotated.
    pub shown: DisplayState,
    pub mode: Mode,
}

impl Widget {
    /// A widget that has seen no player yet.
    pub fn new(config: Config) -> (w: Widget)
        ensures
            w.config == config,
            w.registry.wf(),
            w.registry.names().len() == 0,
            w.source@ == Seq::<char>::empty(),
            w.shown@ == idle_presentation(),
            w.mode == Mode::Idle,
            w.wf(),
    {
        Widget {
            config,
            registry: PlayerRegistry::new(),
            source: String::new(),
            shown: idle(),
            mode: Mode::Idle,
        }
    }

    /// The body that is shown is a form of the text that it shows: one of
    /// its rotations if the text is wider than the display, and otherwise
    /// the text itself, as it is or padded to the display width.
    pub open spec fn wf(&self) -> bool {
        reachable(self.source@, self.config.display_width as nat, self.shown.body@)
    }

    /// What a tick with the given reading presents, before scrolling: the
    /// idle presentation if there is no current player, nothing if the
    /// reading failed, and the player's presentation otherwise.
    pub open spec fn fresh(&self, reading: Reading) -> Option<Presentation> {
        match self.registry.current_name() {
            None => Some(idle_presentation()),
            Some(name) => match reading {
                Reading::Failed => None,
                Reading::Fetched { status, metadata } => Some(
                    player_presentation(self.config, name, status, metadata@),
                ),
            },
        }
    }

    /// The line of a tick: empty if the widget hides itself while idle, and
    /// the rendered state otherwise.
    pub open spec fn line(&self) -> Seq<char> {
        if self.config.hide_output && self.mode == Mode::Idle {
            Seq::empty()
        } else {
            rendered(self.config, self.shown@)
        }
    }

    /// One tick. `reading` is what the current player of the registry
    /// answered; it is not looked at while the registry has no current
    /// player.
    ///
    /// A failed reading changes nothing and gives no line: the bar keeps
    /// the last one. Every other tick replaces the display state, moves the
    /// text on by one tick of the marquee, and returns the line to show.
    pub fn update(&mut self, reading: Reading) -> (r: Option<String>)
        ensures
            final(self).config == old(self).config,
            final(self).registry == old(self).registry,
            old(self).wf() ==> final(self).wf(),
            match old(self).fresh(reading) {
                None => r is None && *final(self) == *old(self),
                Some(fresh) => {
                    &&& final(self).source@ == fresh.body
                    &&& final(self).shown@ == advanced(
                        old(self).config.display_width as nat,
                        old(self).source@,
                        old(self).shown@,
                        fresh,
                    )
                    &&& final(self).mode == mode_of(
                        old(self).registry.current_name() is Some,
                        old(self).config.display_width as nat,
                        fresh.body,
                        fresh.paused,
                    )
                    &&& r matches Some(line) && line@ == final(self).line()
                },
            },
    {
        let has_player = self.registry.current < self.registry.players.len();
        let built = if has_player {
            match reading {
                Reading::Failed => {
                    return None;
                },
                Reading::Fetched { status, metadata } => build(
                    &self.config,
                    self.registry.players[self.registry.current].name.as_str(),
                    status,
                    &metadata,
                ),
            }
        } else {
            idle()
        };
        let start = if built.body == self.source {
            self.shown.body.clone()
        } else {
            built.body.clone()
        };
        proof {
            if self.wf() {
                lemma_advanced_reachable(
                    self.config.display_width as nat,
                    self.source@,
                    self.shown@,
                    built@,
                );
            }
        }
        let mut buffer = ScrollBuffer {
            text: start,
            target: self.config.display_width,
            paused: built.paused,
        };
        buffer.tick();
        self.mode = if !has_player {
            Mode::Idle
        } else if width(built.body.as_str()) <= self.config.display_width {
            Mode::Static
        } else if built.paused {
            Mode::Paused
        } else {
            Mode::Scrolling
        };
        self.source = built.body;
        self.shown = DisplayState {
            prefix: built.prefix,
            body: buffer.text,
            suffix: built.suffix,
            paused: built.paused,
        };
        if self.config.hide_output && !has_player {
            Some(String::new())
        } else {
            Some(render(&self.config, &self.shown))
        }
    }
}

} // verus!
