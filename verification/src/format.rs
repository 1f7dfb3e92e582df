//! From a player's name, status and metadata to the three parts of the line.

use vstd::prelude::*;
use vstd::string::*;
use crate::chars::{chars_of, occurs_at, occurs_in, push_char, string_of, texts};
use crate::config::{Config, ControlGlyphs};
use crate::icon::{icon_for, lemma_first_match_wins, lowercase, select_icon};
use crate::status::{PlaybackStatus, TrackMetadata};
use crate::width::{lemma_width_concat, text_width, width};

verus! {

/// The argument that routes a click to one player: nothing for the empty
/// name, and `-p` with the name otherwise.
pub open spec fn player_option(name: Seq<char>) -> Seq<char> {
    if name.len() == 0 {
        name
    } else {
        "-p "@ + name
    }
}

/// One clickable button: a click runs `playerctl` with `action` for the
/// player `name`; the button shows `glyph`.
pub open spec fn control_segment(name: Seq<char>, action: Seq<char>, glyph: Seq<char>) -> Seq<
    char,
> {
    "%%{A:playerctl "@ + player_option(name) + " "@ + action + " :}"@ + glyph + "%%{A}"@
}

/// The button in the middle: it offers to pause while the player is
/// playing, and to play otherwise.
pub open spec fn toggle_segment(
    glyphs: ControlGlyphs,
    name: Seq<char>,
    status: PlaybackStatus,
) -> Seq<char> {
    if status == PlaybackStatus::Playing {
        control_segment(name, "pause"@, glyphs.pause@)
    } else {
        control_segment(name, "play"@, glyphs.play@)
    }
}

/// The buttons behind the text: previous, play or pause, next.
pub open spec fn control_suffix(
    glyphs: ControlGlyphs,
    name: Seq<char>,
    status: PlaybackStatus,
) -> Seq<char> {
    "| "@ + control_segment(name, "previous"@, glyphs.previous@) + " "@ + toggle_segment(
        glyphs,
        name,
        status,
    ) + " "@ + control_segment(name, "next"@, glyphs.next@)
}

/// Every button carries the name of its player, so that a click reaches
/// that player and no other.
pub proof fn lemma_segment_names_player(name: Seq<char>, action: Seq<char>, glyph: Seq<char>)
    ensures
        occurs_in(control_segment(name, action, glyph), name),
{
    let segment = control_segment(name, action, glyph);
    if name.len() == 0 {
        assert(segment.subrange(0, 0) =~= name);
        assert(occurs_at(segment, name, 0));
    } else {
        let at = ("%%{A:playerctl "@ + "-p "@).len() as int;
        assert(segment.subrange(at, at + name.len()) =~= name);
        assert(occurs_at(segment, name, at));
    }
}

/// Where the part of a field's name behind its last colon begins: 0 if it
/// has no colon.
pub open spec fn short_name_start(field: Seq<char>) -> int
    decreases field.len(),
{
    if field.len() == 0 {
        0
    } else if field.last() == ':' {
        field.len() as int
    } else {
        short_name_start(field.drop_last())
    }
}

/// A field's name without its namespace: what follows the last colon.
pub open spec fn short_name(field: Seq<char>) -> Seq<char> {
    field.skip(short_name_start(field))
}

/// The short name begins behind a colon or at the start, and holds no colon.
pub proof fn lemma_short_name_start(field: Seq<char>)
    ensures
        0 <= short_name_start(field) <= field.len(),
        short_name_start(field) > 0 ==> field[short_name_start(field) - 1] == ':',
        forall|i: int| short_name_start(field) <= i < field.len() ==> field[i] != ':',
    decreases field.len(),
{
    if field.len() > 0 && field.last() != ':' {
        let earlier = field.drop_last();
        lemma_short_name_start(earlier);
        assert forall|i: int| short_name_start(field) <= i < field.len() implies field[i]
            != ':' by {
            if i < earlier.len() {
                assert(field[i] == earlier[i]);
            }
        }
    }
}

/// What is shown for a field: its value, or `No` and its short name if the
/// metadata lacks it.
pub open spec fn field_text(metadata: Map<Seq<char>, Seq<char>>, field: Seq<char>) -> Seq<char> {
    if metadata.contains_key(field) {
        metadata[field]
    } else {
        "No "@ + short_name(field)
    }
}

/// The separator with a space on either side.
pub open spec fn separator_text(separator: char) -> Seq<char> {
    seq![' ', separator, ' ']
}

/// The texts of `fields`, in order, with the separator between each two.
pub open spec fn joined_fields(
    metadata: Map<Seq<char>, Seq<char>>,
    fields: Seq<Seq<char>>,
    separator: char,
) -> Seq<char>
    decreases fields.len(),
{
    if fields.len() == 0 {
        Seq::empty()
    } else if fields.len() == 1 {
        field_text(metadata, fields[0])
    } else {
        joined_fields(metadata, fields.drop_last(), separator) + separator_text(separator)
            + field_text(metadata, fields.last())
    }
}

/// A text that is too wide, made ready to go round: the separator in front
/// and a bar behind mark where it begins again.
pub open spec fn marquee_text(joined: Seq<char>, separator: char) -> Seq<char> {
    separator_text(separator) + joined + " |"@
}

/// The text of the body: the joined fields if they fit into `display_width`
/// columns, and the marquee made of them if they do not.
pub open spec fn body_text(
    metadata: Map<Seq<char>, Seq<char>>,
    fields: Seq<Seq<char>>,
    separator: char,
    display_width: nat,
) -> Seq<char> {
    let joined = joined_fields(metadata, fields, separator);
    if text_width(joined) > display_width {
        marquee_text(joined, separator)
    } else {
        joined
    }
}

/// The body is wider than the display exactly if the joined fields are:
/// the marquee made of a text is wider than the text.
pub proof fn lemma_body_width(
    metadata: Map<Seq<char>, Seq<char>>,
    fields: Seq<Seq<char>>,
    separator: char,
    display_width: nat,
)
    ensures
        text_width(body_text(metadata, fields, separator, display_width)) > display_width
            <==> text_width(joined_fields(metadata, fields, separator)) > display_width,
{
    let joined = joined_fields(metadata, fields, separator);
    lemma_width_concat(separator_text(separator), joined);
    lemma_width_concat(separator_text(separator) + joined, " |"@);
}

/// What one tick shows: the icon, the text, the buttons, and whether
/// scrolling is suspended.
pub struct DisplayState {
    pub prefix: String,
    pub body: String,
    pub suffix: String,
    pub paused: bool,
}

/// A display state as plain texts.
pub ghost struct Presentation {
    pub prefix: Seq<char>,
    pub body: Seq<char>,
    pub suffix: Seq<char>,
    pub paused: bool,
}

impl View for DisplayState {
    type V = Presentation;

    open spec fn view(&self) -> Presentation {
        Presentation {
            prefix: self.prefix@,
            body: self.body@,
            suffix: self.suffix@,
            paused: self.paused,
        }
    }
}

/// The presentation of the player `name` with the given status and
/// metadata: the icon that its name selects, its unrotated text, and its
/// buttons; scrolling is suspended unless it is playing.
pub open spec fn player_presentation(
    config: Config,
    name: Seq<char>,
    status: PlaybackStatus,
    metadata: Map<Seq<char>, Seq<char>>,
) -> Presentation {
    Presentation {
        prefix: icon_for(config.icons@, config.default_icon@, name),
        body: body_text(
            metadata,
            texts(config.fields@),
            config.separator,
            config.display_width as nat,
        ),
        suffix: control_suffix(config.glyphs, name, status),
        paused: status.suspends(),
    }
}

/// The pattern that is listed first wins: a player whose name, put in
/// lowercase, holds the first pattern of the icon list gets the first icon,
/// whichever other patterns its name holds as well and wherever in the name
/// they stand.
pub proof fn lemma_first_listed_icon_wins(
    config: Config,
    name: Seq<char>,
    status: PlaybackStatus,
    metadata: Map<Seq<char>, Seq<char>>,
)
    requires
        config.icons.len() > 0,
        occurs_in(lowercase(name), config.icons[0].pattern@),
    ensures
        player_presentation(config, name, status, metadata).prefix == config.icons[0].icon@,
{
    lemma_first_match_wins(config.icons@, config.default_icon@, name, 0);
}

/// The presentation while no player is on the bus: no icon, no text, and a
/// notice in place of the buttons.
pub open spec fn idle_presentation() -> Presentation {
    Presentation {
        prefix: Seq::empty(),
        body: Seq::empty(),
        suffix: "No player available"@,
        paused: true,
    }
}

/// Appends one button to `out`.
fn push_segment(out: &mut String, name: &str, action: &str, glyph: &str)
    ensures
        final(out)@ == old(out)@ + control_segment(name@, action@, glyph@),
{
    let ghost before = out@;
    out.append("%%{A:playerctl ");
    if !name.is_empty() {
        out.append("-p ");
        out.append(name);
    }
    out.append(" ");
    out.append(action);
    out.append(" :}");
    out.append(glyph);
    out.append("%%{A}");
    assert(out@ =~= before + control_segment(name@, action@, glyph@));
}

/// One clickable button for the player `name`.
pub fn segment(name: &str, action: &str, glyph: &str) -> (r: String)
    ensures
        r@ == control_segment(name@, action@, glyph@),
{
    let mut out = String::new();
    push_segment(&mut out, name, action, glyph);
    assert(out@ =~= control_segment(name@, action@, glyph@));
    out
}

/// The buttons for the player `name` under `status`.
pub fn suffix(glyphs: &ControlGlyphs, name: &str, status: PlaybackStatus) -> (r: String)
    ensures
        r@ == control_suffix(*glyphs, name@, status),
{
    let mut out = String::from_str("| ");
    push_segment(&mut out, name, "previous", glyphs.previous.as_str());
    out.append(" ");
    match status {
        PlaybackStatus::Playing => {
            push_segment(&mut out, name, "pause", glyphs.pause.as_str());
        },
        _ => {
            push_segment(&mut out, name, "play", glyphs.play.as_str());
        },
    }
    out.append(" ");
    push_segment(&mut out, name, "next", glyphs.next.as_str());
    out
}

/// A field's name without its namespace.
pub fn short_field_name(field: &str) -> (r: String)
    ensures
        r@ == short_name(field@),
{
    let v = chars_of(field);
    let mut start: usize = v.len();
    assert(v@.take(start as int) =~= v@);
    while start > 0 && v[start - 1] != ':'
        invariant
            start <= v.len(),
            v@ == field@,
            short_name_start(v@) == short_name_start(v@.take(start as int)),
        decreases start,
    {
        assert(v@.take(start as int).drop_last() =~= v@.take(start - 1));
        start -= 1;
    }
    let mut out: Vec<char> = Vec::new();
    let mut i: usize = start;
    while i < v.len()
        invariant
            start <= i <= v.len(),
            out@ == v@.subrange(start as int, i as int),
        decreases v.len() - i,
    {
        out.push(v[i]);
        assert(v@.subrange(start as int, i as int).push(v@[i as int]) =~= v@.subrange(
            start as int,
            i + 1,
        ));
        i += 1;
    }
    assert(v@.subrange(start as int, v.len() as int) =~= v@.skip(start as int));
    string_of(&out)
}

/// What is shown for the field `field` of `metadata`.
pub fn field_value(metadata: &TrackMetadata, field: &str) -> (r: String)
    ensures
        r@ == field_text(metadata@, field@),
{
    match metadata.get(field) {
        Some(value) => value.clone(),
        None => {
            let mut out = String::from_str("No ");
            let short = short_field_name(field);
            out.append(short.as_str());
            out
        },
    }
}

/// The fields' texts with the separator between them.
pub fn join_fields(metadata: &TrackMetadata, fields: &Vec<String>, separator: char) -> (r: String)
    ensures
        r@ == joined_fields(metadata@, texts(fields@), separator),
{
    let mut out = String::new();
    let mut i: usize = 0;
    assert(texts(fields@).take(0) =~= Seq::<Seq<char>>::empty());
    while i < fields.len()
        invariant
            i <= fields.len(),
            out@ == joined_fields(metadata@, texts(fields@).take(i as int), separator),
        decreases fields.len() - i,
    {
        let ghost before = out@;
        proof {
            let upto = texts(fields@).take(i + 1);
            assert(upto.drop_last() =~= texts(fields@).take(i as int));
            assert(upto.last() == fields@[i as int]@);
            assert(upto[0] == fields@[0]@);
        }
        if i > 0 {
            push_char(&mut out, ' ');
            push_char(&mut out, separator);
            push_char(&mut out, ' ');
            assert(out@ =~= before + separator_text(separator));
        }
        let value = field_value(metadata, fields[i].as_str());
        out.append(value.as_str());
        assert(i == 0 ==> out@ =~= value@);
        i += 1;
    }
    assert(texts(fields@).take(fields.len() as int) =~= texts(fields@));
    out
}

/// The text of the body for `metadata`, unrotated.
pub fn body(config: &Config, metadata: &TrackMetadata) -> (r: String)
    ensures
        r@ == body_text(
            metadata@,
            texts(config.fields@),
            config.separator,
            config.display_width as nat,
        ),
{
    let joined = join_fields(metadata, &config.fields, config.separator);
    if width(joined.as_str()) > config.display_width {
        let mut out = String::new();
        push_char(&mut out, ' ');
        push_char(&mut out, config.separator);
        push_char(&mut out, ' ');
        out.append(joined.as_str());
        out.append(" |");
        assert(out@ =~= marquee_text(joined@, config.separator));
        out
    } else {
        joined
    }
}

/// The presentation of the player `name` with the given status and
/// metadata. The body is the unrotated text.
pub fn build(config: &Config, name: &str, status: PlaybackStatus, metadata: &TrackMetadata) -> (d:
    DisplayState)
    ensures
        d@ == player_presentation(*config, name@, status, metadata@),
{
    DisplayState {
        prefix: select_icon(&config.icons, config.default_icon.as_str(), name),
        body: body(config, metadata),
        suffix: suffix(&config.glyphs, name, status),
        paused: status.is_suspended(),
    }
}

/// The presentation while no player is on the bus.
pub fn idle() -> (d: DisplayState)
    ensures
        d@ == idle_presentation(),
{
    DisplayState {
        prefix: String::new(),
        body: String::new(),
        suffix: String::from_str("No player available"),
        paused: true,
    }
}

} // verus!
