//! The marquee: a text buffer that is rotated, padded or left alone once per
//! tick.

use vstd::prelude::*;
use vstd::seq_lib::{to_multiset_build, to_multiset_remove};
use crate::chars::{chars_of, string_of};
use crate::clamp::{clamp, clamped, lemma_spaces_width, pad, spaces};
use crate::width::{lemma_width_concat, lemma_width_first, lemma_width_push, text_width, width};

verus! {

/// `s` rotated cyclically to the left by one character: the first character
/// moves to the end. The empty text is its own rotation.
pub open spec fn rotated(s: Seq<char>) -> Seq<char> {
    if s.len() == 0 {
        s
    } else {
        s.drop_first().push(s[0])
    }
}

/// `s` rotated to the left `n` times.
pub open spec fn rotated_by(s: Seq<char>, n: nat) -> Seq<char>
    decreases n,
{
    if n == 0 {
        s
    } else {
        rotated(rotated_by(s, (n - 1) as nat))
    }
}

/// The buffer after one tick: untouched while paused, rotated by one
/// character if it is wider than the target, padded with spaces up to the
/// target if it is narrower, and untouched if it fits exactly.
pub open spec fn ticked(s: Seq<char>, target: nat, paused: bool) -> Seq<char> {
    if paused {
        s
    } else if text_width(s) > target {
        rotated(s)
    } else if text_width(s) < target {
        s + spaces((target - text_width(s)) as nat)
    } else {
        s
    }
}

/// The buffer after `n` ticks.
pub open spec fn ticked_by(s: Seq<char>, target: nat, paused: bool, n: nat) -> Seq<char>
    decreases n,
{
    if n == 0 {
        s
    } else {
        ticked(ticked_by(s, target, paused, (n - 1) as nat), target, paused)
    }
}

/// Rotation changes neither the length nor the width of a text.
pub proof fn lemma_rotated_width(s: Seq<char>)
    ensures
        rotated(s).len() == s.len(),
        text_width(rotated(s)) == text_width(s),
{
    if s.len() > 0 {
        lemma_width_first(s);
        lemma_width_push(s.drop_first(), s[0]);
    }
}

/// Rotation keeps the multiset of characters.
pub proof fn lemma_rotated_multiset(s: Seq<char>)
    ensures
        rotated(s).to_multiset() == s.to_multiset(),
{
    if s.len() > 0 {
        s.to_multiset_ensures();
        assert(s.contains(s[0]));
        assert(s.remove(0) =~= s.drop_first());
        to_multiset_remove(s, 0);
        to_multiset_build(s.drop_first(), s[0]);
        assert(s.to_multiset().remove(s[0]).insert(s[0]) =~= s.to_multiset());
    }
}

/// Rotating `n` times, for `n` up to the length, moves the first `n`
/// characters to the end.
pub proof fn lemma_rotated_by_split(s: Seq<char>, n: nat)
    requires
        n <= s.len(),
    ensures
        rotated_by(s, n) == s.skip(n as int) + s.take(n as int),
    decreases n,
{
    if n == 0 {
        assert(s.skip(0) + s.take(0) =~= s);
    } else {
        lemma_rotated_by_split(s, (n - 1) as nat);
        let before = s.skip(n - 1) + s.take(n - 1);
        assert(rotated(before) =~= s.skip(n as int) + s.take(n as int));
    }
}

/// Cyclic closure: rotating a text of `k` characters `k` times gives the
/// text back.
pub proof fn lemma_rotated_by_len(s: Seq<char>)
    ensures
        rotated_by(s, s.len()) == s,
{
    lemma_rotated_by_split(s, s.len());
    assert(s.skip(s.len() as int) + s.take(s.len() as int) =~= s);
}

/// The rotations repeat with the character count as their period.
pub proof fn lemma_rotated_by_period(s: Seq<char>, n: nat)
    ensures
        rotated_by(s, n + s.len()) == rotated_by(s, n),
    decreases n,
{
    if n == 0 {
        lemma_rotated_by_len(s);
    } else {
        lemma_rotated_by_period(s, (n - 1) as nat);
        assert((n + s.len() - 1) as nat == (n - 1) as nat + s.len());
    }
}

/// While paused, no number of ticks changes the buffer.
pub proof fn lemma_ticked_by_paused(s: Seq<char>, target: nat, n: nat)
    ensures
        ticked_by(s, target, true, n) == s,
    decreases n,
{
    if n > 0 {
        lemma_ticked_by_paused(s, target, (n - 1) as nat);
    }
}

/// A buffer wider than the target that is not paused rotates by one
/// character with every tick, for ever.
pub proof fn lemma_ticked_by_rotates(s: Seq<char>, target: nat, n: nat)
    requires
        text_width(s) > target,
    ensures
        ticked_by(s, target, false, n) == rotated_by(s, n),
        text_width(rotated_by(s, n)) == text_width(s),
    decreases n,
{
    if n > 0 {
        lemma_ticked_by_rotates(s, target, (n - 1) as nat);
        lemma_rotated_width(rotated_by(s, (n - 1) as nat));
    }
}

/// A buffer that fits the target is padded to it by the first tick and then
/// stays as it is: it never rotates.
pub proof fn lemma_ticked_by_static(s: Seq<char>, target: nat, n: nat)
    requires
        text_width(s) <= target,
        n >= 1,
    ensures
        ticked_by(s, target, false, n) == s + spaces((target - text_width(s)) as nat),
    decreases n,
{
    let gap = (target - text_width(s)) as nat;
    lemma_spaces_width(gap);
    lemma_width_concat(s, spaces(gap));
    if n == 1 {
        assert(ticked_by(s, target, false, 0) == s);
        assert(s + spaces(0) =~= s);
    } else {
        lemma_ticked_by_static(s, target, (n - 1) as nat);
    }
}

/// Whether `text` is a form in which ticks show `source`: one of its
/// rotations if it is wider than the target, and otherwise the source
/// itself, as it is or padded to the target.
pub open spec fn reachable(source: Seq<char>, target: nat, text: Seq<char>) -> bool {
    if text_width(source) > target {
        exists|n: nat| text == rotated_by(source, n)
    } else {
        text == source || text == source + spaces((target - text_width(source)) as nat)
    }
}

/// However often a text is rotated, it keeps its width.
pub proof fn lemma_rotated_by_width(s: Seq<char>, n: nat)
    ensures
        text_width(rotated_by(s, n)) == text_width(s),
    decreases n,
{
    if n > 0 {
        lemma_rotated_by_width(s, (n - 1) as nat);
        lemma_rotated_width(rotated_by(s, (n - 1) as nat));
    }
}

/// A source is a form of itself.
pub proof fn lemma_reachable_start(source: Seq<char>, target: nat)
    ensures
        reachable(source, target, source),
{
    assert(source == rotated_by(source, 0));
}

/// A tick leads from one form of a source to another, paused or not; and
/// the form that it leaves is one that a further tick of the same kind
/// leaves alone, unless the text is going round.
pub proof fn lemma_ticked_reachable(source: Seq<char>, target: nat, text: Seq<char>, paused: bool)
    requires
        reachable(source, target, text),
    ensures
        reachable(source, target, ticked(text, target, paused)),
        text_width(source) > target ==> text_width(text) > target,
        text_width(source) <= target ==> text_width(text) <= target,
        text_width(source) <= target ==> ticked(ticked(text, target, paused), target, paused)
            == ticked(text, target, paused),
        text_width(source) <= target && !paused ==> ticked(text, target, paused) == source
            + spaces((target - text_width(source)) as nat),
{
    let gap = (target - text_width(source)) as nat;
    if text_width(source) > target {
        let n = choose|n: nat| text == rotated_by(source, n);
        lemma_rotated_by_width(source, n);
        if !paused {
            assert(ticked(text, target, paused) == rotated_by(source, n + 1));
        }
    } else {
        lemma_spaces_width(gap);
        lemma_width_concat(source, spaces(gap));
        if text_width(source) == target {
            assert(source + spaces(gap) =~= source);
        }
    }
}

/// The text `s` rotated to the left by one character.
pub fn rotate(s: &str) -> (r: String)
    ensures
        r@ == rotated(s@),
{
    let v = chars_of(s);
    let mut r: Vec<char> = Vec::new();
    let mut i: usize = 1;
    while i < v.len()
        invariant
            1 <= i,
            v.len() > 0 ==> i <= v.len(),
            v.len() > 0 ==> r@ == v@.subrange(1, i as int),
            v.len() == 0 ==> r@ == v@,
        decreases v.len() - i,
    {
        r.push(v[i]);
        assert(v@.subrange(1, i as int).push(v@[i as int]) =~= v@.subrange(1, i + 1));
        i += 1;
    }
    if v.len() > 0 {
        r.push(v[0]);
    }
    string_of(&r)
}

/// The scrolling state of the widget: the text as it is currently rotated,
/// the width of the display, and whether scrolling is suspended.
pub struct ScrollBuffer {
    pub text: String,
    pub target: usize,
    pub paused: bool,
}

impl ScrollBuffer {
    /// A buffer that holds `text` unrotated and is not paused.
    pub fn new(text: String, target: usize) -> (b: Self)
        ensures
            b.text@ == text@,
            b.target == target,
            !b.paused,
    {
        ScrollBuffer { text, target, paused: false }
    }

    /// Advances the marquee by one tick.
    pub fn tick(&mut self)
        ensures
            final(self).text@ == ticked(old(self).text@, old(self).target as nat, old(self).paused),
            final(self).target == old(self).target,
            final(self).paused == old(self).paused,
    {
        if self.paused {
            return ;
        }
        let w = width(self.text.as_str());
        if w > self.target {
            self.text = rotate(self.text.as_str());
        } else if w < self.target {
            let mut v = chars_of(self.text.as_str());
            pad(&mut v, self.target - w);
            self.text = string_of(&v);
        }
    }

    /// The buffer cut or padded to the width of the display: its first
    /// `target` columns.
    pub fn window(&self) -> (r: String)
        ensures
            r@ == clamped(self.text@, self.target as nat),
    {
        clamp(self.text.as_str(), self.target)
    }
}

} // verus!
