//! Cutting or padding a text to an exact display width.

use vstd::prelude::*;
use crate::chars::{chars_of, string_of};
use crate::width::{
    char_columns, columns, lemma_width_concat, lemma_width_first, lemma_width_push,
    lemma_width_single, text_width,
};

verus! {

/// A run of `n` space characters.
pub open spec fn spaces(n: nat) -> Seq<char> {
    Seq::new(n, |i: int| ' ')
}

/// How many leading characters of `s` fit into `target` columns: characters
/// are taken from the start until the next one would overshoot.
pub open spec fn fitting_len(s: Seq<char>, target: nat) -> nat
    decreases s.len(),
{
    if s.len() == 0 || columns(s[0]) > target {
        0
    } else {
        1 + fitting_len(s.drop_first(), (target - columns(s[0])) as nat)
    }
}

/// `s` brought to exactly `target` columns: its longest prefix that fits,
/// followed by as many spaces as are missing. A wide character that would
/// straddle the boundary is thereby replaced by one space.
pub open spec fn clamped(s: Seq<char>, target: nat) -> Seq<char> {
    let kept = s.take(fitting_len(s, target) as int);
    kept + spaces((target - text_width(kept)) as nat)
}

/// A run of `n` spaces occupies `n` columns.
pub proof fn lemma_spaces_width(n: nat)
    ensures
        text_width(spaces(n)) == n,
    decreases n,
{
    if n > 0 {
        lemma_spaces_width((n - 1) as nat);
        assert(spaces(n).drop_last() =~= spaces((n - 1) as nat));
    }
}

/// The kept prefix is the longest one that fits: it occupies at most
/// `target` columns, and with one more character it would occupy more.
pub proof fn lemma_fitting_len_longest(s: Seq<char>, target: nat)
    ensures
        fitting_len(s, target) <= s.len(),
        text_width(s.take(fitting_len(s, target) as int)) <= target,
        fitting_len(s, target) < s.len() ==> text_width(
            s.take(fitting_len(s, target) as int + 1),
        ) > target,
    decreases s.len(),
{
    let k = fitting_len(s, target);
    if s.len() == 0 {
        assert(s.take(0) =~= s);
    } else if columns(s[0]) > target {
        assert(s.take(0) =~= Seq::<char>::empty());
        assert(s.take(1) =~= seq![s[0]]);
        lemma_width_single(s[0]);
    } else {
        let rest = s.drop_first();
        let left = (target - columns(s[0])) as nat;
        lemma_fitting_len_longest(rest, left);
        let j = fitting_len(rest, left) as int;
        assert(s.take(j + 1).drop_first() =~= rest.take(j));
        lemma_width_first(s.take(j + 1));
        if j < rest.len() {
            assert(s.take(j + 2).drop_first() =~= rest.take(j + 1));
            lemma_width_first(s.take(j + 2));
        }
    }
}

/// A text that fits is kept whole.
pub proof fn lemma_fitting_len_whole(s: Seq<char>, target: nat)
    requires
        text_width(s) <= target,
    ensures
        fitting_len(s, target) == s.len(),
    decreases s.len(),
{
    if s.len() > 0 {
        lemma_width_first(s);
        lemma_fitting_len_whole(s.drop_first(), (target - columns(s[0])) as nat);
    }
}

/// The clamped text occupies exactly the target width, whatever the text.
pub proof fn lemma_clamped_width(s: Seq<char>, target: nat)
    ensures
        text_width(clamped(s, target)) == target,
{
    let kept = s.take(fitting_len(s, target) as int);
    lemma_fitting_len_longest(s, target);
    lemma_spaces_width((target - text_width(kept)) as nat);
    lemma_width_concat(kept, spaces((target - text_width(kept)) as nat));
}

/// A text that fits is only padded: nothing is cut.
pub proof fn lemma_clamped_pads(s: Seq<char>, target: nat)
    requires
        text_width(s) <= target,
    ensures
        clamped(s, target) == s + spaces((target - text_width(s)) as nat),
{
    lemma_fitting_len_whole(s, target);
    assert(s.take(s.len() as int) =~= s);
}

/// A text of exactly the target width is left as it is.
pub proof fn lemma_clamped_exact(s: Seq<char>, target: nat)
    requires
        text_width(s) == target,
    ensures
        clamped(s, target) == s,
{
    lemma_clamped_pads(s, target);
    assert(s + spaces(0) =~= s);
}

/// Clamping is idempotent for a fixed target width.
pub proof fn lemma_clamped_idempotent(s: Seq<char>, target: nat)
    ensures
        clamped(clamped(s, target), target) == clamped(s, target),
{
    lemma_clamped_width(s, target);
    lemma_clamped_exact(clamped(s, target), target);
}

/// Appends `n` spaces to `v`.
pub fn pad(v: &mut Vec<char>, n: usize)
    ensures
        final(v)@ == old(v)@ + spaces(n as nat),
{
    let mut i: usize = 0;
    while i < n
        invariant
            i <= n,
            v@ == old(v)@ + spaces(i as nat),
        decreases n - i,
    {
        v.push(' ');
        i += 1;
        assert(v@ =~= old(v)@ + spaces(i as nat));
    }
}

/// The characters `v` brought to exactly `target` columns.
pub fn clamp_chars(v: &Vec<char>, target: usize) -> (r: Vec<char>)
    ensures
        r@ == clamped(v@, target as nat),
{
    let mut r: Vec<char> = Vec::new();
    let mut used: usize = 0;
    let mut i: usize = 0;
    assert(v@.skip(0) =~= v@);
    while i < v.len()
        invariant_except_break
            i <= v.len(),
            used <= target,
            r@ == v@.take(i as int),
            used == text_width(r@),
            fitting_len(v@, target as nat) == i + fitting_len(
                v@.skip(i as int),
                (target - used) as nat,
            ),
        ensures
            used <= target,
            used == text_width(r@),
            r@ == v@.take(fitting_len(v@, target as nat) as int),
        decreases v.len() - i,
    {
        let c = v[i];
        let n = char_columns(c);
        assert(v@.skip(i as int)[0] == c);
        if n > target - used {
            break;
        }
        proof {
            assert(v@.skip(i as int).drop_first() =~= v@.skip(i + 1));
            assert(v@.take(i as int).push(c) =~= v@.take(i + 1));
            lemma_width_push(r@, c);
        }
        r.push(c);
        used += n;
        i += 1;
    }
    pad(&mut r, target - used);
    r
}

/// The text `s` brought to exactly `target` columns: cut after the last
/// character that still fits, then padded on the right with spaces.
pub fn clamp(s: &str, target: usize) -> (r: String)
    ensures
        r@ == clamped(s@, target as nat),
{
    let v = chars_of(s);
    let r = clamp_chars(&v, target);
    string_of(&r)
}

} // verus!
