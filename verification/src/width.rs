//! Display width: how many columns of a fixed-pitch display a text occupies.

use vstd::prelude::*;
use vstd::utf8::*;
use unicode_width::UnicodeWidthChar;
use crate::chars::chars_of;

verus! {

/// The value that `unicode_width::UnicodeWidthChar::width` returns for `c`:
/// the width that the Unicode tables give the character, or `None` for a
/// control character. The tables are not modelled; this only names the result.
pub uninterp spec fn unicode_width(c: char) -> Option<usize>;

/// Looks up the width of `c` in the Unicode tables.
///
/// Trusted: the body calls `unicode_width::UnicodeWidthChar::width`. The
/// contract claims only that the result is the one named by
/// [`unicode_width`], that is, that the call depends on `c` alone.
#[verifier::external_body]
fn unicode_char_width(c: char) -> (w: Option<usize>)
    ensures
        w == unicode_width(c),
{
    UnicodeWidthChar::width(c)
}

/// First code point that the Unicode tables are consulted for. Everything
/// below it is ASCII or a C0/C1 control code, none of which is wide.
pub const FIRST_TABLE_CHAR: u32 = 0xA0;

/// Columns that one character occupies: 2 for a wide character, that is one
/// to which the Unicode tables give the width 2, and 1 for every other.
pub open spec fn columns(c: char) -> nat {
    if (c as u32) < FIRST_TABLE_CHAR {
        1
    } else if unicode_width(c) == Some(2usize) {
        2
    } else {
        1
    }
}

/// Columns that a text occupies: the sum of the columns of its characters.
pub open spec fn text_width(s: Seq<char>) -> nat
    decreases s.len(),
{
    if s.len() == 0 {
        0
    } else {
        text_width(s.drop_last()) + columns(s.last())
    }
}

/// Appending one character adds that character's columns.
pub proof fn lemma_width_push(s: Seq<char>, c: char)
    ensures
        text_width(s.push(c)) == text_width(s) + columns(c),
{
    assert(s.push(c).drop_last() =~= s);
}

/// A text of one character occupies that character's columns.
pub proof fn lemma_width_single(c: char)
    ensures
        text_width(seq![c]) == columns(c),
{
    lemma_width_push(Seq::empty(), c);
    assert(Seq::<char>::empty().push(c) =~= seq![c]);
}

/// Width is additive over concatenation.
pub proof fn lemma_width_concat(a: Seq<char>, b: Seq<char>)
    ensures
        text_width(a + b) == text_width(a) + text_width(b),
    decreases b.len(),
{
    if b.len() == 0 {
        assert(a + b =~= a);
    } else {
        lemma_width_concat(a, b.drop_last());
        assert((a + b).drop_last() =~= a + b.drop_last());
    }
}

/// A text splits into its first character and the rest, and so does its
/// width.
pub proof fn lemma_width_first(s: Seq<char>)
    requires
        s.len() > 0,
    ensures
        text_width(s) == columns(s[0]) + text_width(s.drop_first()),
{
    lemma_width_single(s[0]);
    lemma_width_concat(seq![s[0]], s.drop_first());
    assert(seq![s[0]] + s.drop_first() =~= s);
}

/// A prefix of a text is no wider than the text.
pub proof fn lemma_width_prefix(s: Seq<char>, n: int)
    requires
        0 <= n <= s.len(),
    ensures
        text_width(s.take(n)) <= text_width(s),
{
    lemma_width_concat(s.take(n), s.skip(n));
    assert(s.take(n) + s.skip(n) =~= s);
}

/// A character occupies no more columns than its UTF-8 encoding has bytes.
proof fn lemma_columns_le_encoding(c: char)
    ensures
        columns(c) <= encode_scalar(c as u32).len(),
{
}

/// A text occupies no more columns than its UTF-8 encoding has bytes.
proof fn lemma_width_le_encoding(s: Seq<char>)
    ensures
        text_width(s) <= encode_utf8(s).len(),
    decreases s.len(),
{
    if s.len() > 0 {
        lemma_width_le_encoding(s.drop_first());
        lemma_width_first(s);
        lemma_columns_le_encoding(s[0]);
    }
}

/// Columns that the character `c` occupies.
pub fn char_columns(c: char) -> (n: usize)
    ensures
        n == columns(c),
{
    if (c as u32) < FIRST_TABLE_CHAR {
        1
    } else {
        match unicode_char_width(c) {
            Some(2) => 2,
            _ => 1,
        }
    }
}

/// Columns that the text `s` occupies.
pub fn width(s: &str) -> (w: usize)
    ensures
        w == text_width(s@),
{
    let v = chars_of(s);
    // The width is at most the length in bytes, and that fits.
    let bytes = s.as_bytes().len();
    proof {
        lemma_width_le_encoding(s@);
        assert(text_width(s@) <= bytes);
    }
    let mut w: usize = 0;
    let mut i: usize = 0;
    while i < v.len()
        invariant
            i <= v.len(),
            v@ == s@,
            w == text_width(v@.take(i as int)),
            text_width(v@) <= usize::MAX,
        decreases v.len() - i,
    {
        let n = char_columns(v[i]);
        proof {
            lemma_width_push(v@.take(i as int), v@[i as int]);
            assert(v@.take(i as int).push(v@[i as int]) =~= v@.take(i + 1));
            lemma_width_prefix(v@, i + 1);
        }
        w += n;
        i += 1;
    }
    assert(v@.take(v.len() as int) =~= v@);
    w
}

} // verus!
