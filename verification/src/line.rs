//! The line that the bar is given.

use vstd::prelude::*;
use vstd::string::*;
use crate::chars::push_char;
use crate::config::Config;
use crate::format::{DisplayState, Presentation};

verus! {

/// The character of the digit `d`.
pub open spec fn digit_char(d: int) -> char {
    seq!['0', '1', '2', '3', '4', '5', '6', '7', '8', '9'][d]
}

/// The decimal numeral of `n`, without leading zeros.
pub open spec fn decimal(n: nat) -> Seq<char>
    decreases n,
{
    if n < 10 {
        seq![digit_char(n as int)]
    } else {
        decimal(n / 10).push(digit_char((n % 10) as int))
    }
}

/// The line for the bar: the icon, a space, the body set in the font with
/// index `font_index`, and the buttons.
pub open spec fn line_text(
    prefix: Seq<char>,
    font_index: nat,
    body: Seq<char>,
    suffix: Seq<char>,
) -> Seq<char> {
    prefix + " %{T"@ + decimal(font_index) + "}"@ + body + "%{T-}"@ + suffix
}

/// The line that shows a display state: its three parts as they stand, in
/// order.
pub open spec fn rendered(config: Config, state: Presentation) -> Seq<char> {
    line_text(state.prefix, config.font_index as nat, state.body, state.suffix)
}

/// Appends the decimal numeral of `n` to `out`.
fn push_decimal(out: &mut String, n: u32)
    ensures
        final(out)@ == old(out)@ + decimal(n as nat),
    decreases n,
{
    let ghost before = out@;
    if n >= 10 {
        push_decimal(out, n / 10);
    }
    let d = n % 10;
    let c = if d == 0 {
        '0'
    } else if d == 1 {
        '1'
    } else if d == 2 {
        '2'
    } else if d == 3 {
        '3'
    } else if d == 4 {
        '4'
    } else if d == 5 {
        '5'
    } else if d == 6 {
        '6'
    } else if d == 7 {
        '7'
    } else if d == 8 {
        '8'
    } else {
        '9'
    };
    assert(c == digit_char(d as int));
    push_char(out, c);
    assert(out@ =~= before + decimal(n as nat));
}

/// The line that shows `state`.
pub fn render(config: &Config, state: &DisplayState) -> (r: String)
    ensures
        r@ == rendered(*config, state@),
{
    let mut out = state.prefix.clone();
    out.append(" %{T");
    push_decimal(&mut out, config.font_index);
    out.append("}");
    out.append(state.body.as_str());
    out.append("%{T-}");
    out.append(state.suffix.as_str());
    out
}

} // verus!
